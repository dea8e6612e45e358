//! Paths: file names and extensions, backup names, and what may be rewritten.

use crate::clock::now_secs;
use crate::number::{decimal, show};
use crate::text::{
    begins, chars_of, cut, cut_last, ends, ends_with, lemma_contains, lemma_cut_first,
    lemma_cut_last_char, lemma_find_upto, lemma_found, lemma_no_cut_last_char, lemma_texts_push,
    occurs_at, same, split_last, split_once, starts_with, texts,
};
use vstd::prelude::*;
use vstd::string::*;
use vstd::utf8::encode_scalar;

verus! {

broadcast use vstd::seq::group_seq_axioms;

/// The source file that the agent rewrites and builds.
pub const SELF_PATH: &'static str = "src/main.rs";

/// The folder of the sessions.
pub const SESSIONS_PATH: &'static str = ".evo/sessions";

/// Where a prompt file lies.
pub open spec fn prompt_path(name: Seq<char>) -> Seq<char> {
    "src/prompts/"@ + name
}

/// Where a prompt file lies.
pub fn prompt_file(name: &str) -> (r: String)
    ensures
        r@ == prompt_path(name@),
{
    let mut r = "src/prompts/".to_owned();
    r.append(name);
    r
}

/// The folder of a session.
pub open spec fn session_path(name: Seq<char>) -> Seq<char> {
    SESSIONS_PATH@ + "/"@ + name
}

/// Where the log of a session lies.
pub open spec fn log_path(name: Seq<char>) -> Seq<char> {
    session_path(name) + "/traj.jsonl"@
}

/// The folder of a session.
pub fn session_folder(name: &str) -> (r: String)
    ensures
        r@ == session_path(name@),
{
    let mut r = SESSIONS_PATH.to_owned();
    r.append("/");
    r.append(name);
    r
}

/// Where the log of a session lies.
pub fn session_log(name: &str) -> (r: String)
    ensures
        r@ == log_path(name@),
{
    let mut r = session_folder(name);
    r.append("/traj.jsonl");
    r
}

/// The name of the file or folder to which `path` leads: its last segment, save that empty
/// segments and single dots do not count. A path that ends in two dots has none.
pub open spec fn file_name(path: Seq<char>) -> Option<Seq<char>>
    decreases path.len(),
{
    match cut_last(path, seq!['/']) {
        Some((front, last)) => {
            if last == Seq::<char>::empty() || last == seq!['.'] {
                proof {
                    lemma_find_upto(path, seq!['/'], path.len() as int);
                }
                file_name(front)
            } else if last == seq!['.', '.'] {
                None
            } else {
                Some(last)
            }
        },
        None => if path == Seq::<char>::empty() || path == seq!['.'] || path == seq!['.', '.'] {
            None
        } else {
            Some(path)
        },
    }
}

/// What follows the last dot of the file name, unless that dot is its first character.
pub open spec fn extension(path: Seq<char>) -> Option<Seq<char>> {
    match file_name(path) {
        None => None,
        Some(name) => match cut_last(name, seq!['.']) {
            None => None,
            Some((before, after)) => if before.len() == 0 {
                None
            } else {
                Some(after)
            },
        },
    }
}

/// How many bytes `c` takes.
pub open spec fn width(c: char) -> nat {
    encode_scalar(c as u32).len()
}

/// How many bytes `s` takes.
pub open spec fn byte_len(s: Seq<char>) -> nat
    decreases s.len(),
{
    if s.len() == 0 {
        0
    } else {
        width(s[0]) + byte_len(s.skip(1))
    }
}

/// The front of `s` that takes `n` bytes, if characters end there.
pub open spec fn front_of_bytes(s: Seq<char>, n: int) -> Option<Seq<char>>
    decreases s.len(),
{
    if n == 0 {
        Some(seq![])
    } else if n < 0 || s.len() == 0 {
        None
    } else {
        match front_of_bytes(s.skip(1), n - width(s[0])) {
            Some(rest) => Some(seq![s[0]] + rest),
            None => None,
        }
    }
}

/// What stands before the time in the backup name of `path`: all but as many bytes at its end as
/// the extension and its dot take.
pub open spec fn stem(path: Seq<char>) -> Option<Seq<char>> {
    match extension(path) {
        Some(ext) if ext.len() > 0 => front_of_bytes(
            path,
            byte_len(path) - byte_len(ext) - 1,
        ),
        _ => Some(path),
    }
}

/// The name under which `path` is backed up at `ts`.
pub open spec fn backup_name(path: Seq<char>, ts: nat) -> Seq<char> {
    match extension(path) {
        Some(ext) if ext.len() > 0 => stem(path)->0 + "."@ + decimal(ts) + "."@ + ext + ".bak"@,
        _ => path + "."@ + decimal(ts) + ".bak"@,
    }
}

/// What may be rewritten while the agent evolves: anything under `src/` that is no backup, and
/// the two documents. One of them is the `guide`, which tells coding agents how to work on the
/// project.
pub open spec fn evolvable(path: Seq<char>, guide: Seq<char>) -> bool {
    ||| begins(path, "src/"@) && !ends(path, ".bak"@)
    ||| path == guide
    ||| path == "README.md"@
}

/// Tells whether `path` may be rewritten while the agent evolves.
pub fn is_evolvable(path: &str, guide: &str) -> (r: bool)
    ensures
        r == evolvable(path@, guide@),
{
    (starts_with(path, "src/") && !ends_with(path, ".bak")) || same(path, guide) || same(
        path,
        "README.md",
    )
}

/// A part of a path between two slashes, unless it leads nowhere else.
pub open spec fn kept_step(part: Seq<char>) -> Seq<Seq<char>> {
    if part.len() == 0 || part == "."@ {
        seq![]
    } else {
        seq![part]
    }
}

/// The folders and the file that a path names, one after the other.
pub open spec fn steps(path: Seq<char>) -> Seq<Seq<char>>
    decreases path.len(),
{
    proof {
        lemma_slash_cut(path);
    }
    match cut(path, "/"@) {
        Some((part, rest)) => kept_step(part) + steps(rest),
        None => kept_step(path),
    }
}

/// What may be deleted while the agent evolves: anything that lies within `src/`, but neither the
/// agent's own source nor the project's rules. A path that climbs up is not taken to lie within.
pub open spec fn deletable(path: Seq<char>) -> bool {
    &&& !begins(path, "/"@)
    &&& steps(path).len() >= 2
    &&& steps(path)[0] == "src"@
    &&& !steps(path).contains(".."@)
    &&& steps(path) != seq!["src"@, "main.rs"@]
    &&& steps(path) != seq!["src"@, "AGENTS.md"@]
}

/// The name of the file or folder to which `path` leads.
pub fn name_of<'a>(path: &'a str) -> (r: Option<&'a str>)
    ensures
        match r {
            Some(n) => file_name(path@) == Some(n@),
            None => file_name(path@) is None,
        },
    decreases path@.len(),
{
    proof {
        reveal_strlit("/");
        reveal_strlit(".");
        reveal_strlit("..");
        reveal_strlit("");
        assert("/"@ =~= seq!['/']);
        assert("."@ =~= seq!['.']);
        assert(".."@ =~= seq!['.', '.']);
        assert(""@ =~= Seq::<char>::empty());
        lemma_find_upto(path@, seq!['/'], path@.len() as int);
    }
    match split_last(path, "/") {
        Some((front, last)) => {
            if same(last, "") || same(last, ".") {
                name_of(front)
            } else if same(last, "..") {
                None
            } else {
                Some(last)
            }
        },
        None => {
            if same(path, "") || same(path, ".") || same(path, "..") {
                None
            } else {
                Some(path)
            }
        },
    }
}

/// The extension of the file to which `path` leads.
pub fn extension_of<'a>(path: &'a str) -> (r: Option<&'a str>)
    ensures
        match r {
            Some(e) => extension(path@) == Some(e@),
            None => extension(path@) is None,
        },
{
    proof {
        reveal_strlit(".");
        assert("."@ =~= seq!['.']);
    }
    match name_of(path) {
        None => None,
        Some(name) => match split_last(name, ".") {
            None => None,
            Some((before, after)) => {
                if before.unicode_len() == 0 {
                    None
                } else {
                    Some(after)
                }
            },
        },
    }
}

/// A character takes between one and four bytes.
proof fn lemma_width(c: char)
    ensures
        1 <= width(c) <= 4,
{
}

/// Texts one after the other take the bytes of both.
proof fn lemma_byte_len_concat(a: Seq<char>, b: Seq<char>)
    ensures
        byte_len(a + b) == byte_len(a) + byte_len(b),
    decreases a.len(),
{
    if a.len() == 0 {
        assert(a + b =~= b);
    } else {
        assert((a + b).skip(1) =~= a.skip(1) + b);
        lemma_byte_len_concat(a.skip(1), b);
    }
}

/// A front of a text is the front with as many bytes as it takes.
proof fn lemma_front_of_bytes(a: Seq<char>, b: Seq<char>)
    ensures
        front_of_bytes(a + b, byte_len(a) as int) == Some(a),
    decreases a.len(),
{
    if a.len() > 0 {
        lemma_width(a[0]);
        assert((a + b).skip(1) =~= a.skip(1) + b);
        lemma_front_of_bytes(a.skip(1), b);
        assert(seq![a[0]] + a.skip(1) =~= a);
    } else {
        assert(a =~= Seq::<char>::empty());
    }
}

/// A front that takes some number of bytes is a front of the text.
proof fn lemma_front_is_prefix(s: Seq<char>, n: int)
    ensures
        match front_of_bytes(s, n) {
            Some(f) => f.len() <= s.len() && f == s.take(f.len() as int) && byte_len(f) == n,
            None => forall|k: int| 0 <= k <= s.len() ==> byte_len(#[trigger] s.take(k)) != n,
        },
    decreases s.len(),
{
    if n == 0 {
        assert(s.take(0) =~= Seq::<char>::empty());
    } else if n < 0 {
    } else if s.len() == 0 {
        assert(s.take(0) =~= Seq::<char>::empty());
        assert(byte_len(s.take(0)) == 0);
    } else {
        lemma_front_is_prefix(s.skip(1), n - width(s[0]));
        match front_of_bytes(s.skip(1), n - width(s[0])) {
            Some(rest) => {
                let f = seq![s[0]] + rest;
                assert(f =~= s.take(f.len() as int));
                assert(f.skip(1) =~= rest);
            },
            None => {
                assert forall|k: int| 0 <= k <= s.len() implies byte_len(#[trigger] s.take(k))
                    != n by {
                    if k > 0 {
                        assert(s.take(k).skip(1) =~= s.skip(1).take(k - 1));
                        assert(byte_len(s.skip(1).take(k - 1)) != n - width(s[0]));
                    }
                }
            },
        }
    }
}

/// The file name stands in the path as one piece.
proof fn lemma_file_name_within(path: Seq<char>) -> (parts: (Seq<char>, Seq<char>))
    requires
        file_name(path) is Some,
    ensures
        path == parts.0 + file_name(path)->0 + parts.1,
    decreases path.len(),
{
    let slash = seq!['/'];
    let none = Seq::<char>::empty();
    lemma_find_upto(path, slash, path.len() as int);
    match cut_last(path, slash) {
        Some((front, last)) => {
            if last == none || last == seq!['.'] {
                let (a, b) = lemma_file_name_within(front);
                let rest = path.skip(front.len() as int);
                assert(path =~= front + rest);
                assert(a + file_name(front)->0 + b + rest =~= a + file_name(front)->0 + (b + rest));
                (a, b + rest)
            } else {
                let a = path.take(path.len() - last.len());
                assert(path =~= a + last + none);
                (a, none)
            }
        },
        None => {
            assert(path =~= none + path + none);
            (none, none)
        },
    }
}

/// The extension and its dot take no more bytes than the path.
proof fn lemma_extension_fits(path: Seq<char>)
    requires
        extension(path) is Some,
    ensures
        byte_len(extension(path)->0) + 1 <= byte_len(path),
{
    let name = file_name(path)->0;
    let dot = seq!['.'];
    lemma_find_upto(name, dot, name.len() as int);
    let (before, after) = cut_last(name, dot)->0;
    assert(name =~= before + dot + after);
    lemma_byte_len_concat(before + dot, after);
    lemma_byte_len_concat(before, dot);
    reveal_with_fuel(byte_len, 2);
    lemma_width('.');
    let (a, b) = lemma_file_name_within(path);
    lemma_byte_len_concat(a + name, b);
    lemma_byte_len_concat(a, name);
}

/// How many bytes `c` takes.
fn width_of(c: char) -> (r: usize)
    ensures
        r == width(c),
{
    let n = c as u32;
    if n <= 0x7F {
        1
    } else if n <= 0x7FF {
        2
    } else if n <= 0xFFFF {
        3
    } else {
        4
    }
}

/// A text takes at most four bytes a character.
proof fn lemma_byte_len_bound(s: Seq<char>)
    ensures
        s.len() <= byte_len(s) <= 4 * s.len(),
    decreases s.len(),
{
    if s.len() > 0 {
        lemma_width(s[0]);
        lemma_byte_len_bound(s.skip(1));
    }
}

/// A longer end of a text takes more bytes.
proof fn lemma_tail_bytes(s: Seq<char>, i: int, j: int)
    requires
        0 <= i < j <= s.len(),
    ensures
        byte_len(s.skip(i)) > byte_len(s.skip(j)),
{
    assert(s.skip(i) =~= s.subrange(i, j) + s.skip(j));
    lemma_byte_len_concat(s.subrange(i, j), s.skip(j));
    lemma_byte_len_bound(s.subrange(i, j));
}

/// How many bytes `s` takes.
fn count_bytes(s: &str) -> (r: u128)
    ensures
        r == byte_len(s@),
        r <= 4 * s@.len(),
{
    let chars = chars_of(s);
    let mut i: usize = chars.len();
    let mut n: u128 = 0;
    assert(s@.skip(i as int) =~= Seq::<char>::empty());
    while i > 0
        invariant
            i <= chars.len(),
            chars@ == s@,
            n == byte_len(s@.skip(i as int)),
            n <= 4 * (chars.len() - i),
        decreases i,
    {
        i = i - 1;
        assert(s@.skip(i as int).skip(1) =~= s@.skip(i + 1));
        proof {
            lemma_width(s@[i as int]);
        }
        n = n + width_of(chars[i]) as u128;
    }
    assert(s@.skip(0) =~= s@);
    n
}

/// The front of `s` that leaves `n` bytes behind it, if characters end there.
fn front_before<'a>(s: &'a str, n: u128) -> (r: Option<&'a str>)
    requires
        n <= byte_len(s@),
    ensures
        match r {
            Some(f) => front_of_bytes(s@, byte_len(s@) - n) == Some(f@),
            None => front_of_bytes(s@, byte_len(s@) - n) is None,
        },
{
    let chars = chars_of(s);
    let mut k: usize = chars.len();
    let mut behind: u128 = 0;
    assert(s@.skip(k as int) =~= Seq::<char>::empty());
    assert(s@.skip(0) =~= s@);
    while behind < n
        invariant
            k <= chars.len(),
            chars@ == s@,
            s@.skip(0) == s@,
            n <= byte_len(s@),
            behind == byte_len(s@.skip(k as int)),
            behind <= 4 * (chars.len() - k),
            forall|j: int| k < j <= chars.len() ==> byte_len(#[trigger] s@.skip(j)) < n,
        decreases k,
    {
        k = k - 1;
        assert(s@.skip(k as int).skip(1) =~= s@.skip(k + 1));
        proof {
            lemma_width(s@[k as int]);
        }
        behind = behind + width_of(chars[k]) as u128;
    }
    let ghost total = byte_len(s@);
    proof {
        let front = s@.take(k as int);
        assert(s@ =~= front + s@.skip(k as int));
        lemma_byte_len_concat(front, s@.skip(k as int));
        lemma_front_of_bytes(front, s@.skip(k as int));
    }
    if behind == n {
        let r = s.substring_char(0, k);
        assert(r@ =~= s@.take(k as int));
        Some(r)
    } else {
        proof {
            lemma_front_is_prefix(s@, total - n);
            if front_of_bytes(s@, total - n) is Some {
                let m = front_of_bytes(s@, total - n)->0.len() as int;
                assert(s@ =~= s@.take(m) + s@.skip(m));
                lemma_byte_len_concat(s@.take(m), s@.skip(m));
                assert(byte_len(s@.skip(m)) == n);
                if m < k {
                    lemma_tail_bytes(s@, m, k as int);
                }
                assert(false);
            }
        }
        None
    }
}

/// Tells whether `path` has a backup name.
pub fn has_backup_name(path: &str) -> (r: bool)
    ensures
        r == (stem(path@) is Some),
{
    stem_of(path).is_some()
}

/// What stands before the time in the backup name of `path`.
fn stem_of<'a>(path: &'a str) -> (r: Option<&'a str>)
    ensures
        match r {
            Some(s) => stem(path@) == Some(s@),
            None => stem(path@) is None,
        },
{
    match extension_of(path) {
        Some(ext) => {
            if ext.unicode_len() > 0 {
                proof {
                    lemma_extension_fits(path@);
                }
                front_before(path, count_bytes(ext) + 1)
            } else {
                Some(path)
            }
        },
        None => Some(path),
    }
}

/// The name under which `path` is backed up at `ts`.
pub fn bak_path_at(path: &str, ts: u64) -> (r: String)
    requires
        stem(path@) is Some,
    ensures
        r@ == backup_name(path@, ts as nat),
{
    let ext = match extension_of(path) {
        Some(ext) => ext,
        None => "",
    };
    proof {
        reveal_strlit("");
    }
    let mut r = match stem_of(path) {
        Some(s) => s.to_owned(),
        None => String::new(),
    };
    r.append(".");
    r.append(show(ts).as_str());
    if ext.unicode_len() > 0 {
        r.append(".");
        r.append(ext);
    }
    r.append(".bak");
    r
}

/// The name under which `path` is backed up now.
pub fn bak_path(path: &str) -> (r: String)
    requires
        stem(path@) is Some,
    ensures
        exists|ts: u64| r@ == #[trigger] backup_name(path@, ts as nat),
{
    let ts = now_secs();
    bak_path_at(path, ts)
}

/// A file is backed up beside itself, as its stem, the time, its extension and `bak`.
pub proof fn law_backup_name(folder: Seq<char>, base: Seq<char>, ext: Seq<char>, ts: nat)
    requires
        folder.len() > 0 ==> folder.last() == '/',
        base.len() > 0,
        ext.len() > 0,
        !base.contains('/'),
        !ext.contains('/'),
        !ext.contains('.'),
    ensures
        stem(folder + base + "."@ + ext) == Some(folder + base),
        backup_name(folder + base + "."@ + ext, ts) == folder + base + "."@ + decimal(ts) + "."@
            + ext + ".bak"@,
{
    reveal_strlit(".");
    let dot = seq!['.'];
    assert("."@ =~= dot);
    let name = base + dot + ext;
    let path = folder + base + "."@ + ext;
    assert(!name.contains('/')) by {
        assert forall|i: int| 0 <= i < name.len() implies name[i] != '/' by {
            if i < base.len() {
                assert(name[i] == base[i]);
            } else if i > base.len() {
                assert(name[i] == ext[i - base.len() - 1]);
            }
        }
    }
    assert(name != dot && name != seq!['.', '.']) by {
        assert(name.len() > 2);
    }
    if folder.len() > 0 {
        let up = folder.drop_last();
        assert(path =~= up + seq!['/'] + name);
        lemma_cut_last_char(up, '/', name);
    } else {
        assert(path =~= name);
        lemma_no_cut_last_char(path, '/');
    }
    assert(file_name(path) == Some(name));
    lemma_cut_last_char(base, '.', ext);
    assert(extension(path) == Some(ext));
    let front = folder + base;
    assert(path =~= front + (dot + ext));
    lemma_byte_len_concat(front, dot + ext);
    lemma_byte_len_concat(dot, ext);
    reveal_with_fuel(byte_len, 2);
    assert(byte_len(dot) == 1) by {
        assert(dot.skip(1) =~= Seq::<char>::empty());
    }
    lemma_front_of_bytes(front, dot + ext);
}

/// A backup is never rewritten while the agent evolves, unless the guide itself is a backup.
pub proof fn law_backups_are_kept(path: Seq<char>, ts: nat, guide: Seq<char>)
    requires
        !ends(guide, ".bak"@),
    ensures
        !evolvable(backup_name(path, ts), guide),
{
    let name = backup_name(path, ts);
    reveal_strlit(".bak");
    reveal_strlit("README.md");
    assert(name.skip(name.len() - 4) =~= ".bak"@);
    assert(name.last() == 'k');
}

/// Cutting at a slash leaves less.
pub proof fn lemma_slash_cut(path: Seq<char>)
    ensures
        cut(path, "/"@) matches Some((part, rest)) ==> rest.len() < path.len() && part.len()
            < path.len(),
{
    reveal_strlit("/");
    lemma_found(path, "/"@);
}

/// Adds a part of a path, unless it leads nowhere else.
fn push_step(r: &mut Vec<String>, part: &str)
    ensures
        texts(final(r)@) == texts(old(r)@) + kept_step(part@),
{
    if part.unicode_len() == 0 || same(part, ".") {
        assert(texts(r@) + kept_step(part@) =~= texts(r@));
    } else {
        let step = part.to_owned();
        proof {
            lemma_texts_push(r@, step);
        }
        r.push(step);
        assert(texts(old(r)@) + kept_step(part@) =~= texts(old(r)@).push(part@));
    }
}

/// The folders and the file that a path names, one after the other.
pub fn steps_of(path: &str) -> (r: Vec<String>)
    ensures
        texts(r@) == steps(path@),
{
    let mut r: Vec<String> = Vec::new();
    let mut left: &str = path;
    let mut more = true;
    assert(texts(r@) =~= Seq::<Seq<char>>::empty());
    assert(texts(r@) + steps(path@) =~= steps(path@));
    while more
        invariant
            more ==> texts(r@) + steps(left@) == steps(path@),
            !more ==> texts(r@) == steps(path@),
        decreases
            (if more {
                left@.len() + 1
            } else {
                0
            }),
    {
        proof {
            lemma_slash_cut(left@);
        }
        match split_once(left, "/") {
            Some((part, rest)) => {
                let ghost before = texts(r@);
                push_step(&mut r, part);
                assert(before + (kept_step(part@) + steps(rest@)) =~= texts(r@) + steps(rest@));
                left = rest;
            },
            None => {
                push_step(&mut r, left);
                more = false;
            },
        }
    }
    r
}

/// Tells whether `path` may be deleted while the agent evolves.
pub fn is_deletable(path: &str) -> (r: bool)
    ensures
        r == deletable(path@),
{
    if starts_with(path, "/") {
        return false;
    }
    let parts = steps_of(path);
    assert(texts(parts@).len() == parts.len());
    if parts.len() < 2 || !same(parts[0].as_str(), "src") {
        return false;
    }
    let mut i: usize = 0;
    while i < parts.len()
        invariant
            i <= parts.len(),
            texts(parts@) == steps(path@),
            forall|j: int| 0 <= j < i ==> #[trigger] texts(parts@)[j] != ".."@,
        decreases parts.len() - i,
    {
        if same(parts[i].as_str(), "..") {
            assert(texts(parts@)[i as int] == ".."@);
            assert(steps(path@).contains(".."@));
            return false;
        }
        i = i + 1;
    }
    assert(!steps(path@).contains(".."@));
    if parts.len() == 2 {
        let guarded = same(parts[1].as_str(), "main.rs") || same(parts[1].as_str(), "AGENTS.md");
        proof {
            let named = texts(parts@);
            assert(named =~= seq![named[0], named[1]]);
            assert(seq!["src"@, "main.rs"@][1] == "main.rs"@);
            assert(seq!["src"@, "AGENTS.md"@][1] == "AGENTS.md"@);
        }
        return !guarded;
    }
    assert(seq!["src"@, "main.rs"@].len() == 2);
    assert(seq!["src"@, "AGENTS.md"@].len() == 2);
    true
}

/// A file that lies in `src/` itself may be deleted just where it is not one of the two that are
/// protected.
pub proof fn law_sources_are_deletable(name: Seq<char>)
    requires
        name.len() > 0,
        !name.contains('/'),
        name != "."@,
        name != ".."@,
    ensures
        deletable("src/"@ + name) <==> name != "main.rs"@ && name != "AGENTS.md"@,
{
    let path = "src/"@ + name;
    reveal_strlit("/");
    reveal_strlit("src/");
    reveal_strlit("src");
    reveal_strlit(".");
    reveal_strlit("..");
    assert("/"@ =~= seq!['/']);
    assert(path =~= "src"@ + "/"@ + name);
    lemma_contains("src"@, "/"@);
    assert forall|i: int| !occurs_at("src"@, "/"@, i) by {
        if occurs_at("src"@, "/"@, i) {
            assert("src"@.subrange(i, i + 1)[0] == '/');
        }
    }
    lemma_cut_first("src"@, "/"@, name);
    lemma_contains(name, "/"@);
    assert forall|i: int| !occurs_at(name, "/"@, i) by {
        if occurs_at(name, "/"@, i) {
            assert(name.subrange(i, i + 1)[0] == '/');
            assert(name[i] == '/');
        }
    }
    assert(cut(name, "/"@) is None);
    assert(steps(name) == seq![name]);
    assert(kept_step("src"@) == seq!["src"@]);
    assert(steps(path) =~= seq!["src"@, name]);
    assert(path[0] == 's');
    assert(!begins(path, "/"@)) by {
        if begins(path, "/"@) {
            assert(path.take(1)[0] == '/');
        }
    }
    assert(!steps(path).contains(".."@)) by {
        assert("src"@.len() == 3 && ".."@.len() == 2);
    }
    assert(seq!["src"@, "main.rs"@][1] == "main.rs"@);
    assert(seq!["src"@, "AGENTS.md"@][1] == "AGENTS.md"@);
}

/// What lies under `src/` and is no backup may be rewritten while the agent evolves, and so may
/// the two documents; nothing else.
pub proof fn law_what_may_evolve(rest: Seq<char>, path: Seq<char>, guide: Seq<char>)
    requires
        !begins(path, "src/"@),
        path != guide,
        path != "README.md"@,
        "src/"@ + rest != guide,
    ensures
        evolvable("src/"@ + rest, guide) <==> !ends("src/"@ + rest, ".bak"@),
        evolvable(guide, guide),
        evolvable("README.md"@, guide),
        !evolvable(path, guide),
{
    reveal_strlit("src/");
    reveal_strlit("README.md");
    assert(("src/"@ + rest).take(4) =~= "src/"@);
    assert(("src/"@ + rest)[0] == 's' && "README.md"@[0] == 'R');
}

/// The folder of a session lies among those of the sessions, and its log lies in it.
pub proof fn law_sessions_lie_together(name: Seq<char>)
    ensures
        session_path(name) == ".evo/sessions"@ + "/"@ + name,
        log_path(name) == ".evo/sessions"@ + "/"@ + name + "/traj.jsonl"@,
        prompt_path(name) == "src/prompts/"@ + name,
{
}

/// The folders that a path goes through are those before a slash and those behind it.
pub proof fn law_steps_follow_the_slashes(part: Seq<char>, rest: Seq<char>)
    requires
        !part.contains('/'),
    ensures
        steps(part + "/"@ + rest) == steps(part) + steps(rest),
        steps(part) == if part.len() == 0 || part == "."@ {
            Seq::<Seq<char>>::empty()
        } else {
            seq![part]
        },
{
    reveal_strlit("/");
    lemma_contains(part, "/"@);
    assert forall|i: int| !occurs_at(part, "/"@, i) by {
        if occurs_at(part, "/"@, i) {
            assert(part.subrange(i, i + 1)[0] == '/');
            assert(part[i] == '/');
        }
    }
    lemma_cut_first(part, "/"@, rest);
}

/// Nothing may be deleted outside `src/`, by an absolute path or by one that climbs up, and
/// neither the agent's own source nor the project's rules, however their paths are written.
pub proof fn law_deletion_stays_inside(path: Seq<char>)
    ensures
        begins(path, "/"@) ==> !deletable(path),
        steps(path).contains(".."@) ==> !deletable(path),
        steps(path).len() < 2 || steps(path)[0] != "src"@ ==> !deletable(path),
        steps(path) == seq!["src"@, "main.rs"@] ==> !deletable(path),
        steps(path) == seq!["src"@, "AGENTS.md"@] ==> !deletable(path),
        !begins(path, "/"@) && steps(path).len() >= 2 && steps(path)[0] == "src"@ && !steps(
            path,
        ).contains(".."@) && steps(path) != seq!["src"@, "main.rs"@] && steps(path) != seq![
            "src"@,
            "AGENTS.md"@,
        ] ==> deletable(path),
{
}

/// The name of a file is what follows the last slash of its path, and slashes at the end do not
/// count.
pub proof fn law_file_name(folder: Seq<char>, name: Seq<char>)
    requires
        name.len() > 0,
        !name.contains('/'),
        name != seq!['.'],
        name != seq!['.', '.'],
    ensures
        file_name(name) == Some(name),
        file_name(folder + seq!['/'] + name) == Some(name),
        file_name(folder + seq!['/'] + name + seq!['/']) == Some(name),
{
    lemma_no_cut_last_char(name, '/');
    lemma_cut_last_char(folder, '/', name);
    let path = folder + seq!['/'] + name;
    lemma_cut_last_char(path, '/', seq![]);
    assert(path + seq!['/'] + seq![] =~= path + seq!['/']);
    lemma_find_upto(path + seq!['/'], seq!['/'], (path + seq!['/']).len() as int);
    assert(file_name(path) == Some(name));
}

/// The extension of a file is what follows the last dot of its name, unless that dot begins the
/// name.
pub proof fn law_extension(base: Seq<char>, ext: Seq<char>)
    requires
        base.len() > 0,
        !base.contains('/'),
        !ext.contains('/'),
        !ext.contains('.'),
        base + seq!['.'] + ext != seq!['.', '.'],
    ensures
        extension(base + seq!['.'] + ext) == Some(ext),
        !base.contains('.') ==> extension(base) is None,
        ext.len() > 0 ==> extension(seq!['.'] + ext) is None,
{
    let name = base + seq!['.'] + ext;
    assert(name.len() > 1);
    assert(!name.contains('/')) by {
        assert forall|i: int| 0 <= i < name.len() implies name[i] != '/' by {
            if i < base.len() {
                assert(name[i] == base[i]);
            } else if i > base.len() {
                assert(name[i] == ext[i - base.len() - 1]);
            }
        }
    }
    law_file_name(seq![], name);
    lemma_cut_last_char(base, '.', ext);
    if !base.contains('.') {
        assert(base != seq!['.']) by {
            if base == seq!['.'] {
                assert(base[0] == '.');
            }
        }
        assert(base != seq!['.', '.']) by {
            if base == seq!['.', '.'] {
                assert(base[0] == '.');
            }
        }
        law_file_name(seq![], base);
        lemma_no_cut_last_char(base, '.');
    }
    if ext.len() > 0 {
        let hidden = seq!['.'] + ext;
        assert(!hidden.contains('/')) by {
            assert forall|i: int| 0 <= i < hidden.len() implies hidden[i] != '/' by {
                if i > 0 {
                    assert(hidden[i] == ext[i - 1]);
                }
            }
        }
        assert(hidden != seq!['.', '.']) by {
            if hidden == seq!['.', '.'] {
                assert(hidden[1] == ext[0]);
            }
        }
        assert(hidden.len() > 1);
        law_file_name(seq![], hidden);
        lemma_cut_last_char(seq![], '.', ext);
        assert(Seq::<char>::empty() + seq!['.'] + ext =~= hidden);
    }
}

/// A file without an extension is backed up beside itself, as its path, the time and `bak`.
pub proof fn law_backup_without_extension(path: Seq<char>, ts: nat)
    requires
        extension(path) is None,
    ensures
        stem(path) == Some(path),
        backup_name(path, ts) == path + "."@ + decimal(ts) + ".bak"@,
{
}

/// A single dot at the end of a path does not count either, and a path that is empty, a single
/// dot, or ends in two dots leads to no file that it names.
pub proof fn law_dots_are_no_names(folder: Seq<char>, name: Seq<char>)
    requires
        name.len() > 0,
        !name.contains('/'),
        name != seq!['.'],
        name != seq!['.', '.'],
    ensures
        file_name(folder + seq!['/'] + name + seq!['/'] + seq!['.']) == Some(name),
        file_name(folder + seq!['/'] + seq!['.', '.']) is None,
        file_name(Seq::<char>::empty()) is None,
        file_name(seq!['.']) is None,
        file_name(seq!['.', '.']) is None,
{
    law_file_name(folder, name);
    let path = folder + seq!['/'] + name;
    assert(!seq!['.'].contains('/'));
    assert(!seq!['.', '.'].contains('/'));
    assert(!Seq::<char>::empty().contains('/'));
    lemma_cut_last_char(path, '/', seq!['.']);
    lemma_cut_last_char(folder, '/', seq!['.', '.']);
    lemma_no_cut_last_char(seq![], '/');
    lemma_no_cut_last_char(seq!['.'], '/');
    lemma_no_cut_last_char(seq!['.', '.'], '/');
    assert(file_name(path + seq!['/'] + seq!['.']) == file_name(path));
    assert(seq!['.', '.'].len() == 2 && seq!['.'].len() == 1);
}

} // verus!
