//! Text as a sequence of characters: searching, trimming, splitting, joining.

use vstd::prelude::*;
use vstd::string::*;
use vstd::utf8::is_ascii_chars;

verus! {

broadcast use vstd::seq::group_seq_axioms;

/// The characters with Unicode's `White_Space` property.
pub open spec fn white(c: char) -> bool {
    ||| '\u{9}' <= c <= '\u{d}'
    ||| c == ' '
    ||| c == '\u{85}'
    ||| c == '\u{a0}'
    ||| c == '\u{1680}'
    ||| '\u{2000}' <= c <= '\u{200a}'
    ||| c == '\u{2028}'
    ||| c == '\u{2029}'
    ||| c == '\u{202f}'
    ||| c == '\u{205f}'
    ||| c == '\u{3000}'
}

/// `s` without the white space at its start.
pub open spec fn trimmed_start(s: Seq<char>) -> Seq<char>
    decreases s.len(),
{
    if s.len() > 0 && white(s[0]) {
        trimmed_start(s.skip(1))
    } else {
        s
    }
}

/// `s` without the white space at its end.
pub open spec fn trimmed_end(s: Seq<char>) -> Seq<char>
    decreases s.len(),
{
    if s.len() > 0 && white(s.last()) {
        trimmed_end(s.drop_last())
    } else {
        s
    }
}

/// `s` without the white space at both ends.
pub open spec fn trimmed(s: Seq<char>) -> Seq<char> {
    trimmed_end(trimmed_start(s))
}

/// `p` stands in `s` at position `i`.
pub open spec fn occurs_at(s: Seq<char>, p: Seq<char>, i: int) -> bool {
    0 <= i && i + p.len() <= s.len() && s.subrange(i, i + p.len()) == p
}

/// The first position from `i` on at which `p` stands in `s`.
pub open spec fn find_from(s: Seq<char>, p: Seq<char>, i: int) -> Option<int>
    decreases s.len() - i + 1,
{
    if i < 0 || i + p.len() > s.len() {
        None
    } else if occurs_at(s, p, i) {
        Some(i)
    } else {
        find_from(s, p, i + 1)
    }
}

/// The first position at which `p` stands in `s`.
pub open spec fn found(s: Seq<char>, p: Seq<char>) -> Option<int> {
    find_from(s, p, 0)
}

/// The last position up to `i` at which `p` stands in `s`.
pub open spec fn find_upto(s: Seq<char>, p: Seq<char>, i: int) -> Option<int>
    decreases i + 1,
{
    if i < 0 {
        None
    } else if occurs_at(s, p, i) {
        Some(i)
    } else {
        find_upto(s, p, i - 1)
    }
}

/// `p` stands somewhere in `s`.
pub open spec fn contains(s: Seq<char>, p: Seq<char>) -> bool {
    found(s, p) is Some
}

/// `s` begins with `p`.
pub open spec fn begins(s: Seq<char>, p: Seq<char>) -> bool {
    p.len() <= s.len() && s.take(p.len() as int) == p
}

/// `s` ends with `p`.
pub open spec fn ends(s: Seq<char>, p: Seq<char>) -> bool {
    p.len() <= s.len() && s.skip(s.len() - p.len()) == p
}

/// What stands before the first `p` in `s`, and what stands after it.
pub open spec fn cut(s: Seq<char>, p: Seq<char>) -> Option<(Seq<char>, Seq<char>)> {
    match found(s, p) {
        Some(i) => Some((s.take(i), s.skip(i + p.len()))),
        None => None,
    }
}

/// What stands before the last `p` in `s`, and what stands after it.
pub open spec fn cut_last(s: Seq<char>, p: Seq<char>) -> Option<(Seq<char>, Seq<char>)> {
    match find_upto(s, p, s.len() as int) {
        Some(i) => Some((s.take(i), s.skip(i + p.len()))),
        None => None,
    }
}

/// `s` without any `p` at its end, however often it is repeated there.
pub open spec fn without_tail(s: Seq<char>, p: Seq<char>) -> Seq<char>
    decreases s.len(),
{
    if p.len() > 0 && ends(s, p) {
        without_tail(s.take(s.len() - p.len()), p)
    } else {
        s
    }
}

/// The first `n` characters of `s`, or all of them.
pub open spec fn head(s: Seq<char>, n: int) -> Seq<char> {
    if s.len() <= n {
        s
    } else {
        s.take(n)
    }
}

/// The last `n` characters of `s`, or all of them.
pub open spec fn tail(s: Seq<char>, n: int) -> Seq<char> {
    if s.len() <= n {
        s
    } else {
        s.skip(s.len() - n)
    }
}

/// A line that a line feed ends, without the carriage return before it.
pub open spec fn without_return(s: Seq<char>) -> Seq<char> {
    if s.len() > 0 && s.last() == '\r' {
        s.drop_last()
    } else {
        s
    }
}

/// The lines of `s`: a line feed ends a line, and the last line may lack it.
pub open spec fn lines(s: Seq<char>) -> Seq<Seq<char>>
    decreases s.len(),
{
    if s.len() == 0 {
        seq![]
    } else {
        match found(s, seq!['\n']) {
            Some(i) => {
                proof {
                    lemma_found(s, seq!['\n']);
                }
                seq![without_return(s.take(i))] + lines(s.skip(i + 1))
            },
            None => seq![s],
        }
    }
}

/// The first line of `s`, empty where there is none.
pub open spec fn first_line(s: Seq<char>) -> Seq<char> {
    if lines(s).len() > 0 {
        lines(s)[0]
    } else {
        seq![]
    }
}

/// `parts` with `sep` between each and the next.
pub open spec fn joined(parts: Seq<Seq<char>>, sep: Seq<char>) -> Seq<char>
    decreases parts.len(),
{
    if parts.len() == 0 {
        seq![]
    } else if parts.len() == 1 {
        parts[0]
    } else {
        joined(parts.drop_last(), sep) + sep + parts.last()
    }
}

/// What the strings of a vector hold.
pub open spec fn texts(v: Seq<String>) -> Seq<Seq<char>> {
    Seq::new(v.len(), |i: int| v[i]@)
}

/// A position that `find_from` gives is the first one.
pub proof fn lemma_find_from(s: Seq<char>, p: Seq<char>, i: int)
    requires
        0 <= i,
    ensures
        match find_from(s, p, i) {
            Some(k) => i <= k && occurs_at(s, p, k) && forall|j: int|
                i <= j < k ==> !occurs_at(s, p, j),
            None => forall|j: int| i <= j ==> !occurs_at(s, p, j),
        },
    decreases s.len() - i + 1,
{
    if i + p.len() <= s.len() && !occurs_at(s, p, i) {
        lemma_find_from(s, p, i + 1);
    }
}

/// `found` gives the first position at which `p` stands in `s`, if there is one.
pub proof fn lemma_found(s: Seq<char>, p: Seq<char>)
    ensures
        match found(s, p) {
            Some(k) => occurs_at(s, p, k) && forall|j: int| 0 <= j < k ==> !occurs_at(s, p, j),
            None => forall|j: int| !occurs_at(s, p, j),
        },
{
    lemma_find_from(s, p, 0);
}

/// `find_upto` gives the last position at which `p` stands in `s`, if there is one.
pub proof fn lemma_find_upto(s: Seq<char>, p: Seq<char>, i: int)
    ensures
        match find_upto(s, p, i) {
            Some(k) => k <= i && occurs_at(s, p, k) && forall|j: int|
                k < j <= i ==> !occurs_at(s, p, j),
            None => forall|j: int| j <= i ==> !occurs_at(s, p, j),
        },
    decreases i + 1,
{
    if i >= 0 && !occurs_at(s, p, i) {
        lemma_find_upto(s, p, i - 1);
    }
}

/// A text contains a pattern just when the pattern stands at some position of it.
pub proof fn lemma_contains(s: Seq<char>, p: Seq<char>)
    ensures
        contains(s, p) <==> exists|i: int| occurs_at(s, p, i),
{
    lemma_found(s, p);
}

/// A one-character pattern stands where that character is.
pub proof fn lemma_occurs_char(s: Seq<char>, c: char, i: int)
    ensures
        occurs_at(s, seq![c], i) <==> 0 <= i < s.len() && s[i] == c,
{
    if 0 <= i < s.len() {
        let p = seq![c];
        assert(p.len() == 1);
        assert(s.subrange(i, i + 1).len() == 1);
        assert(s.subrange(i, i + 1)[0] == s[i]);
        if s[i] == c {
            assert(s.subrange(i, i + 1) =~= p);
        } else {
            assert(p[0] == c);
        }
    }
}

/// The first position of a character: it stands there and nowhere before.
pub proof fn lemma_found_char(s: Seq<char>, c: char, i: int)
    requires
        0 <= i <= s.len(),
        forall|j: int| 0 <= j < i ==> s[j] != c,
    ensures
        i < s.len() && s[i] == c ==> found(s, seq![c]) == Some(i),
        i == s.len() ==> found(s, seq![c]) is None,
{
    let p = seq![c];
    lemma_found(s, p);
    assert forall|j: int| #[trigger] occurs_at(s, p, j) <==> 0 <= j < s.len() && s[j] == c by {
        lemma_occurs_char(s, c, j);
    }
    assert(i < s.len() && s[i] == c ==> occurs_at(s, p, i));
}

/// The last position of a character: it stands there and nowhere behind.
pub proof fn lemma_last_char(s: Seq<char>, c: char, k: int)
    requires
        0 <= k < s.len(),
        s[k] == c,
        forall|j: int| k < j < s.len() ==> s[j] != c,
    ensures
        find_upto(s, seq![c], s.len() as int) == Some(k),
{
    let p = seq![c];
    lemma_find_upto(s, p, s.len() as int);
    lemma_occurs_char(s, c, k);
    match find_upto(s, p, s.len() as int) {
        Some(i) => {
            lemma_occurs_char(s, c, i);
        },
        None => {},
    }
}

/// A text is cut at the last place where a character stands.
pub proof fn lemma_cut_last_char(a: Seq<char>, c: char, b: Seq<char>)
    requires
        !b.contains(c),
    ensures
        cut_last(a + seq![c] + b, seq![c]) == Some((a, b)),
{
    let s = a + seq![c] + b;
    let k = a.len() as int;
    assert forall|j: int| k < j < s.len() implies s[j] != c by {
        assert(s[j] == b[j - k - 1]);
    }
    lemma_last_char(s, c, k);
    assert(s.take(k) =~= a);
    assert(s.skip(k + 1) =~= b);
}

/// A text is cut nowhere when the character stands nowhere in it.
pub proof fn lemma_no_cut_last_char(s: Seq<char>, c: char)
    requires
        !s.contains(c),
    ensures
        cut_last(s, seq![c]) is None,
{
    lemma_find_upto(s, seq![c], s.len() as int);
    assert forall|j: int| !occurs_at(s, seq![c], j) by {
        lemma_occurs_char(s, c, j);
    }
}

/// A text is cut at the first place where a pattern stands. The pattern begins with a character
/// that it does not repeat.
pub proof fn lemma_cut_first(a: Seq<char>, p: Seq<char>, b: Seq<char>)
    requires
        p.len() > 0,
        forall|i: int| 0 < i < p.len() ==> #[trigger] p[i] != p[0],
        !contains(a, p),
    ensures
        cut(a + p + b, p) == Some((a, b)),
{
    let s = a + p + b;
    let k = a.len() as int;
    lemma_found(s, p);
    lemma_contains(a, p);
    assert(s.subrange(k, k + p.len()) =~= p);
    assert(occurs_at(s, p, k));
    assert forall|j: int| 0 <= j < k implies !occurs_at(s, p, j) by {
        if occurs_at(s, p, j) {
            if j + p.len() <= k {
                assert(a.subrange(j, j + p.len()) =~= s.subrange(j, j + p.len()));
                assert(occurs_at(a, p, j));
            } else {
                assert(s.subrange(j, j + p.len())[k - j] == s[k]);
                assert(s[k] == p[0]);
            }
        }
    }
    assert(s.take(k) =~= a);
    assert(s.skip(k + p.len()) =~= b);
}

/// Adding a string to a vector adds its text.
pub proof fn lemma_texts_push(v: Seq<String>, s: String)
    ensures
        texts(v.push(s)) == texts(v).push(s@),
{
    assert(texts(v.push(s)) =~= texts(v).push(s@));
}

/// `String::push` adds one character at the end.
pub assume_specification[ String::push ](s: &mut String, c: char)
    ensures
        final(s)@ == old(s)@.push(c),
;

/// What `str::to_uppercase` makes of a text.
pub uninterp spec fn uppercased(s: Seq<char>) -> Seq<char>;

/// A text of ASCII characters with its small letters made capital.
pub open spec fn ascii_upper(s: Seq<char>) -> Seq<char> {
    s.map_values(
        |c: char|
            if 'a' <= c <= 'z' {
                (c as u32 - 32) as char
            } else {
                c
            },
    )
}

/// What a reply says first, whatever its case and the white space round it.
pub open spec fn says(reply: Seq<char>, word: Seq<char>) -> bool {
    begins(uppercased(trimmed(reply)), word)
}

/// Calls `str::to_uppercase`. What comes out is named by `uppercased`, and depends on the text
/// alone; of a text of ASCII characters it is the text with its letters made capital.
#[verifier::external_body]
fn to_uppercase(s: &str) -> (r: String)
    ensures
        r@ == uppercased(s@),
        is_ascii_chars(s@) ==> r@ == ascii_upper(s@),
{
    s.to_uppercase()
}

/// Tells whether a reply begins with `word`, which is in capitals, whatever the reply's case and
/// the white space round it.
pub fn reply_says(reply: &str, word: &str) -> (r: bool)
    ensures
        r == says(reply@, word@),
        is_ascii_chars(trimmed(reply@)) ==> r == begins(ascii_upper(trimmed(reply@)), word@),
{
    starts_with(to_uppercase(trim(reply)).as_str(), word)
}

/// Tells whether `c` is white space.
pub fn is_white(c: char) -> (r: bool)
    ensures
        r == white(c),
{
    ('\u{9}' <= c && c <= '\u{d}') || c == ' ' || c == '\u{85}' || c == '\u{a0}' || c == '\u{1680}'
        || ('\u{2000}' <= c && c <= '\u{200a}') || c == '\u{2028}' || c == '\u{2029}' || c
        == '\u{202f}' || c == '\u{205f}' || c == '\u{3000}'
}

/// The characters of `s`, in order.
pub fn chars_of(s: &str) -> (r: Vec<char>)
    ensures
        r@ == s@,
{
    let mut r: Vec<char> = Vec::new();
    for c in it: s.chars()
        invariant
            r@ == s@.take(it.index()),
            it.seq() == s@,
    {
        r.push(c);
        assert(s@.take(it.index()).push(c) =~= s@.take(it.index() + 1));
    }
    assert(s@.take(s@.len() as int) =~= s@);
    r
}

/// Tells whether two texts are equal.
pub fn same(a: &str, b: &str) -> (r: bool)
    ensures
        r == (a@ == b@),
{
    a.to_owned() == b.to_owned()
}

/// `s` without the white space at both ends.
pub fn trim<'a>(s: &'a str) -> (r: &'a str)
    ensures
        r@ == trimmed(s@),
{
    let chars = chars_of(s);
    let mut start: usize = 0;
    assert(s@.skip(0) =~= s@);
    while start < chars.len() && is_white(chars[start])
        invariant
            start <= chars.len(),
            chars@ == s@,
            trimmed_start(s@.skip(start as int)) == trimmed_start(s@),
        decreases chars.len() - start,
    {
        assert(s@.skip(start as int).skip(1) =~= s@.skip(start + 1));
        start = start + 1;
    }
    let ghost front = s@.skip(start as int);
    assert(front == trimmed_start(s@));
    let mut end: usize = chars.len();
    assert(s@.subrange(start as int, end as int) =~= front);
    while end > start && is_white(chars[end - 1])
        invariant
            start <= end <= chars.len(),
            chars@ == s@,
            trimmed_end(s@.subrange(start as int, end as int)) == trimmed_end(front),
        decreases end,
    {
        assert(s@.subrange(start as int, end as int).drop_last() =~= s@.subrange(
            start as int,
            end - 1,
        ));
        end = end - 1;
    }
    s.substring_char(start, end)
}

/// Tells whether `p` stands in `s` at position `i`.
fn stands_at(s: &Vec<char>, p: &Vec<char>, i: usize) -> (r: bool)
    requires
        i + p.len() <= s.len(),
    ensures
        r == occurs_at(s@, p@, i as int),
{
    let mut k: usize = 0;
    while k < p.len()
        invariant
            k <= p.len(),
            i + p.len() <= s.len(),
            forall|j: int| 0 <= j < k ==> s@[i + j] == p@[j],
        decreases p.len() - k,
    {
        if s[i + k] != p[k] {
            assert(s@.subrange(i as int, i + p@.len())[k as int] != p@[k as int]);
            return false;
        }
        k = k + 1;
    }
    assert(s@.subrange(i as int, i + p@.len()) =~= p@);
    true
}

/// The first position at which `p` stands in `s`.
pub fn find(s: &str, p: &str) -> (r: Option<usize>)
    ensures
        match r {
            Some(i) => found(s@, p@) == Some(i as int) && i + p@.len() <= s@.len(),
            None => found(s@, p@) is None,
        },
{
    let sc = chars_of(s);
    let pc = chars_of(p);
    if pc.len() > sc.len() {
        return None;
    }
    let last: usize = sc.len() - pc.len();
    let mut i: usize = 0;
    while i <= last
        invariant
            last + pc.len() == sc.len(),
            i <= last + 1,
            sc@ == s@,
            pc@ == p@,
            found(s@, p@) == find_from(s@, p@, i as int),
        decreases last + 1 - i,
    {
        if stands_at(&sc, &pc, i) {
            return Some(i);
        }
        if i == last {
            assert(find_from(s@, p@, i + 1) is None);
            return None;
        }
        i = i + 1;
    }
    None
}

/// The last position at which `p` stands in `s`.
pub fn find_last(s: &str, p: &str) -> (r: Option<usize>)
    ensures
        match r {
            Some(i) => find_upto(s@, p@, s@.len() as int) == Some(i as int) && i + p@.len()
                <= s@.len(),
            None => find_upto(s@, p@, s@.len() as int) is None,
        },
{
    let sc = chars_of(s);
    let pc = chars_of(p);
    proof {
        lemma_find_upto(s@, p@, s@.len() as int);
    }
    if pc.len() > sc.len() {
        return None;
    }
    let mut i: usize = sc.len() - pc.len();
    loop
        invariant
            i + pc.len() <= sc.len(),
            sc@ == s@,
            pc@ == p@,
            forall|j: int| i < j ==> !occurs_at(s@, p@, j),
        decreases i,
    {
        if stands_at(&sc, &pc, i) {
            proof {
                lemma_find_upto(s@, p@, s@.len() as int);
            }
            return Some(i);
        }
        if i == 0 {
            proof {
                lemma_find_upto(s@, p@, s@.len() as int);
            }
            return None;
        }
        i = i - 1;
    }
}

/// Tells whether `p` stands somewhere in `s`.
pub fn has(s: &str, p: &str) -> (r: bool)
    ensures
        r == contains(s@, p@),
{
    find(s, p).is_some()
}

/// Tells whether `s` begins with `p`.
pub fn starts_with(s: &str, p: &str) -> (r: bool)
    ensures
        r == begins(s@, p@),
{
    let sc = chars_of(s);
    let pc = chars_of(p);
    assert(pc.len() <= sc.len() ==> s@.subrange(0, 0 + p@.len() as int) =~= s@.take(p@.len() as int));
    pc.len() <= sc.len() && stands_at(&sc, &pc, 0)
}

/// Tells whether `s` ends with `p`.
pub fn ends_with(s: &str, p: &str) -> (r: bool)
    ensures
        r == ends(s@, p@),
{
    let sc = chars_of(s);
    let pc = chars_of(p);
    if pc.len() > sc.len() {
        return false;
    }
    let at: usize = sc.len() - pc.len();
    assert(s@.subrange(at as int, at + p@.len()) =~= s@.skip(at as int));
    stands_at(&sc, &pc, at)
}

/// Splits `s` round the first `p`.
pub fn split_once<'a>(s: &'a str, p: &str) -> (r: Option<(&'a str, &'a str)>)
    ensures
        match r {
            Some((a, b)) => cut(s@, p@) == Some((a@, b@)),
            None => cut(s@, p@) is None,
        },
{
    match find(s, p) {
        Some(i) => {
            let n = s.unicode_len();
            let k = p.unicode_len();
            let a = s.substring_char(0, i);
            let b = s.substring_char(i + k, n);
            assert(a@ =~= s@.take(i as int));
            assert(b@ =~= s@.skip(i + k));
            Some((a, b))
        },
        None => None,
    }
}

/// Splits `s` round the last `p`.
pub fn split_last<'a>(s: &'a str, p: &str) -> (r: Option<(&'a str, &'a str)>)
    ensures
        match r {
            Some((a, b)) => cut_last(s@, p@) == Some((a@, b@)),
            None => cut_last(s@, p@) is None,
        },
{
    match find_last(s, p) {
        Some(i) => {
            let n = s.unicode_len();
            let k = p.unicode_len();
            let a = s.substring_char(0, i);
            let b = s.substring_char(i + k, n);
            assert(a@ =~= s@.take(i as int));
            assert(b@ =~= s@.skip(i + k));
            Some((a, b))
        },
        None => None,
    }
}

/// `s` without any `p` at its end, however often it is repeated there.
pub fn trim_end_matches<'a>(s: &'a str, p: &str) -> (r: &'a str)
    requires
        p@.len() > 0,
    ensures
        r@ == without_tail(s@, p@),
{
    let sc = chars_of(s);
    let pc = chars_of(p);
    let mut end: usize = sc.len();
    assert(s@.take(end as int) =~= s@);
    while end >= pc.len() && stands_at(&sc, &pc, end - pc.len())
        invariant
            end <= sc.len(),
            sc@ == s@,
            pc@ == p@,
            p@.len() > 0,
            without_tail(s@.take(end as int), p@) == without_tail(s@, p@),
        decreases end,
    {
        let ghost now = s@.take(end as int);
        let ghost at = end - p@.len();
        assert(now.skip(now.len() - p@.len()) =~= s@.subrange(at, at + p@.len()));
        assert(now.take(now.len() - p@.len()) =~= s@.take(at));
        end = end - pc.len();
    }
    proof {
        let now = s@.take(end as int);
        if ends(now, p@) {
            assert(now.skip(now.len() - p@.len()) =~= s@.subrange(
                end - p@.len(),
                end - p@.len() + p@.len(),
            ));
        }
    }
    let r = s.substring_char(0, end);
    assert(r@ =~= s@.take(end as int));
    r
}

/// The first `n` characters of `s`, or all of them.
pub fn first_chars<'a>(s: &'a str, n: usize) -> (r: &'a str)
    ensures
        r@ == head(s@, n as int),
{
    let total = s.unicode_len();
    if total <= n {
        s
    } else {
        let r = s.substring_char(0, n);
        assert(r@ =~= s@.take(n as int));
        r
    }
}

/// The last `n` characters of `s`, or all of them.
pub fn last_chars<'a>(s: &'a str, n: usize) -> (r: &'a str)
    ensures
        r@ == tail(s@, n as int),
{
    let total = s.unicode_len();
    if total <= n {
        s
    } else {
        let r = s.substring_char(total - n, total);
        assert(r@ =~= s@.skip(s@.len() - n));
        r
    }
}

/// The characters of `s` from `start` up to `end`.
pub fn slice<'a>(s: &'a str, start: usize, end: usize) -> (r: &'a str)
    requires
        start <= end <= s@.len(),
    ensures
        r@ == s@.subrange(start as int, end as int),
{
    s.substring_char(start, end)
}

/// The lines of `s`.
pub fn lines_of(s: &str) -> (r: Vec<String>)
    ensures
        texts(r@) == lines(s@),
{
    let chars = chars_of(s);
    let mut r: Vec<String> = Vec::new();
    let mut start: usize = 0;
    assert(s@.skip(0) =~= s@);
    assert(texts(r@) + lines(s@) =~= lines(s@));
    while start < chars.len()
        invariant
            start <= chars.len(),
            chars@ == s@,
            texts(r@) + lines(s@.skip(start as int)) == lines(s@),
        decreases chars.len() - start,
    {
        let ghost rest = s@.skip(start as int);
        let mut line = String::new();
        let mut i: usize = start;
        assert(rest.take(0) =~= line@);
        while i < chars.len() && chars[i] != '\n'
            invariant
                start <= i <= chars.len(),
                chars@ == s@,
                rest == s@.skip(start as int),
                line@ == rest.take(i - start),
                forall|j: int| 0 <= j < i - start ==> rest[j] != '\n',
            decreases chars.len() - i,
        {
            line.push(chars[i]);
            assert(rest.take(i - start).push(rest[i - start]) =~= rest.take(i - start + 1));
            i = i + 1;
        }
        proof {
            lemma_found_char(rest, '\n', i - start);
        }
        let ghost before = texts(r@);
        if i == chars.len() {
            assert(rest.take(i - start) =~= rest);
            assert(before + seq![line@] =~= before.push(line@));
            proof {
                lemma_texts_push(r@, line);
            }
            r.push(line);
            return r;
        }
        let line = drop_return(line.as_str()).to_owned();
        assert(rest.skip(i - start + 1) =~= s@.skip(i + 1));
        assert(before + (seq![line@] + lines(s@.skip(i + 1))) =~= before.push(line@) + lines(
            s@.skip(i + 1),
        ));
        proof {
            lemma_texts_push(r@, line);
        }
        r.push(line);
        start = i + 1;
    }
    assert(s@.skip(start as int).len() == 0);
    assert(texts(r@) + lines(s@.skip(start as int)) =~= texts(r@));
    r
}

/// `line` without a carriage return at its end.
pub fn drop_return<'a>(line: &'a str) -> (r: &'a str)
    ensures
        r@ == without_return(line@),
{
    let n = line.unicode_len();
    if n > 0 && line.get_char(n - 1) == '\r' {
        let r = line.substring_char(0, n - 1);
        assert(r@ =~= line@.drop_last());
        r
    } else {
        line
    }
}

/// The first line of `s`, empty where there is none.
pub fn line_one(s: &str) -> (r: String)
    ensures
        r@ == first_line(s@),
{
    let all = lines_of(s);
    if all.len() > 0 {
        all[0].clone()
    } else {
        String::new()
    }
}

/// `parts` with `sep` between each and the next.
pub fn join(parts: &Vec<String>, sep: &str) -> (r: String)
    ensures
        r@ == joined(texts(parts@), sep@),
{
    let mut r = String::new();
    let mut i: usize = 0;
    let ghost all = texts(parts@);
    assert(r@ =~= joined(all.take(0), sep@));
    while i < parts.len()
        invariant
            i <= parts.len(),
            all == texts(parts@),
            r@ == joined(all.take(i as int), sep@),
        decreases parts.len() - i,
    {
        assert(all.take(i + 1).drop_last() =~= all.take(i as int));
        if i > 0 {
            r.append(sep);
            r.append(parts[i].as_str());
        } else {
            r = parts[i].clone();
        }
        i = i + 1;
    }
    assert(all.take(i as int) =~= all);
    r
}

/// White space is the tab, the line feed, the vertical tab, the form feed, the carriage return,
/// the space, the next line, the no-break space, the ogham space mark, the spaces from the en quad
/// to the hair space, the line and the paragraph separator, the narrow no-break space, the
/// mathematical space and the ideographic space.
pub proof fn law_white_space(c: char)
    ensures
        white(c) <==> {
            let n = c as u32;
            9 <= n <= 13 || n == 32 || n == 133 || n == 160 || n == 5760 || 8192 <= n <= 8202 || n
                == 8232 || n == 8233 || n == 8239 || n == 8287 || n == 12288
        },
{
}

/// All of `s` is white space.
pub open spec fn blank(s: Seq<char>) -> bool {
    forall|i: int| 0 <= i < s.len() ==> white(#[trigger] s[i])
}

proof fn lemma_trimmed_start(s: Seq<char>)
    ensures
        exists|i: int|
            0 <= i <= s.len() && trimmed_start(s) == #[trigger] s.skip(i) && blank(s.take(i)),
        trimmed_start(s).len() > 0 ==> !white(trimmed_start(s)[0]),
    decreases s.len(),
{
    if s.len() > 0 && white(s[0]) {
        let rest = s.skip(1);
        lemma_trimmed_start(rest);
        let i = choose|i: int|
            0 <= i <= rest.len() && trimmed_start(rest) == #[trigger] rest.skip(i) && blank(
                rest.take(i),
            );
        assert(rest.skip(i) =~= s.skip(i + 1));
        assert forall|j: int| 0 <= j < i + 1 implies white(#[trigger] s.take(i + 1)[j]) by {
            if j > 0 {
                assert(white(rest.take(i)[j - 1]));
            }
        }
        assert(blank(s.take(i + 1)));
    } else {
        assert(s.skip(0) =~= s);
        assert(blank(s.take(0)));
    }
}

proof fn lemma_trimmed_end(s: Seq<char>)
    ensures
        exists|j: int|
            0 <= j <= s.len() && trimmed_end(s) == #[trigger] s.take(j) && blank(s.skip(j)),
        trimmed_end(s).len() > 0 ==> !white(trimmed_end(s).last()),
    decreases s.len(),
{
    if s.len() > 0 && white(s.last()) {
        let front = s.drop_last();
        lemma_trimmed_end(front);
        let j = choose|j: int|
            0 <= j <= front.len() && trimmed_end(front) == #[trigger] front.take(j) && blank(
                front.skip(j),
            );
        assert(front.take(j) =~= s.take(j));
        assert forall|k: int| 0 <= k < s.len() - j implies white(#[trigger] s.skip(j)[k]) by {
            if k < front.len() - j {
                assert(white(front.skip(j)[k]));
            }
        }
        assert(blank(s.skip(j)));
    } else {
        assert(s.take(s.len() as int) =~= s);
        assert(blank(s.skip(s.len() as int)));
    }
}

/// Trimming takes white space from both ends of a text, all of it and nothing else.
pub proof fn law_trimming(s: Seq<char>)
    ensures
        exists|i: int, j: int|
            0 <= i <= j <= s.len() && trimmed(s) == #[trigger] s.subrange(i, j) && blank(s.take(i))
                && blank(s.skip(j)),
        trimmed(s).len() > 0 ==> !white(trimmed(s)[0]) && !white(trimmed(s).last()),
{
    lemma_trimmed_start(s);
    let t = trimmed_start(s);
    lemma_trimmed_end(t);
    let i = choose|i: int|
        0 <= i <= s.len() && trimmed_start(s) == #[trigger] s.skip(i) && blank(s.take(i));
    let j = choose|j: int|
        0 <= j <= t.len() && trimmed_end(t) == #[trigger] t.take(j) && blank(t.skip(j));
    assert(t.take(j) =~= s.subrange(i, i + j));
    assert(t.skip(j) =~= s.skip(i + j));
    if trimmed(s).len() > 0 {
        assert(trimmed(s)[0] == t[0]);
    }
}

/// A text is cut round the first place where a pattern stands: nothing is lost but the pattern,
/// and it stands nowhere before. It is not cut where the pattern stands nowhere.
pub proof fn law_cutting(s: Seq<char>, p: Seq<char>)
    ensures
        cut(s, p) matches Some((a, b)) ==> s == a + p + b && forall|j: int|
            0 <= j < a.len() ==> !occurs_at(s, p, j),
        cut(s, p) is None <==> forall|j: int| !occurs_at(s, p, j),
{
    lemma_found(s, p);
    if let Some((a, b)) = cut(s, p) {
        assert(s =~= a + p + b);
    }
}

/// A text is cut round the last place where a pattern stands: nothing is lost but the pattern,
/// and it stands nowhere behind. It is not cut where the pattern stands nowhere.
pub proof fn law_cutting_last(s: Seq<char>, p: Seq<char>)
    ensures
        cut_last(s, p) matches Some((a, b)) ==> s == a + p + b && forall|j: int|
            a.len() < j ==> !occurs_at(s, p, j),
        cut_last(s, p) is None <==> forall|j: int| !occurs_at(s, p, j),
{
    lemma_find_upto(s, p, s.len() as int);
    if let Some((a, b)) = cut_last(s, p) {
        assert(s =~= a + p + b);
    }
}

/// A text begins with a pattern just where it is that pattern and something behind it, and ends
/// with one just where it is something and that pattern behind it.
pub proof fn law_fronts_and_ends(s: Seq<char>, p: Seq<char>, r: Seq<char>)
    ensures
        begins(p + r, p),
        ends(r + p, p),
        begins(s, p) ==> s == p + s.skip(p.len() as int),
        ends(s, p) ==> s == s.take(s.len() - p.len()) + p,
{
    assert((p + r).take(p.len() as int) =~= p);
    assert((r + p).skip(r.len() as int) =~= p);
    if begins(s, p) {
        assert(s =~= p + s.skip(p.len() as int));
    }
    if ends(s, p) {
        assert(s =~= s.take(s.len() - p.len()) + p);
    }
}

/// The first characters of a text are a front of it, and the last an end of it: as many as are
/// asked for, or all.
pub proof fn law_limits(s: Seq<char>, n: nat)
    ensures
        head(s, n as int).len() == if s.len() < n {
            s.len()
        } else {
            n
        },
        tail(s, n as int).len() == head(s, n as int).len(),
        forall|i: int| 0 <= i < head(s, n as int).len() ==> head(s, n as int)[i] == s[i],
        forall|i: int|
            0 <= i < tail(s, n as int).len() ==> #[trigger] tail(s, n as int)[i] == s[s.len() - tail(
                s,
                n as int,
            ).len() + i],
{
}

/// `p`, `n` times over.
pub open spec fn repeated(p: Seq<char>, n: nat) -> Seq<char>
    decreases n,
{
    if n == 0 {
        seq![]
    } else {
        repeated(p, (n - 1) as nat) + p
    }
}

/// A text that loses a pattern at its end loses every repetition of it, and nothing else.
pub proof fn law_tails_are_dropped(s: Seq<char>, p: Seq<char>)
    requires
        p.len() > 0,
    ensures
        !ends(without_tail(s, p), p),
        exists|n: nat| s == without_tail(s, p) + #[trigger] repeated(p, n),
    decreases s.len(),
{
    if ends(s, p) {
        let front = s.take(s.len() - p.len());
        law_tails_are_dropped(front, p);
        let n = choose|n: nat| front == without_tail(front, p) + #[trigger] repeated(p, n);
        assert(s =~= front + p);
        assert(s =~= without_tail(s, p) + repeated(p, n + 1));
    } else {
        assert(s =~= without_tail(s, p) + repeated(p, 0));
    }
}

/// A line feed ends a line, and a carriage return before it belongs to it. What follows the last
/// line feed is a line where there is anything.
pub proof fn law_lines(a: Seq<char>, b: Seq<char>)
    requires
        !a.contains('\n'),
    ensures
        lines(a + seq!['\n'] + b) == seq![
            if a.len() > 0 && a.last() == '\r' {
                a.drop_last()
            } else {
                a
            },
        ] + lines(b),
        lines(a) == if a.len() == 0 {
            Seq::<Seq<char>>::empty()
        } else {
            seq![a]
        },
{
    let s = a + seq!['\n'] + b;
    let k = a.len() as int;
    assert forall|j: int| 0 <= j < k implies s[j] != '\n' by {
        assert(s[j] == a[j]);
    }
    assert(s[k] == '\n');
    lemma_found_char(s, '\n', k);
    assert(s.take(k) =~= a);
    assert(s.skip(k + 1) =~= b);
    lemma_found_char(a, '\n', k);
}

/// Parts that are joined stand one after the other, whole, with the separator between each and
/// the next.
pub proof fn law_joining(a: Seq<Seq<char>>, b: Seq<Seq<char>>, sep: Seq<char>)
    requires
        a.len() > 0,
        b.len() > 0,
    ensures
        joined(a + b, sep) == joined(a, sep) + sep + joined(b, sep),
        a.len() == 1 ==> joined(a, sep) == a[0],
        joined(Seq::<Seq<char>>::empty(), sep).len() == 0,
    decreases b.len(),
{
    let all = a + b;
    assert(all.last() == b.last());
    if b.len() == 1 {
        assert(all.drop_last() =~= a);
    } else {
        law_joining(a, b.drop_last(), sep);
        assert(all.drop_last() =~= a + b.drop_last());
        let front = joined(a, sep) + sep + joined(b.drop_last(), sep);
        assert(front + sep + b.last() =~= joined(a, sep) + sep + (joined(b.drop_last(), sep) + sep
            + b.last()));
    }
}

/// Lines that are joined by line feeds are read back, unless the last is empty.
pub proof fn law_lines_read_back(ls: Seq<Seq<char>>)
    requires
        forall|i: int|
            0 <= i < ls.len() ==> !(#[trigger] ls[i]).contains('\n') && (ls[i].len() > 0 ==> ls[i].last()
                != '\r'),
        ls.len() > 0 ==> ls.last().len() > 0,
    ensures
        lines(joined(ls, seq!['\n'])) == ls,
    decreases ls.len(),
{
    let nl = seq!['\n'];
    if ls.len() == 0 {
        assert(ls =~= Seq::<Seq<char>>::empty());
    } else if ls.len() == 1 {
        law_lines(ls[0], seq![]);
        assert(ls =~= seq![ls[0]]);
    } else {
        let one = seq![ls[0]];
        let rest = ls.skip(1);
        assert forall|i: int| 0 <= i < rest.len() implies !(#[trigger] rest[i]).contains('\n') && (
        rest[i].len() > 0 ==> rest[i].last() != '\r') by {
            assert(rest[i] == ls[i + 1]);
        }
        law_lines_read_back(rest);
        law_joining(one, rest, nl);
        assert(one + rest =~= ls);
        law_lines(ls[0], joined(rest, nl));
    }
}

/// The first line of a text is what stands before its first line feed.
pub proof fn law_first_line(a: Seq<char>, b: Seq<char>)
    requires
        !a.contains('\n'),
        a.len() > 0 ==> a.last() != '\r',
    ensures
        first_line(a + seq!['\n'] + b) == a,
        first_line(a) == a,
{
    law_lines(a, b);
}

/// What a reply says does not depend on the white space round it.
pub proof fn law_white_space_is_passed_over(front: Seq<char>, reply: Seq<char>, end: Seq<char>)
    requires
        blank(front),
        blank(end),
    ensures
        trimmed(front + reply + end) == trimmed(reply),
{
    lemma_front_is_passed_over(front, reply + end);
    assert(front + (reply + end) =~= front + reply + end);
    lemma_end_is_passed_over(reply, end);
}

proof fn lemma_front_is_passed_over(front: Seq<char>, s: Seq<char>)
    requires
        blank(front),
    ensures
        trimmed_start(front + s) == trimmed_start(s),
    decreases front.len(),
{
    if front.len() > 0 {
        assert(white(front[0]));
        assert((front + s).skip(1) =~= front.skip(1) + s);
        assert forall|i: int| 0 <= i < front.skip(1).len() implies white(
            #[trigger] front.skip(1)[i],
        ) by {
            assert(white(front[i + 1]));
        }
        lemma_front_is_passed_over(front.skip(1), s);
    } else {
        assert(front + s =~= s);
    }
}

proof fn lemma_blank_end(s: Seq<char>, end: Seq<char>)
    requires
        blank(end),
    ensures
        trimmed_end(s + end) == trimmed_end(s),
    decreases end.len(),
{
    if end.len() > 0 {
        assert(white(end.last()));
        assert((s + end).last() == end.last());
        assert((s + end).drop_last() =~= s + end.drop_last());
        assert forall|i: int| 0 <= i < end.drop_last().len() implies white(
            #[trigger] end.drop_last()[i],
        ) by {
            assert(white(end[i]));
        }
        lemma_blank_end(s, end.drop_last());
    } else {
        assert(s + end =~= s);
    }
}

proof fn lemma_end_is_passed_over(s: Seq<char>, end: Seq<char>)
    requires
        blank(end),
    ensures
        trimmed(s + end) == trimmed(s),
    decreases s.len(),
{
    if s.len() > 0 {
        if white(s[0]) {
            assert((s + end).skip(1) =~= s.skip(1) + end);
            lemma_end_is_passed_over(s.skip(1), end);
        } else {
            lemma_blank_end(s, end);
        }
    } else {
        assert(s + end =~= end);
        lemma_front_is_passed_over(end, s);
        assert(end + s =~= end);
        assert(s =~= Seq::<char>::empty());
    }
}

} // verus!
