//! The session's log: how an event is written down, and how a session is summed up.

use crate::clock::now_secs;
use crate::effect::{entered, LogData, LogField, LogValue};
use crate::json::{
    as_text, at_key, control_free, count_value, fields, flag_value, insert_member, json_parsed,
    json_printed, member_mut, new_object, object_mut, object_value, parse_json, print_json,
    readable, remove_member, text_value, tree, Parsed, Tree, MAX_DEPTH,
};
use crate::text::{
    first_chars, head, join, joined, last_chars, lemma_found_char, lemma_texts_push, lines,
    lines_of, tail, texts,
};
use vstd::prelude::*;
use vstd::string::*;

verus! {

/// How many characters of a text event a summary keeps.
pub const TEXT_LIMIT: usize = 120;

/// How many characters a session's summary has at most.
pub const SUMMARY_LIMIT: usize = 8000;

/// A log entry: when, of what kind, and what.
pub open spec fn entry(ts: nat, kind: Seq<char>, data: Tree) -> Tree {
    Tree::Fields(
        Map::empty().insert("ts"@, Tree::Count(ts)).insert("kind"@, Tree::Text(kind)).insert(
            "data"@,
            data,
        ),
    )
}

/// The line that logs an entry.
pub open spec fn entry_line(ts: nat, kind: Seq<char>, data: Tree) -> Seq<char> {
    json_printed(entry(ts, kind, data)) + "\n"@
}

/// What a summary keeps of an event: an object loses what is long in it, a text is cut.
pub open spec fn lean(data: Tree) -> Tree {
    match data {
        Tree::Fields(f) => Tree::Fields(f.remove("content"@).remove("preview"@)),
        Tree::Text(s) => Tree::Text(head(s, TEXT_LIMIT as int)),
        other => other,
    }
}

/// What a summary keeps of a log entry.
pub open spec fn stripped(t: Tree) -> Tree {
    match t {
        Tree::Fields(f) => if f.contains_key("data"@) {
            Tree::Fields(f.insert("data"@, lean(f["data"@])))
        } else {
            t
        },
        _ => t,
    }
}

/// What a summary keeps of a line of the log: nothing, where it is no JSON.
pub open spec fn stripped_line(line: Seq<char>) -> Option<Seq<char>> {
    match json_parsed(line) {
        Parsed::Value(t) => Some(json_printed(stripped(t))),
        Parsed::Error(_) => None,
    }
}

/// What a summary keeps of lines of the log.
pub open spec fn stripped_lines(ls: Seq<Seq<char>>) -> Seq<Seq<char>>
    decreases ls.len(),
{
    if ls.len() == 0 {
        seq![]
    } else {
        match stripped_line(ls.last()) {
            Some(l) => stripped_lines(ls.drop_last()).push(l),
            None => stripped_lines(ls.drop_last()),
        }
    }
}

/// The summary of a session: the end of what is kept of its log.
pub open spec fn summary(raw: Seq<char>) -> Seq<char> {
    tail(joined(stripped_lines(lines(raw)), "\n"@), SUMMARY_LIMIT as int)
}

/// The text of a log with the given entries.
pub open spec fn log_text(entries: Seq<Tree>) -> Seq<char>
    decreases entries.len(),
{
    if entries.len() == 0 {
        seq![]
    } else {
        json_printed(entries[0]) + "\n"@ + log_text(entries.skip(1))
    }
}

/// A log entry that is printed on one line, and is read back as itself.
pub open spec fn reads_back(t: Tree) -> bool {
    control_free(json_printed(t)) && json_parsed(json_printed(t)) == Parsed::Value(t)
}

proof fn lemma_log_lines(entries: Seq<Tree>)
    requires
        forall|i: int| 0 <= i < entries.len() ==> reads_back(#[trigger] entries[i]),
    ensures
        lines(log_text(entries)) == entries.map_values(|t: Tree| json_printed(t)),
    decreases entries.len(),
{
    reveal_strlit("\n");
    let nl = seq!['\n'];
    assert("\n"@ =~= nl);
    let all = log_text(entries);
    let shown = entries.map_values(|t: Tree| json_printed(t));
    if entries.len() == 0 {
        assert(shown =~= Seq::<Seq<char>>::empty());
    } else {
        let p = json_printed(entries[0]);
        let rest = log_text(entries.skip(1));
        assert(reads_back(entries[0]));
        assert forall|i: int| 0 <= i < entries.skip(1).len() implies reads_back(
            #[trigger] entries.skip(1)[i],
        ) by {
            assert(reads_back(entries[i + 1]));
        }
        lemma_log_lines(entries.skip(1));
        assert forall|j: int| 0 <= j < p.len() implies all[j] != '\n' by {
            assert(all[j] == p[j]);
            assert(p[j] >= ' ');
        }
        lemma_found_char(all, '\n', p.len() as int);
        assert(all.take(p.len() as int) =~= p);
        assert(all.skip((p.len() + 1) as int) =~= rest);
        assert(p.len() > 0 ==> p.last() >= ' ');
        assert(shown =~= seq![p] + entries.skip(1).map_values(|t: Tree| json_printed(t)));
    }
}

proof fn lemma_all_kept(entries: Seq<Tree>)
    requires
        forall|i: int| 0 <= i < entries.len() ==> reads_back(#[trigger] entries[i]),
    ensures
        stripped_lines(entries.map_values(|t: Tree| json_printed(t))) == entries.map_values(
            |t: Tree| json_printed(stripped(t)),
        ),
    decreases entries.len(),
{
    let shown = entries.map_values(|t: Tree| json_printed(t));
    let kept = entries.map_values(|t: Tree| json_printed(stripped(t)));
    if entries.len() == 0 {
        assert(kept =~= Seq::<Seq<char>>::empty());
    } else {
        let front = entries.drop_last();
        assert forall|i: int| 0 <= i < front.len() implies reads_back(#[trigger] front[i]) by {
            assert(reads_back(entries[i]));
        }
        lemma_all_kept(front);
        assert(reads_back(entries.last()));
        assert(shown.drop_last() =~= front.map_values(|t: Tree| json_printed(t)));
        assert(kept =~= front.map_values(|t: Tree| json_printed(stripped(t))).push(
            json_printed(stripped(entries.last())),
        ));
    }
}

/// A log sums up entry by entry: every entry that was logged is in the summary, in order, with
/// what is long in it left out, up to the limit on the summary's length.
pub proof fn law_summary_keeps_every_entry(entries: Seq<Tree>)
    requires
        forall|i: int| 0 <= i < entries.len() ==> reads_back(#[trigger] entries[i]),
    ensures
        stripped_lines(lines(log_text(entries))) == entries.map_values(
            |t: Tree| json_printed(stripped(t)),
        ),
        summary(log_text(entries)) == tail(
            joined(entries.map_values(|t: Tree| json_printed(stripped(t))), "\n"@),
            SUMMARY_LIMIT as int,
        ),
{
    lemma_log_lines(entries);
    lemma_all_kept(entries);
}

/// A summary keeps within its limit.
pub proof fn law_summary_is_bounded(raw: Seq<char>)
    ensures
        summary(raw).len() <= SUMMARY_LIMIT,
{
}

/// What is stripped once is not changed by stripping it again.
pub proof fn law_stripping_is_idempotent(t: Tree)
    ensures
        stripped(stripped(t)) == stripped(t),
{
    match t {
        Tree::Fields(f) => {
            if f.contains_key("data"@) {
                let once = lean(f["data"@]);
                match f["data"@] {
                    Tree::Fields(g) => {
                        let h = g.remove("content"@).remove("preview"@);
                        assert(h.remove("content"@).remove("preview"@) =~= h);
                    },
                    _ => {},
                }
                assert(lean(once) == once);
                let g = f.insert("data"@, once);
                assert(g.insert("data"@, once) =~= g);
            }
        },
        _ => {},
    }
}

/// Named values are texts, counts and truth values.
proof fn lemma_entered_readable(items: Seq<LogField>, k: Seq<char>, depth: nat)
    requires
        entered(items).contains_key(k),
    ensures
        readable(entered(items)[k], depth),
    decreases items.len(),
{
    if items.len() > 0 {
        if items.last().name@ != k {
            lemma_entered_readable(items.drop_last(), k, depth);
        }
    }
}

/// A log entry can be read back.
proof fn lemma_entry_readable(ts: u64, kind: Seq<char>, data: LogData)
    ensures
        readable(entry(ts as nat, kind, data@), MAX_DEPTH as nat),
{
    let m = entry(ts as nat, kind, data@)->Fields_0;
    let inner = (MAX_DEPTH - 1) as nat;
    assert(readable(data@, inner)) by {
        match data {
            LogData::Fields(f) => {
                assert forall|k: Seq<char>| f@.contains_key(k) implies readable(
                    #[trigger] f@[k],
                    (inner - 1) as nat,
                ) by {
                    lemma_entered_readable(f.items@, k, (inner - 1) as nat);
                }
            },
            LogData::Text(_) => {},
        }
    }
    assert forall|k: Seq<char>| m.contains_key(k) implies readable(#[trigger] m[k], inner) by {
    }
}

/// The value that a log entry's named values make.
fn fields_value(items: &Vec<LogField>) -> (r: serde_json::Value)
    ensures
        tree(r) == Tree::Fields(entered(items@)),
{
    let mut m = new_object();
    let mut i: usize = 0;
    assert(items@.take(0) =~= Seq::<LogField>::empty());
    while i < items.len()
        invariant
            i <= items.len(),
            fields(m) == entered(items@.take(i as int)),
        decreases items.len() - i,
    {
        let f = &items[i];
        let v = match &f.value {
            LogValue::Text(s) => text_value(s.clone()),
            LogValue::Count(n) => count_value(*n),
            LogValue::Flag(b) => flag_value(*b),
        };
        assert(items@.take(i + 1).drop_last() =~= items@.take(i as int));
        insert_member(&mut m, f.name.clone(), v);
        i = i + 1;
    }
    assert(items@.take(i as int) =~= items@);
    object_value(m)
}

/// The line that logs an event that happened at `ts`. It is one line, and it reads back as the
/// entry.
pub fn log_line(ts: u64, kind: &str, data: &LogData) -> (r: String)
    ensures
        r@ == entry_line(ts as nat, kind@, data@),
        reads_back(entry(ts as nat, kind@, data@)),
{
    let data_value = match data {
        LogData::Fields(f) => fields_value(&f.items),
        LogData::Text(s) => text_value(s.clone()),
    };
    let mut m = new_object();
    insert_member(&mut m, "ts".to_owned(), count_value(ts));
    insert_member(&mut m, "kind".to_owned(), text_value(kind.to_owned()));
    insert_member(&mut m, "data".to_owned(), data_value);
    let v = object_value(m);
    proof {
        lemma_entry_readable(ts, kind@, *data);
    }
    let mut r = print_json(&v);
    r.append("\n");
    r
}

/// The line that logs an event that happens now. It is one line, and it reads back as the entry.
pub fn traj_log(kind: &str, data: &LogData) -> (r: String)
    ensures
        exists|ts: u64|
            r@ == #[trigger] entry_line(ts as nat, kind@, data@) && reads_back(
                entry(ts as nat, kind@, data@),
            ),
{
    let ts = now_secs();
    log_line(ts, kind, data)
}

/// Keeps of a log entry what a summary keeps of it.
pub fn strip_entry(v: &mut serde_json::Value)
    ensures
        tree(*final(v)) == stripped(tree(*old(v))),
{
    if let Some(d) = member_mut(v, "data") {
        let capped = match as_text(d) {
            Some(s) => Some(first_chars(s, TEXT_LIMIT).to_owned()),
            None => None,
        };
        match capped {
            Some(s) => {
                *d = text_value(s);
            },
            None => {
                if let Some(m) = object_mut(d) {
                    remove_member(m, "content");
                    remove_member(m, "preview");
                }
            },
        }
    }
}

/// Keeps of a line of the log what a summary keeps of it.
pub fn strip_line(line: &str) -> (r: Option<String>)
    ensures
        match r {
            Some(s) => stripped_line(line@) == Some(s@),
            None => stripped_line(line@) is None,
        },
{
    match parse_json(line) {
        Ok(v) => {
            let mut v = v;
            strip_entry(&mut v);
            Some(print_json(&v))
        },
        Err(_) => None,
    }
}

/// The summary of a session whose log is `raw`.
pub fn summarize(raw: &str) -> (r: String)
    ensures
        r@ == summary(raw@),
{
    let all = lines_of(raw);
    let ghost ls = lines(raw@);
    let mut kept: Vec<String> = Vec::new();
    let mut i: usize = 0;
    assert(texts(kept@) =~= stripped_lines(ls.take(0)));
    while i < all.len()
        invariant
            i <= all.len(),
            ls == texts(all@),
            texts(kept@) == stripped_lines(ls.take(i as int)),
        decreases all.len() - i,
    {
        assert(ls.take(i + 1).drop_last() =~= ls.take(i as int));
        if let Some(s) = strip_line(all[i].as_str()) {
            proof {
                lemma_texts_push(kept@, s);
            }
            kept.push(s);
        }
        i = i + 1;
    }
    assert(ls.take(i as int) =~= ls);
    let joined_text = join(&kept, "\n");
    last_chars(joined_text.as_str(), SUMMARY_LIMIT).to_owned()
}

/// A log entry says when something happened, of what kind it is, and what it is.
pub proof fn law_entry_holds_what_is_logged(ts: nat, kind: Seq<char>, data: Tree)
    ensures
        at_key(entry(ts, kind, data), "ts"@) == Tree::Count(ts),
        at_key(entry(ts, kind, data), "kind"@) == Tree::Text(kind),
        at_key(entry(ts, kind, data), "data"@) == data,
        entry_line(ts, kind, data) == json_printed(entry(ts, kind, data)) + "\n"@,
{
    reveal_strlit("ts");
    reveal_strlit("kind");
    reveal_strlit("data");
    assert("ts"@.len() == 2 && "kind"@.len() == 4 && "data"@.len() == 4);
    assert("kind"@[0] == 'k' && "data"@[0] == 'd');
}

/// Of a log entry a summary keeps everything but what is long: of the members of its data all but
/// the content and the preview, and of a text the first 120 characters.
pub proof fn law_only_long_parts_are_left_out(t: Tree, k: Seq<char>)
    ensures
        k != "data"@ ==> at_key(stripped(t), k) == at_key(t, k),
        ({
            let data = at_key(t, "data"@);
            let kept = at_key(stripped(t), "data"@);
            &&& data is Fields ==> kept is Fields && at_key(kept, k) == if k == "content"@ || k
                == "preview"@ {
                Tree::Null
            } else {
                at_key(data, k)
            }
            &&& data matches Tree::Text(s) ==> kept == Tree::Text(
                if s.len() <= 120 {
                    s
                } else {
                    s.take(120)
                },
            )
            &&& !(data is Fields) && !(data is Text) ==> kept == data
        }),
        !(t is Fields) ==> stripped(t) == t,
{
}

/// A summary has what is kept of each line of the log that is JSON, in order; other lines are
/// passed over.
pub proof fn law_lines_are_kept_in_order(ls: Seq<Seq<char>>, line: Seq<char>)
    ensures
        stripped_lines(Seq::<Seq<char>>::empty()).len() == 0,
        json_parsed(line) matches Parsed::Value(t) ==> stripped_lines(ls.push(line))
            == stripped_lines(ls).push(json_printed(stripped(t))),
        json_parsed(line) is Error ==> stripped_lines(ls.push(line)) == stripped_lines(ls),
{
    assert(ls.push(line).drop_last() =~= ls);
}

/// A summary is the last 8000 characters of what is kept of the log, one entry to a line, or all
/// of it.
pub proof fn law_summary_is_the_end_of_the_log(raw: Seq<char>)
    ensures
        ({
            let all = joined(stripped_lines(lines(raw)), "\n"@);
            summary(raw) == if all.len() <= 8000 {
                all
            } else {
                all.skip(all.len() - 8000)
            }
        }),
{
}

} // verus!
