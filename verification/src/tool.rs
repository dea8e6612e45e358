//! Tool calls in a reply: how they are found, and what their arguments mean.

use crate::number::{
    decimal, is_digit, law_decimal_reads_back, lemma_all_digits, number, read_usize, show,
};
use crate::text::{
    begins, contains, cut, cut_last, ends, law_cutting, law_cutting_last, lemma_contains,
    lemma_cut_first, lemma_cut_last_char, lemma_found, occurs_at, slice, split_last, split_once,
    starts_with, trim, trim_end_matches, trimmed, white, without_tail,
};
use vstd::prelude::*;
use vstd::string::*;

verus! {

/// How many characters a read shows when no range is given.
pub const READ_WINDOW: usize = 16000;

/// A body without the code fence round it, where it has one.
pub open spec fn unfenced(raw: Seq<char>) -> Seq<char> {
    if begins(raw, "```"@) {
        let after = match cut(raw, "\n"@) {
            Some((_, rest)) => rest,
            None => raw,
        };
        trimmed(without_tail(after, "```"@))
    } else {
        raw
    }
}

/// The first tool call in `text`: its name and its body.
pub open spec fn tool_call(text: Seq<char>) -> Option<(Seq<char>, Seq<char>)> {
    match cut(text, "<tool name=\""@) {
        None => None,
        Some((_, call)) => match cut(call, "\""@) {
            None => None,
            Some((name, tag)) => match cut(tag, ">"@) {
                None => None,
                Some((_, content)) => match cut(content, "</tool>"@) {
                    None => None,
                    Some((body, _)) => Some((name, unfenced(trimmed(body)))),
                },
            },
        },
    }
}

/// A path, and the range of characters that may follow it.
pub open spec fn path_range(body: Seq<char>) -> (Seq<char>, Option<(nat, nat)>) {
    match cut_last(body, " "@) {
        None => (body, None),
        Some((path, candidate)) => match cut(candidate, ".."@) {
            None => (body, None),
            Some((a, b)) => match (number(a, usize::MAX as nat), number(b, usize::MAX as nat)) {
                (Some(s), Some(e)) => (path, Some((s, e))),
                _ => (body, None),
            },
        },
    }
}

/// A machine-word range as a range of naturals.
pub open spec fn range_view(range: Option<(usize, usize)>) -> Option<(nat, nat)> {
    match range {
        Some((s, e)) => Some((s as nat, e as nat)),
        None => None,
    }
}

/// A range that lies within `total` characters: an end before the start makes it empty.
pub open spec fn clamped(range: (nat, nat), total: nat) -> (int, int) {
    let start = if range.0 < total {
        range.0
    } else {
        total
    };
    let end = if range.1 < total {
        range.1
    } else {
        total
    };
    (
        start as int,
        if end < start {
            start as int
        } else {
            end as int
        },
    )
}

/// Where a window that begins at `from` ends.
pub open spec fn window_end(from: int, total: nat) -> int {
    if total - from > READ_WINDOW {
        from + READ_WINDOW
    } else {
        total as int
    }
}

/// The range that a read shows.
pub open spec fn read_range(range: Option<(nat, nat)>, total: nat) -> (int, int) {
    match range {
        Some(r) => clamped(r, total),
        None => (0, window_end(0, total)),
    }
}

/// What a read of `content` shows: the characters of the range and, where more follow, how to
/// go on.
pub open spec fn excerpt(
    path: Seq<char>,
    content: Seq<char>,
    range: Option<(nat, nat)>,
) -> Seq<char> {
    let total = content.len();
    let (start, end) = read_range(range, total);
    let shown = content.subrange(start, end);
    if end < total {
        shown + "\n["@ + decimal((total - end) as nat) + " chars remaining — use read_file "@ + path
            + " "@ + decimal(end as nat) + ".."@ + decimal(window_end(end, total) as nat) + "]"@
    } else {
        shown
    }
}

/// `existing` with the characters of `range` replaced by `content`.
pub open spec fn patched(
    existing: Seq<char>,
    range: (nat, nat),
    content: Seq<char>,
) -> Seq<char> {
    let (start, end) = clamped(range, existing.len());
    existing.take(start) + content + existing.skip(end)
}

/// What is seen when a text is read window by window from `from` on.
pub open spec fn read_through(content: Seq<char>, from: int) -> Seq<char>
    decreases content.len() - from,
{
    if from < 0 || from >= content.len() {
        seq![]
    } else {
        let end = window_end(from, content.len());
        content.subrange(from, end) + read_through(content, end)
    }
}

/// The first tool call in `text`: its name and its body. White space round the body is dropped,
/// and so is a code fence.
pub fn extract_tool<'a>(text: &'a str) -> (r: Option<(&'a str, &'a str)>)
    ensures
        match r {
            Some((name, body)) => tool_call(text@) == Some((name@, body@)),
            None => tool_call(text@) is None,
        },
{
    let call = match split_once(text, "<tool name=\"") {
        Some((_, call)) => call,
        None => return None,
    };
    let (name, tag) = match split_once(call, "\"") {
        Some(parts) => parts,
        None => return None,
    };
    let content = match split_once(tag, ">") {
        Some((_, content)) => content,
        None => return None,
    };
    let body = match split_once(content, "</tool>") {
        Some((body, _)) => body,
        None => return None,
    };
    Some((name, strip_fence(trim(body))))
}

/// A body without the code fence round it, where it has one.
fn strip_fence<'a>(raw: &'a str) -> (r: &'a str)
    ensures
        r@ == unfenced(raw@),
{
    if starts_with(raw, "```") {
        let after = match split_once(raw, "\n") {
            Some((_, rest)) => rest,
            None => raw,
        };
        proof {
            reveal_strlit("```");
        }
        trim(trim_end_matches(after, "```"))
    } else {
        raw
    }
}

/// Splits a path from the `start..end` that may follow it after a space.
pub fn parse_path_range<'a>(body: &'a str) -> (r: (&'a str, Option<(usize, usize)>))
    ensures
        (r.0@, range_view(r.1)) == path_range(body@),
{
    if let Some((path, candidate)) = split_last(body, " ") {
        if let Some((a, b)) = split_once(candidate, "..") {
            if let (Some(s), Some(e)) = (read_usize(a), read_usize(b)) {
                return (path, Some((s, e)));
            }
        }
    }
    (body, None)
}

/// The part of `range` that lies within `total` characters.
pub fn clamp_range(range: (usize, usize), total: usize) -> (r: (usize, usize))
    ensures
        (r.0 as int, r.1 as int) == clamped((range.0 as nat, range.1 as nat), total as nat),
        r.0 <= r.1 <= total,
{
    let start: usize = if range.0 < total {
        range.0
    } else {
        total
    };
    let end: usize = if range.1 < total {
        range.1
    } else {
        total
    };
    if end < start {
        (start, start)
    } else {
        (start, end)
    }
}

/// Where a window that begins at `from` ends.
fn end_of_window(from: usize, total: usize) -> (r: usize)
    requires
        from <= total,
    ensures
        r == window_end(from as int, total as nat),
{
    if total - from > READ_WINDOW {
        from + READ_WINDOW
    } else {
        total
    }
}

/// The range that a read of `total` characters shows.
pub fn shown_range(range: Option<(usize, usize)>, total: usize) -> (r: (usize, usize))
    ensures
        (r.0 as int, r.1 as int) == read_range(range_view(range), total as nat),
        r.0 <= r.1 <= total,
{
    match range {
        Some(r) => clamp_range(r, total),
        None => (0, end_of_window(0, total)),
    }
}

/// What a read of `content` shows.
pub fn show_excerpt(path: &str, content: &str, range: Option<(usize, usize)>) -> (r: String)
    ensures
        r@ == excerpt(path@, content@, range_view(range)),
{
    let total = content.unicode_len();
    let (start, end) = shown_range(range, total);
    let mut r = slice(content, start, end).to_owned();
    if end < total {
        r.append("\n[");
        r.append(show((total - end) as u64).as_str());
        r.append(" chars remaining — use read_file ");
        r.append(path);
        r.append(" ");
        r.append(show(end as u64).as_str());
        r.append("..");
        r.append(show(end_of_window(end, total) as u64).as_str());
        r.append("]");
    }
    r
}

/// `existing` with the characters of `range` replaced by `content`.
pub fn patch(existing: &str, range: (usize, usize), content: &str) -> (r: String)
    ensures
        r@ == patched(existing@, (range.0 as nat, range.1 as nat), content@),
{
    let total = existing.unicode_len();
    let (start, end) = clamp_range(range, total);
    let mut r = slice(existing, 0, start).to_owned();
    r.append(content);
    r.append(slice(existing, end, total));
    assert(existing@.subrange(0, start as int) =~= existing@.take(start as int));
    assert(existing@.subrange(end as int, total as int) =~= existing@.skip(end as int));
    r
}

/// A text with white space at neither end is left as it is.
proof fn lemma_trimmed_id(s: Seq<char>)
    requires
        s.len() > 0 ==> !white(s[0]) && !white(s.last()),
    ensures
        trimmed(s) == s,
{
}

/// A tool call that is written out is found again: the first call in a text is the one whose
/// opening tag comes first, its name ends at the next quote and its body at the next closing tag.
pub proof fn law_call_reads_back(
    before: Seq<char>,
    name: Seq<char>,
    body: Seq<char>,
    after: Seq<char>,
)
    requires
        !contains(before, "<tool name=\""@),
        !name.contains('"'),
        !contains(body, "</tool>"@),
        body.len() > 0 ==> !white(body[0]) && !white(body.last()),
        !begins(body, "```"@),
    ensures
        tool_call(
            before + "<tool name=\""@ + name + "\">"@ + body + "</tool>"@ + after,
        ) == Some((name, body)),
{
    reveal_strlit("<tool name=\"");
    reveal_strlit("\"");
    reveal_strlit(">");
    reveal_strlit("</tool>");
    reveal_strlit("");
    let d = body + "</tool>"@ + after;
    let c = ""@ + ">"@ + d;
    let b = name + "\""@ + c;
    reveal_strlit("\">");
    assert(before + "<tool name=\""@ + name + "\">"@ + body + "</tool>"@ + after =~= before
        + "<tool name=\""@ + b);
    lemma_cut_first(before, "<tool name=\""@, b);
    lemma_contains(name, "\""@);
    assert forall|i: int| !occurs_at(name, "\""@, i) by {
        if occurs_at(name, "\""@, i) {
            assert(name.subrange(i, i + 1)[0] == "\""@[0]);
            assert(name[i] == '"');
        }
    }
    lemma_cut_first(name, "\""@, c);
    lemma_contains(""@, ">"@);
    lemma_cut_first(""@, ">"@, d);
    lemma_cut_first(body, "</tool>"@, after);
    lemma_trimmed_id(body);
}

/// A path with a range behind it is read back as that path and that range.
pub proof fn law_range_reads_back(path: Seq<char>, s: nat, e: nat)
    requires
        s <= usize::MAX,
        e <= usize::MAX,
    ensures
        path_range(path + " "@ + (decimal(s) + ".."@ + decimal(e))) == (path, Some((s, e))),
{
    reveal_strlit(" ");
    reveal_strlit("..");
    let digits = decimal(s) + ".."@ + decimal(e);
    lemma_all_digits(s);
    lemma_all_digits(e);
    assert(" "@ =~= seq![' ']);
    assert(!digits.contains(' ')) by {
        assert forall|i: int| 0 <= i < digits.len() implies digits[i] != ' ' by {
            if i < decimal(s).len() {
                assert(is_digit(decimal(s)[i]));
            } else if i >= decimal(s).len() + 2 {
                assert(is_digit(decimal(e)[i - decimal(s).len() - 2]));
            }
        }
    }
    lemma_cut_last_char(path, ' ', digits);
    let p = ".."@;
    let k = decimal(s).len() as int;
    lemma_found(digits, p);
    assert(digits.subrange(k, k + 2) =~= p);
    assert(occurs_at(digits, p, k));
    assert forall|j: int| 0 <= j < k implies !occurs_at(digits, p, j) by {
        assert(is_digit(decimal(s)[j]));
        if occurs_at(digits, p, j) {
            assert(digits.subrange(j, j + 2)[0] == p[0]);
        }
    }
    assert(digits.take(k) =~= decimal(s));
    assert(digits.skip(k + 2) =~= decimal(e));
    law_decimal_reads_back(s, usize::MAX as nat);
    law_decimal_reads_back(e, usize::MAX as nat);
}

/// The range that an excerpt names for going on is the window that follows it.
pub proof fn law_hint_leads_on(path: Seq<char>, total: nat, end: int)
    requires
        0 <= end < total,
        total <= usize::MAX,
    ensures
        path_range(
            path + " "@ + (decimal(end as nat) + ".."@ + decimal(window_end(end, total) as nat)),
        ) == (path, Some((end as nat, window_end(end, total) as nat))),
        read_range(Some((end as nat, window_end(end, total) as nat)), total) == (
            end,
            window_end(end, total),
        ),
        end < window_end(end, total) <= total,
{
    law_range_reads_back(path, end as nat, window_end(end, total) as nat);
}

/// A text that is read window by window is seen whole, and nothing of it twice.
pub proof fn law_windows_cover(content: Seq<char>, from: int)
    requires
        0 <= from <= content.len(),
    ensures
        read_through(content, from) == content.skip(from),
    decreases content.len() - from,
{
    if from < content.len() {
        let end = window_end(from, content.len());
        law_windows_cover(content, end);
        assert(content.subrange(from, end) + content.skip(end) =~= content.skip(from));
    } else {
        assert(content.skip(from) =~= seq![]);
    }
}

/// A patch leaves what lies outside its range as it was.
pub proof fn law_patch_is_local(existing: Seq<char>, range: (nat, nat), content: Seq<char>)
    ensures
        ({
            let (start, end) = clamped(range, existing.len());
            let new = patched(existing, range, content);
            &&& 0 <= start <= end <= existing.len()
            &&& new.len() == existing.len() - (end - start) + content.len()
            &&& new.take(start) == existing.take(start)
            &&& new.skip(start + content.len()) == existing.skip(end)
            &&& new.subrange(start, start + content.len()) == content
        }),
{
    let (start, end) = clamped(range, existing.len());
    let new = patched(existing, range, content);
    assert(new.take(start) =~= existing.take(start));
    assert(new.skip(start + content.len()) =~= existing.skip(end));
    assert(new.subrange(start, start + content.len()) =~= content);
}

/// To write back what a range showed changes nothing.
pub proof fn law_patch_undoes_read(existing: Seq<char>, range: (nat, nat))
    ensures
        ({
            let (start, end) = read_range(Some(range), existing.len());
            patched(existing, range, existing.subrange(start, end)) == existing
        }),
{
    let (start, end) = clamped(range, existing.len());
    assert(patched(existing, range, existing.subrange(start, end)) =~= existing);
}

/// A read without a range shows the start of the text, and no more of it than the window.
pub proof fn law_default_window(total: nat)
    ensures
        read_range(None, total).0 == 0,
        0 <= read_range(None, total).1 <= READ_WINDOW,
        read_range(None, total).1 < total ==> read_range(None, total).1 == READ_WINDOW,
{
}

/// A code fence round the body of a call, with what stands behind its opening marks, is no part of
/// the body.
pub proof fn law_fence_is_dropped(
    before: Seq<char>,
    name: Seq<char>,
    language: Seq<char>,
    code: Seq<char>,
    after: Seq<char>,
)
    requires
        !contains(before, "<tool name=\""@),
        !name.contains('"'),
        !language.contains('\n'),
        !ends(code, "```"@),
        !contains("```"@ + language + "\n"@ + code + "```"@, "</tool>"@),
    ensures
        tool_call(
            before + "<tool name=\""@ + name + "\">"@ + ("```"@ + language + "\n"@ + code + "```"@)
                + "</tool>"@ + after,
        ) == Some((name, trimmed(code))),
{
    let raw = "```"@ + language + "\n"@ + code + "```"@;
    reveal_strlit("<tool name=\"");
    reveal_strlit("\"");
    reveal_strlit(">");
    reveal_strlit("</tool>");
    reveal_strlit("");
    reveal_strlit("```");
    reveal_strlit("\n");
    let d = raw + "</tool>"@ + after;
    let c = ""@ + ">"@ + d;
    let b = name + "\""@ + c;
    reveal_strlit("\">");
    assert(before + "<tool name=\""@ + name + "\">"@ + raw + "</tool>"@ + after =~= before
        + "<tool name=\""@ + b);
    lemma_cut_first(before, "<tool name=\""@, b);
    lemma_contains(name, "\""@);
    assert forall|i: int| !occurs_at(name, "\""@, i) by {
        if occurs_at(name, "\""@, i) {
            assert(name.subrange(i, i + 1)[0] == "\""@[0]);
            assert(name[i] == '"');
        }
    }
    lemma_cut_first(name, "\""@, c);
    lemma_contains(""@, ">"@);
    lemma_cut_first(""@, ">"@, d);
    lemma_cut_first(raw, "</tool>"@, after);
    assert(raw[0] == '`' && raw.last() == '`');
    lemma_trimmed_id(raw);
    assert(raw.take(3) =~= "```"@);
    let mark = "```"@ + language;
    let rest = code + "```"@;
    assert(raw =~= mark + "\n"@ + rest);
    lemma_contains(mark, "\n"@);
    assert forall|i: int| !occurs_at(mark, "\n"@, i) by {
        if occurs_at(mark, "\n"@, i) {
            assert(mark.subrange(i, i + 1)[0] == '\n');
            if i >= 3 {
                assert(language[i - 3] == '\n');
            }
        }
    }
    lemma_cut_first(mark, "\n"@, rest);
    assert(rest.skip(code.len() as int) =~= "```"@);
    assert(rest.take(code.len() as int) =~= code);
    assert(without_tail(rest, "```"@) == without_tail(code, "```"@));
}

proof fn lemma_cut_keeps_out(s: Seq<char>, p: Seq<char>, q: Seq<char>)
    requires
        !contains(s, q),
    ensures
        cut(s, p) matches Some((_, b)) ==> !contains(b, q),
{
    if let Some((a, b)) = cut(s, p) {
        lemma_found(s, p);
        lemma_contains(s, q);
        lemma_contains(b, q);
        if contains(b, q) {
            let i = choose|i: int| occurs_at(b, q, i);
            let k = a.len() + p.len() + i;
            assert(s.subrange(k, k + q.len()) =~= b.subrange(i, i + q.len()));
            assert(occurs_at(s, q, k));
        }
    }
}

/// A text without an opening tag, or without a closing one, calls no tool.
pub proof fn law_no_tag_no_call(text: Seq<char>)
    requires
        !contains(text, "<tool name=\""@) || !contains(text, "</tool>"@),
    ensures
        tool_call(text) is None,
{
    if contains(text, "<tool name=\""@) {
        lemma_cut_keeps_out(text, "<tool name=\""@, "</tool>"@);
        if let Some((_, call)) = cut(text, "<tool name=\""@) {
            lemma_cut_keeps_out(call, "\""@, "</tool>"@);
            if let Some((_, tag)) = cut(call, "\""@) {
                lemma_cut_keeps_out(tag, ">"@, "</tool>"@);
            }
        }
    }
}

/// A path, a space, and two texts with two dots between them.
pub open spec fn is_path_and_range(
    body: Seq<char>,
    path: Seq<char>,
    a: Seq<char>,
    b: Seq<char>,
) -> bool {
    body == path + " "@ + (a + ".."@ + b)
}

/// A body is a path with a range just where a space and two numbers with two dots between them
/// follow the path; else all of it is the path.
pub proof fn law_range_follows_the_path(body: Seq<char>)
    ensures
        path_range(body).1 is None ==> path_range(body).0 == body,
        path_range(body).1 matches Some((s, e)) ==> exists|a: Seq<char>, b: Seq<char>|
            #[trigger] is_path_and_range(body, path_range(body).0, a, b) && number(
                a,
                usize::MAX as nat,
            ) == Some(s) && number(b, usize::MAX as nat) == Some(e),
{
    if let Some((s, e)) = path_range(body).1 {
        law_cutting_last(body, " "@);
        let (path, candidate) = cut_last(body, " "@)->0;
        law_cutting(candidate, ".."@);
        let (a, b) = cut(candidate, ".."@)->0;
        assert(path_range(body) == (path, Some((s, e))));
        assert(number(a, usize::MAX as nat) == Some(s));
        assert(number(b, usize::MAX as nat) == Some(e));
        assert(is_path_and_range(body, path_range(body).0, a, b));
    }
}

/// A range is cut to the text that it speaks of, and one that ends before it starts is empty.
pub proof fn law_ranges_are_clamped(s: nat, e: nat, total: nat)
    ensures
        s <= e <= total ==> clamped((s, e), total) == (s as int, e as int),
        s <= total && total < e ==> clamped((s, e), total) == (s as int, total as int),
        e < s && s <= total ==> clamped((s, e), total) == (s as int, s as int),
        total < s ==> clamped((s, e), total) == (total as int, total as int),
{
}

/// What stands between the name of a call and the end of its opening tag is passed over, and so is
/// the white space round the body.
pub proof fn law_call_is_found(
    before: Seq<char>,
    name: Seq<char>,
    attributes: Seq<char>,
    body: Seq<char>,
    after: Seq<char>,
)
    requires
        !contains(before, "<tool name=\""@),
        !name.contains('"'),
        !attributes.contains('>'),
        !contains(body, "</tool>"@),
        !begins(trimmed(body), "```"@),
    ensures
        tool_call(
            before + "<tool name=\""@ + name + "\""@ + attributes + ">"@ + body + "</tool>"@ + after,
        ) == Some((name, trimmed(body))),
{
    reveal_strlit("<tool name=\"");
    reveal_strlit("\"");
    reveal_strlit(">");
    reveal_strlit("</tool>");
    let d = body + "</tool>"@ + after;
    let c = attributes + ">"@ + d;
    let b = name + "\""@ + c;
    assert(before + "<tool name=\""@ + name + "\""@ + attributes + ">"@ + body + "</tool>"@ + after
        =~= before + "<tool name=\""@ + b);
    lemma_cut_first(before, "<tool name=\""@, b);
    lemma_contains(name, "\""@);
    assert forall|i: int| !occurs_at(name, "\""@, i) by {
        if occurs_at(name, "\""@, i) {
            assert(name.subrange(i, i + 1)[0] == "\""@[0]);
            assert(name[i] == '"');
        }
    }
    lemma_cut_first(name, "\""@, c);
    lemma_contains(attributes, ">"@);
    assert forall|i: int| !occurs_at(attributes, ">"@, i) by {
        if occurs_at(attributes, ">"@, i) {
            assert(attributes.subrange(i, i + 1)[0] == '>');
            assert(attributes[i] == '>');
        }
    }
    lemma_cut_first(attributes, ">"@, d);
    lemma_cut_first(body, "</tool>"@, after);
}

/// A code fence on one line loses only its closing marks.
pub proof fn law_fence_on_one_line(code: Seq<char>)
    requires
        !code.contains('\n'),
        !ends("```"@ + code, "```"@),
    ensures
        unfenced("```"@ + code + "```"@) == trimmed("```"@ + code),
{
    let raw = "```"@ + code + "```"@;
    let kept = "```"@ + code;
    reveal_strlit("```");
    reveal_strlit("\n");
    assert(raw.take(3) =~= "```"@);
    law_cutting(raw, "\n"@);
    if let Some((a, b)) = cut(raw, "\n"@) {
        let i = a.len() as int;
        assert(raw[i] == '\n');
        if 3 <= i < 3 + code.len() {
            assert(code[i - 3] == '\n');
        }
    }
    assert(raw.skip(kept.len() as int) =~= "```"@);
    assert(raw.take(kept.len() as int) =~= kept);
    assert(without_tail(raw, "```"@) == without_tail(kept, "```"@));
}

} // verus!
