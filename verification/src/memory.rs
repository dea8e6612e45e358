//! The memory folder: what its notes say of themselves, and the index of them.

use crate::effect::{notes_view, Note, NoteView};
use crate::paths::{extension, extension_of, law_extension};
use crate::text::{
    begins, contains, cut, drop_return, first_chars, first_line, found, head, join, joined,
    lemma_contains, lemma_cut_first, lemma_found, lemma_texts_push, line_one, lines, occurs_at,
    same, slice, split_once, starts_with, texts, trim, trimmed,
};
use vstd::prelude::*;
use vstd::string::*;

verus! {

broadcast use vstd::seq::group_seq_axioms;

/// How many characters of a note's first line stand for a missing description.
pub const DESCRIPTION_LIMIT: usize = 100;

/// The first line that begins with `p`.
pub open spec fn line_with(ls: Seq<Seq<char>>, p: Seq<char>) -> Option<Seq<char>>
    decreases ls.len(),
{
    if ls.len() == 0 {
        None
    } else if begins(ls[0], p) {
        Some(ls[0])
    } else {
        line_with(ls.skip(1), p)
    }
}

/// The front matter of a note: what stands between the rule on its first line and the next rule,
/// or the end of the note where there is none.
pub open spec fn front_matter(content: Seq<char>) -> Option<Seq<char>> {
    if begins(content, "---\n"@) {
        let rest = content.skip("---\n"@.len() as int);
        match cut(rest, "\n---"@) {
            Some((inner, _)) => Some(inner),
            None => Some(rest),
        }
    } else {
        None
    }
}

/// The description that the front matter of a note gives.
pub open spec fn description(content: Seq<char>) -> Option<Seq<char>> {
    match front_matter(content) {
        None => None,
        Some(inner) => match line_with(lines(inner), "description:"@) {
            Some(line) => Some(trimmed(line.skip("description:"@.len() as int))),
            None => None,
        },
    }
}

/// What the index says of a note: its description, or else the beginning of its first line.
pub open spec fn summary_of(content: Seq<char>) -> Seq<char> {
    match description(content) {
        Some(d) => d,
        None => head(first_line(content), DESCRIPTION_LIMIT as int),
    }
}

/// A note is a file with the extension `md`.
pub open spec fn is_note(name: Seq<char>) -> bool {
    extension(name) == Some("md"@)
}

/// The line of the index for a note.
pub open spec fn index_line(note: NoteView) -> Seq<char> {
    "  src/memory/"@ + note.name + " — "@ + summary_of(note.text)
}

/// The lines of the index, in the order of the files.
pub open spec fn index_lines(files: Seq<NoteView>) -> Seq<Seq<char>>
    decreases files.len(),
{
    if files.len() == 0 {
        seq![]
    } else if is_note(files.last().name) {
        index_lines(files.drop_last()).push(index_line(files.last()))
    } else {
        index_lines(files.drop_last())
    }
}

/// The index of the memory folder.
pub open spec fn index(files: Option<Seq<NoteView>>) -> Seq<char> {
    match files {
        None => "(none)"@,
        Some(f) => if index_lines(f).len() == 0 {
            "(none)"@
        } else {
            joined(index_lines(f), "\n"@)
        },
    }
}

/// The description that the front matter of a note gives.
pub fn frontmatter_description<'a>(content: &'a str) -> (r: Option<&'a str>)
    ensures
        match r {
            Some(d) => description(content@) == Some(d@),
            None => description(content@) is None,
        },
{
    if !starts_with(content, "---\n") {
        return None;
    }
    let n = content.unicode_len();
    let skip = "---\n".unicode_len();
    let rest = slice(content, skip, n);
    assert(rest@ =~= content@.skip("---\n"@.len() as int));
    let inner = match split_once(rest, "\n---") {
        Some((inner, _)) => inner,
        None => rest,
    };
    match find_line(inner, "description:") {
        Some(line) => {
            let k = "description:".unicode_len();
            let value = slice(line, k, line.unicode_len());
            assert(value@ =~= line@.skip("description:"@.len() as int));
            Some(trim(value))
        },
        None => None,
    }
}

/// The first line of `s` that begins with `p`.
fn find_line<'a>(s: &'a str, p: &str) -> (r: Option<&'a str>)
    ensures
        match r {
            Some(l) => line_with(lines(s@), p@) == Some(l@) && begins(l@, p@),
            None => line_with(lines(s@), p@) is None,
        },
{
    let mut rest = s;
    proof {
        reveal_strlit("\n");
        assert("\n"@ =~= seq!['\n']);
    }
    while rest.unicode_len() > 0
        invariant
            line_with(lines(rest@), p@) == line_with(lines(s@), p@),
            "\n"@ == seq!['\n'],
        decreases rest@.len(),
    {
        let ghost all = lines(rest@);
        proof {
            lemma_found(rest@, seq!['\n']);
        }
        match split_once(rest, "\n") {
            Some((line, next)) => {
                let line = drop_return(line);
                assert(all =~= seq![line@] + lines(next@));
                assert(all.skip(1) =~= lines(next@));
                if starts_with(line, p) {
                    return Some(line);
                }
                rest = next;
            },
            None => {
                assert(all =~= seq![rest@]);
                assert(all.skip(1) =~= seq![]);
                assert(line_with(all.skip(1), p@) is None);
                if starts_with(rest, p) {
                    return Some(rest);
                }
                return None;
            },
        }
    }
    None
}

/// Tells whether the file `name` is a note.
pub fn is_memory_note(name: &str) -> (r: bool)
    ensures
        r == is_note(name@),
{
    match extension_of(name) {
        Some(e) => same(e, "md"),
        None => false,
    }
}

/// The line of the index for a note.
fn describe(note: &Note) -> (r: String)
    ensures
        r@ == index_line(note@),
{
    let mut r = "  src/memory/".to_owned();
    r.append(note.name.as_str());
    r.append(" — ");
    match frontmatter_description(note.text.as_str()) {
        Some(d) => {
            r.append(d);
        },
        None => {
            let first = line_one(note.text.as_str());
            r.append(first_chars(first.as_str(), DESCRIPTION_LIMIT));
        },
    }
    r
}

/// The index of the memory folder, given the files that it holds, or nothing where it cannot be
/// read.
pub fn memory_index(files: &Option<Vec<Note>>) -> (r: String)
    ensures
        r@ == index(
            match files {
                Some(v) => Some(notes_view(v@)),
                None => None,
            },
        ),
{
    match files {
        None => "(none)".to_owned(),
        Some(v) => {
            let mut out: Vec<String> = Vec::new();
            let ghost all = notes_view(v@);
            let mut i: usize = 0;
            assert(texts(out@) =~= index_lines(all.take(0)));
            while i < v.len()
                invariant
                    i <= v.len(),
                    all == notes_view(v@),
                    texts(out@) == index_lines(all.take(i as int)),
                decreases v.len() - i,
            {
                assert(all.take(i + 1).drop_last() =~= all.take(i as int));
                assert(all.take(i + 1).last() == v@[i as int]@);
                if is_memory_note(v[i].name.as_str()) {
                    let line = describe(&v[i]);
                    proof {
                        lemma_texts_push(out@, line);
                    }
                    out.push(line);
                }
                i = i + 1;
            }
            assert(all.take(i as int) =~= all);
            assert(texts(out@).len() == out@.len());
            if out.len() == 0 {
                "(none)".to_owned()
            } else {
                join(&out, "\n")
            }
        },
    }
}

proof fn lemma_line_with(ls: Seq<Seq<char>>, p: Seq<char>, k: int)
    requires
        0 <= k <= ls.len(),
        forall|j: int| 0 <= j < k ==> !begins(#[trigger] ls[j], p),
        k < ls.len() ==> begins(ls[k], p),
    ensures
        line_with(ls, p) == if k < ls.len() {
            Some(ls[k])
        } else {
            None::<Seq<char>>
        },
    decreases k,
{
    if k > 0 {
        assert(!begins(ls[0], p));
        let rest = ls.skip(1);
        assert forall|j: int| 0 <= j < k - 1 implies !begins(#[trigger] rest[j], p) by {
            assert(rest[j] == ls[j + 1]);
        }
        lemma_line_with(rest, p, k - 1);
    }
}

/// A note is described by what follows `description:` on the first line of its front matter that
/// begins so, without white space round it. The front matter lies between two rules of which the
/// first opens the note.
pub proof fn law_description_is_taken(inner: Seq<char>, rest: Seq<char>, k: int)
    requires
        !contains(inner, "\n---"@),
        0 <= k < lines(inner).len(),
        begins(lines(inner)[k], "description:"@),
        forall|j: int| 0 <= j < k ==> !begins(#[trigger] lines(inner)[j], "description:"@),
    ensures
        summary_of("---\n"@ + inner + "\n---"@ + rest) == trimmed(lines(inner)[k].skip(12)),
{
    let content = "---\n"@ + inner + "\n---"@ + rest;
    reveal_strlit("---\n");
    reveal_strlit("\n---");
    reveal_strlit("description:");
    assert(content.take(4) =~= "---\n"@);
    assert(content.skip(4) =~= inner + "\n---"@ + rest);
    lemma_cut_first(inner, "\n---"@, rest);
    lemma_line_with(lines(inner), "description:"@, k);
}

/// A note that gives no description is described by its first line, up to 100 characters of it.
pub proof fn law_first_line_describes(content: Seq<char>)
    requires
        !begins(content, "---\n"@) || !contains(content, "description:"@),
    ensures
        summary_of(content) == if first_line(content).len() <= 100 {
            first_line(content)
        } else {
            first_line(content).take(100)
        },
{
    if begins(content, "---\n"@) {
        let inner = front_matter(content)->0;
        let rest = content.skip("---\n"@.len() as int);
        assert(!contains(rest, "description:"@)) by {
            lemma_part(content, "---\n"@.len() as int, content.len() as int, "description:"@);
            assert(content.subrange("---\n"@.len() as int, content.len() as int) =~= rest);
        }
        if let Some((front, _)) = cut(rest, "\n---"@) {
            lemma_found(rest, "\n---"@);
            lemma_part(rest, 0, front.len() as int, "description:"@);
            assert(rest.subrange(0, front.len() as int) =~= front);
        }
        assert(!contains(inner, "description:"@));
        lemma_lines_are_parts(inner, "description:"@);
        lemma_line_with(lines(inner), "description:"@, lines(inner).len() as int);
    }
}

/// What stands nowhere in a text stands in no part of it.
proof fn lemma_part(s: Seq<char>, i: int, j: int, p: Seq<char>)
    requires
        0 <= i <= j <= s.len(),
        !contains(s, p),
    ensures
        !contains(s.subrange(i, j), p),
{
    let t = s.subrange(i, j);
    lemma_contains(s, p);
    lemma_contains(t, p);
    if contains(t, p) {
        let k = choose|k: int| occurs_at(t, p, k);
        assert(s.subrange(i + k, i + k + p.len()) =~= t.subrange(k, k + p.len()));
        assert(occurs_at(s, p, i + k));
    }
}

proof fn lemma_lines_are_parts(s: Seq<char>, p: Seq<char>)
    requires
        !contains(s, p),
    ensures
        forall|k: int| 0 <= k < lines(s).len() ==> !begins(#[trigger] lines(s)[k], p),
    decreases s.len(),
{
    if s.len() > 0 {
        lemma_found(s, seq!['\n']);
        lemma_contains(s, p);
        match found(s, seq!['\n']) {
            Some(i) => {
                let rest = s.skip(i + 1);
                lemma_part(s, i + 1, s.len() as int, p);
                assert(s.subrange(i + 1, s.len() as int) =~= rest);
                lemma_lines_are_parts(rest, p);
                let first = lines(s)[0];
                assert(first =~= s.take(first.len() as int));
                if begins(first, p) {
                    assert(s.subrange(0, p.len() as int) =~= first.take(p.len() as int));
                    assert(occurs_at(s, p, 0));
                }
                assert forall|k: int| 0 <= k < lines(s).len() implies !begins(
                    #[trigger] lines(s)[k],
                    p,
                ) by {
                    if k > 0 {
                        assert(lines(s)[k] == lines(rest)[k - 1]);
                    }
                }
            },
            None => {
                assert(lines(s) =~= seq![s]);
                if begins(s, p) {
                    assert(s.subrange(0, p.len() as int) =~= s.take(p.len() as int));
                    assert(occurs_at(s, p, 0));
                }
            },
        }
    }
}

/// The index has one line for each note, in the order of the files: where it lies, and what it is
/// about. Other files have none.
pub proof fn law_index_lists_the_notes(files: Seq<NoteView>, file: NoteView)
    ensures
        index_lines(files.push(file)) == if is_note(file.name) {
            index_lines(files).push(
                "  src/memory/"@ + file.name + " — "@ + summary_of(file.text),
            )
        } else {
            index_lines(files)
        },
        index_lines(Seq::<NoteView>::empty()).len() == 0,
        index(None) == "(none)"@,
        index_lines(files).len() == 0 ==> index(Some(files)) == "(none)"@,
        index_lines(files).len() > 0 ==> index(Some(files)) == joined(index_lines(files), "\n"@),
{
    assert(files.push(file).drop_last() =~= files);
}

/// Every note is in the index, with where it lies and what it is about.
pub proof fn law_every_note_is_listed(files: Seq<NoteView>, i: int)
    requires
        0 <= i < files.len(),
        is_note(files[i].name),
    ensures
        index_lines(files).contains(
            "  src/memory/"@ + files[i].name + " — "@ + summary_of(files[i].text),
        ),
    decreases files.len(),
{
    let front = files.drop_last();
    let line = "  src/memory/"@ + files[i].name + " — "@ + summary_of(files[i].text);
    if i < front.len() {
        law_every_note_is_listed(front, i);
        let k = choose|k: int| 0 <= k < index_lines(front).len() && index_lines(front)[k] == line;
        assert(index_lines(files)[k] == line);
    } else {
        assert(index_lines(files)[index_lines(front).len() as int] == line);
    }
}

/// A file whose name ends in `.md` is a note, and one with another extension is none.
pub proof fn law_notes_are_markdown(base: Seq<char>, ext: Seq<char>)
    requires
        base.len() > 0,
        !base.contains('/'),
        ext.len() > 0,
        !ext.contains('/'),
        !ext.contains('.'),
    ensures
        is_note(base + seq!['.'] + ext) <==> ext == "md"@,
{
    let name = base + seq!['.'] + ext;
    assert(name.len() > 2);
    law_extension(base, ext);
}

/// A note whose front matter gives no description is described by its first line as well, whatever
/// stands below the front matter.
pub proof fn law_front_matter_without_description(inner: Seq<char>, rest: Seq<char>)
    requires
        !contains(inner, "\n---"@),
        forall|j: int|
            0 <= j < lines(inner).len() ==> !begins(#[trigger] lines(inner)[j], "description:"@),
    ensures
        ({
            let content = "---\n"@ + inner + "\n---"@ + rest;
            summary_of(content) == if first_line(content).len() <= 100 {
                first_line(content)
            } else {
                first_line(content).take(100)
            }
        }),
{
    let content = "---\n"@ + inner + "\n---"@ + rest;
    reveal_strlit("---\n");
    reveal_strlit("\n---");
    assert(content.take(4) =~= "---\n"@);
    assert(content.skip(4) =~= inner + "\n---"@ + rest);
    lemma_cut_first(inner, "\n---"@, rest);
    lemma_line_with(lines(inner), "description:"@, lines(inner).len() as int);
}

/// Front matter that no second rule ends goes on to the end of the note.
pub proof fn law_open_front_matter(inner: Seq<char>, k: int)
    requires
        !contains(inner, "\n---"@),
        0 <= k < lines(inner).len(),
        begins(lines(inner)[k], "description:"@),
        forall|j: int| 0 <= j < k ==> !begins(#[trigger] lines(inner)[j], "description:"@),
    ensures
        summary_of("---\n"@ + inner) == trimmed(lines(inner)[k].skip(12)),
{
    let content = "---\n"@ + inner;
    reveal_strlit("---\n");
    reveal_strlit("description:");
    assert(content.take(4) =~= "---\n"@);
    assert(content.skip(4) =~= inner);
    lemma_line_with(lines(inner), "description:"@, k);
}

} // verus!
