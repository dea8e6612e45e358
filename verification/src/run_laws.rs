//! What tool calls are for: from the text of a reply to what the files hold and what is replied.

use crate::effect::{EffectView, EventView, OutputView};
use crate::json::Tree;
use crate::number::{decimal, is_digit, lemma_all_digits, signed_decimal};
use crate::paths::{deletable, evolvable, law_backup_name, stem, SELF_PATH};
use crate::run::{
    at, build_failed, build_text, effects, held, law_failed_build_is_taken_back,
    law_write_takes_effect, patched_state, rewrite_answers, tool_next, tool_start, top_line,
    write_answers, ToolStage, ToolState, ToolStepView,
};
use crate::text::{
    begins, contains, cut, ends, head, law_cutting, lemma_contains, lemma_cut_first,
    lemma_no_cut_last_char, occurs_at, trimmed, white,
};
use crate::tool::{clamped, law_call_reads_back, law_range_reads_back, path_range, tool_call};
use vstd::prelude::*;
use vstd::string::*;

verus! {

/// What a tool call replies when the outside answers with `events`, and ends with the last.
pub open spec fn replied(step: ToolStepView, events: Seq<EventView>) -> Option<Seq<char>>
    decreases events.len(),
{
    match step {
        ToolStepView::Reply(r) => if events.len() == 0 {
            Some(r)
        } else {
            None
        },
        ToolStepView::Act(s, _) => if events.len() == 0 {
            None
        } else {
            replied(tool_next(s, events[0]), events.skip(1))
        },
    }
}

/// A text that can be written into a call: it begins and ends with no white space, and neither
/// ends the call nor begins a code fence.
pub open spec fn writable(body: Seq<char>) -> bool {
    &&& body.len() > 0
    &&& !white(body[0])
    &&& !white(body.last())
    &&& !contains(body, "</tool>"@)
    &&& !begins(body, "```"@)
}

/// A reply that calls the tool `write_file`, with the given first line and the text below it.
pub open spec fn write_call(
    before: Seq<char>,
    line: Seq<char>,
    content: Seq<char>,
    after: Seq<char>,
) -> Seq<char> {
    before + "<tool name=\""@ + "write_file"@ + "\">"@ + (line + "\n"@ + content) + "</tool>"@
        + after
}

proof fn lemma_newline_cut(line: Seq<char>, content: Seq<char>)
    requires
        !line.contains('\n'),
    ensures
        cut(line + "\n"@ + content, "\n"@) == Some((line, content)),
{
    reveal_strlit("\n");
    lemma_contains(line, "\n"@);
    assert forall|i: int| !occurs_at(line, "\n"@, i) by {
        if occurs_at(line, "\n"@, i) {
            assert(line.subrange(i, i + 1)[0] == '\n');
            assert(line[i] == '\n');
        }
    }
    lemma_cut_first(line, "\n"@, content);
}

proof fn lemma_trimmed_id(s: Seq<char>)
    requires
        s.len() > 0,
        !white(s[0]),
        !white(s.last()),
    ensures
        trimmed(s) == s,
{
}

/// A call to write is found again, and its first line tells the path and the range.
proof fn lemma_write_call(
    before: Seq<char>,
    line: Seq<char>,
    content: Seq<char>,
    after: Seq<char>,
)
    requires
        !contains(before, "<tool name=\""@),
        line.len() > 0,
        !white(line[0]),
        !white(line.last()),
        !line.contains('\n'),
        writable(line + "\n"@ + content),
    ensures
        tool_call(write_call(before, line, content, after)) == Some(
            ("write_file"@, line + "\n"@ + content),
        ),
        top_line(line + "\n"@ + content) == (line, Some(content)),
        trimmed(line) == line,
{
    reveal_strlit("write_file");
    law_call_reads_back(before, "write_file"@, line + "\n"@ + content, after);
    lemma_newline_cut(line, content);
    lemma_trimmed_id(line);
}

/// How a call to write begins, by its path and range.
proof fn lemma_write_begins(
    text: Seq<char>,
    body: Seq<char>,
    evolve: Option<Seq<char>>,
    out_dir: Option<Seq<char>>,
)
    requires
        tool_call(text) == Some(("write_file"@, body)),
        top_line(body).1 is Some,
        evolve matches Some(guide) ==> evolvable(path_range(trimmed(top_line(body).0)).0, guide),
    ensures
        ({
            let (path, range) = path_range(trimmed(top_line(body).0));
            let s = ToolState {
                range,
                content: top_line(body).1->0,
                ..at(ToolStage::Folder, path)
            };
            tool_start(text, evolve, out_dir) == Some(
                if evolve is Some && stem(path) is Some {
                    ToolStepView::Act(
                        ToolState { stage: ToolStage::Keeping, ..s },
                        EffectView::Backup { path },
                    )
                } else {
                    ToolStepView::Act(s, EffectView::MakeParent { path })
                },
            )
        }),
{
    reveal_strlit("bash");
    reveal_strlit("write_file");
    assert("bash"@.len() == 4 && "write_file"@.len() == 10);
}

/// A backup before the write neither changes what the file holds nor what is replied.
proof fn lemma_backup_first(s: ToolState, before: Seq<char>, events: Seq<EventView>)
    requires
        s.stage == ToolStage::Folder,
    ensures
        ({
            let kept = ToolStepView::Act(
                ToolState { stage: ToolStage::Keeping, ..s },
                EffectView::Backup { path: s.path },
            );
            let plain = ToolStepView::Act(s, EffectView::MakeParent { path: s.path });
            let all = seq![EventView::Done] + events;
            &&& held(before, s.path, effects(kept, all)) == held(
                before,
                s.path,
                effects(plain, events),
            )
            &&& replied(kept, all) == replied(plain, events)
            &&& effects(plain, events).len() > 0 ==> effects(kept, all).last() == effects(
                plain,
                events,
            ).last()
        }),
{
    let kept = ToolStepView::Act(
        ToolState { stage: ToolStage::Keeping, ..s },
        EffectView::Backup { path: s.path },
    );
    let plain = ToolStepView::Act(s, EffectView::MakeParent { path: s.path });
    let all = seq![EventView::Done] + events;
    assert(all.skip(1) =~= events);
    let done = effects(kept, all);
    assert(done =~= seq![EffectView::Backup { path: s.path }] + effects(plain, events));
    assert(done.skip(1) =~= effects(plain, events));
}

/// A tool call goes on with its first answer.
proof fn lemma_goes_on(s: ToolState, effect: EffectView, event: EventView, rest: Seq<EventView>)
    ensures
        replied(ToolStepView::Act(s, effect), seq![event] + rest) == replied(
            tool_next(s, event),
            rest,
        ),
        effects(ToolStepView::Act(s, effect), seq![event] + rest) == seq![effect] + effects(
            tool_next(s, event),
            rest,
        ),
{
    let events = seq![event] + rest;
    assert(events.skip(1) =~= rest);
    assert(events[0] == event);
}

/// A tool call that has logged its outcome replies.
proof fn lemma_logged(s: ToolState, effect: EffectView)
    requires
        s.stage == ToolStage::Logged,
    ensures
        replied(ToolStepView::Act(s, effect), seq![EventView::Done]) == Some(s.reply),
{
    let none = Seq::<EventView>::empty();
    assert(seq![EventView::Done] =~= seq![EventView::Done] + none);
    lemma_goes_on(s, effect, EventView::Done, none);
    assert(tool_next(s, EventView::Done) == ToolStepView::Reply(s.reply));
}

/// A file is written, then the write is logged, then the model is told.
proof fn lemma_settled_reply(s: ToolState, effect: EffectView)
    requires
        s.stage == ToolStage::Plain,
    ensures
        replied(ToolStepView::Act(s, effect), seq![EventView::Done, EventView::Done]) == Some(
            "<tool_result>"@ + ("written "@ + s.path) + "</tool_result>"@,
        ),
{
    let e = EventView::Done;
    let logged = ToolState {
        stage: ToolStage::Logged,
        reply: "<tool_result>"@ + ("written "@ + s.path) + "</tool_result>"@,
        ..s
    };
    assert(seq![e, e] =~= seq![e] + seq![e]);
    lemma_goes_on(s, effect, e, seq![e]);
    let log = tool_next(s, e)->Act_1;
    assert(tool_next(s, e) == ToolStepView::Act(logged, log));
    lemma_logged(logged, log);
}

proof fn lemma_plain_reply(s: ToolState, before: Seq<char>)
    requires
        s.stage == ToolStage::Folder,
        s.path != SELF_PATH@,
    ensures
        replied(
            ToolStepView::Act(s, EffectView::MakeParent { path: s.path }),
            write_answers(s.range is Some, before),
        ) == Some("<tool_result>"@ + ("written "@ + s.path) + "</tool_result>"@),
{
    let answers = write_answers(s.range is Some, before);
    let first = EffectView::MakeParent { path: s.path };
    let e = EventView::Done;
    if s.range is Some {
        let read = EventView::Text(Ok(before));
        let patching = ToolState { stage: ToolStage::Patch, ..s };
        let look = EffectView::ReadText { path: s.path };
        let plain = ToolState { stage: ToolStage::Plain, ..patched_state(patching, before) };
        let write = EffectView::WriteText { path: s.path, text: plain.content };
        assert(answers =~= seq![e] + (seq![read] + seq![e, e]));
        lemma_goes_on(s, first, e, seq![read] + seq![e, e]);
        assert(tool_next(s, e) == ToolStepView::Act(patching, look));
        lemma_goes_on(patching, look, read, seq![e, e]);
        assert(tool_next(patching, read) == ToolStepView::Act(plain, write));
        lemma_settled_reply(plain, write);
    } else {
        let plain = ToolState { stage: ToolStage::Plain, ..s };
        let write = EffectView::WriteText { path: s.path, text: s.content };
        assert(answers =~= seq![e] + seq![e, e]);
        lemma_goes_on(s, first, e, seq![e, e]);
        assert(tool_next(s, e) == ToolStepView::Act(plain, write));
        lemma_settled_reply(plain, write);
    }
}

/// What the log says of a write.
pub open spec fn write_log(path: Seq<char>) -> EffectView {
    EffectView::Log {
        kind: "tool_result"@,
        data: Tree::Fields(
            Map::empty().insert("tool"@, Tree::Text("write_file"@)).insert("path"@, Tree::Text(path)),
        ),
    }
}

proof fn lemma_plain_effects(s: ToolState, before: Seq<char>)
    requires
        s.stage == ToolStage::Folder,
        s.path != SELF_PATH@,
    ensures
        ({
            let done = effects(
                ToolStepView::Act(s, EffectView::MakeParent { path: s.path }),
                write_answers(s.range is Some, before),
            );
            done.len() > 0 && done.last() == write_log(s.path)
        }),
{
    let answers = write_answers(s.range is Some, before);
    let first = EffectView::MakeParent { path: s.path };
    let e = EventView::Done;
    let none = Seq::<EventView>::empty();
    let plain = if s.range is Some {
        ToolState {
            stage: ToolStage::Plain,
            ..patched_state(ToolState { stage: ToolStage::Patch, ..s }, before)
        }
    } else {
        ToolState { stage: ToolStage::Plain, ..s }
    };
    let write = EffectView::WriteText { path: s.path, text: plain.content };
    if s.range is Some {
        let read = EventView::Text(Ok(before));
        let patching = ToolState { stage: ToolStage::Patch, ..s };
        let look = EffectView::ReadText { path: s.path };
        assert(answers =~= seq![e] + (seq![read] + seq![e, e]));
        lemma_goes_on(s, first, e, seq![read] + seq![e, e]);
        assert(tool_next(s, e) == ToolStepView::Act(patching, look));
        lemma_goes_on(patching, look, read, seq![e, e]);
        assert(tool_next(patching, read) == ToolStepView::Act(plain, write));
    } else {
        assert(answers =~= seq![e] + seq![e, e]);
        lemma_goes_on(s, first, e, seq![e, e]);
        assert(tool_next(s, e) == ToolStepView::Act(plain, write));
    }
    assert(seq![e, e] =~= seq![e] + seq![e]);
    lemma_goes_on(plain, write, e, seq![e]);
    let logged = tool_next(plain, e)->Act_0;
    assert(tool_next(plain, e) == ToolStepView::Act(logged, write_log(s.path)));
    assert(seq![e] =~= seq![e] + none);
    lemma_goes_on(logged, write_log(s.path), e, none);
    assert(effects(tool_next(logged, e), none) =~= seq![]);
}

/// How the outside answers a write: with the backup first, where there is one.
pub open spec fn all_answers(backup: bool, answers: Seq<EventView>) -> Seq<EventView> {
    if backup {
        seq![EventView::Done] + answers
    } else {
        answers
    }
}

/// A reply that calls `write_file` with a path and a text below it leaves the file with exactly
/// that text, all of it, and the model is told that it was written. The path is any but that of
/// the agent's own source, and one that may evolve while the agent evolves.
pub proof fn law_written_text_is_held(
    before: Seq<char>,
    path: Seq<char>,
    content: Seq<char>,
    after: Seq<char>,
    evolve: Option<Seq<char>>,
    out_dir: Option<Seq<char>>,
    old_text: Seq<char>,
)
    requires
        !contains(before, "<tool name=\""@),
        path.len() > 0,
        !white(path[0]),
        !white(path.last()),
        !path.contains('\n'),
        !path.contains(' '),
        path != "src/main.rs"@,
        writable(path + "\n"@ + content),
        evolve matches Some(guide) ==> evolvable(path, guide),
    ensures
        ({
            let step = tool_start(write_call(before, path, content, after), evolve, out_dir);
            let done = EventView::Done;
            let answers = all_answers(
                evolve is Some && stem(path) is Some,
                seq![done, done, done],
            );
            &&& step is Some
            &&& held(old_text, path, effects(step->0, answers)) == content
            &&& effects(step->0, answers).len() > 0
            &&& effects(step->0, answers).last() == write_log(path)
            &&& replied(step->0, answers) == Some(
                "<tool_result>"@ + ("written "@ + path) + "</tool_result>"@,
            )
        }),
{
    let text = write_call(before, path, content, after);
    let body = path + "\n"@ + content;
    lemma_write_call(before, path, content, after);
    reveal_strlit(" ");
    assert(" "@ =~= seq![' ']);
    lemma_no_cut_last_char(path, ' ');
    assert(path_range(path) == (path, None::<(nat, nat)>));
    lemma_write_begins(text, body, evolve, out_dir);
    let s = ToolState { range: None, content, ..at(ToolStage::Folder, path) };
    law_write_takes_effect(s, old_text);
    lemma_plain_reply(s, old_text);
    lemma_plain_effects(s, old_text);
    lemma_backup_first(s, old_text, write_answers(false, old_text));
}

/// The part of a range that lies within a text of `total` characters. It is empty where the range
/// ends before it starts.
pub open spec fn within(range: (nat, nat), total: nat) -> (int, int) {
    let start = if range.0 <= total {
        range.0 as int
    } else {
        total as int
    };
    let end = if range.1 <= total {
        range.1 as int
    } else {
        total as int
    };
    (
        start,
        if start <= end {
            end
        } else {
            start
        },
    )
}

/// A reply that calls `write_file` with a range behind the path replaces just the characters of
/// that range by the text, all of it.
pub proof fn law_patched_text_is_held(
    before: Seq<char>,
    path: Seq<char>,
    range: (nat, nat),
    content: Seq<char>,
    after: Seq<char>,
    evolve: Option<Seq<char>>,
    out_dir: Option<Seq<char>>,
    old_text: Seq<char>,
)
    requires
        !contains(before, "<tool name=\""@),
        path.len() > 0,
        !white(path[0]),
        !path.contains('\n'),
        path != "src/main.rs"@,
        range.0 <= usize::MAX,
        range.1 <= usize::MAX,
        writable(
            (path + " "@ + (decimal(range.0) + ".."@ + decimal(range.1))) + "\n"@ + content,
        ),
        evolve matches Some(guide) ==> evolvable(path, guide),
    ensures
        ({
            let line = path + " "@ + (decimal(range.0) + ".."@ + decimal(range.1));
            let step = tool_start(write_call(before, line, content, after), evolve, out_dir);
            let done = EventView::Done;
            let answers = all_answers(
                evolve is Some && stem(path) is Some,
                seq![done, EventView::Text(Ok(old_text)), done, done],
            );
            &&& step is Some
            &&& held(old_text, path, effects(step->0, answers)) == old_text.take(
                within(range, old_text.len()).0,
            ) + content + old_text.skip(within(range, old_text.len()).1)
            &&& effects(step->0, answers).len() > 0
            &&& effects(step->0, answers).last() == write_log(path)
            &&& replied(step->0, answers) == Some(
                "<tool_result>"@ + ("written "@ + path) + "</tool_result>"@,
            )
        }),
{
    let line = path + " "@ + (decimal(range.0) + ".."@ + decimal(range.1));
    let text = write_call(before, line, content, after);
    let body = line + "\n"@ + content;
    reveal_strlit(" ");
    reveal_strlit("..");
    lemma_all_digits(range.0);
    lemma_all_digits(range.1);
    assert(line[0] == path[0]);
    let last = decimal(range.1).last();
    assert(is_digit(decimal(range.1)[decimal(range.1).len() - 1]));
    assert(line.last() == last);
    assert(!line.contains('\n')) by {
        assert forall|i: int| 0 <= i < line.len() implies line[i] != '\n' by {
            let k = path.len() as int + 1;
            let a = decimal(range.0);
            if i < path.len() {
                assert(line[i] == path[i]);
            } else if i >= k && i < k + a.len() {
                assert(is_digit(a[i - k]));
            } else if i >= k + a.len() + 2 {
                assert(is_digit(decimal(range.1)[i - k - a.len() - 2]));
            }
        }
    }
    lemma_write_call(before, line, content, after);
    law_range_reads_back(path, range.0, range.1);
    lemma_write_begins(text, body, evolve, out_dir);
    let s = ToolState { range: Some(range), content, ..at(ToolStage::Folder, path) };
    law_write_takes_effect(s, old_text);
    lemma_plain_reply(s, old_text);
    lemma_plain_effects(s, old_text);
    lemma_backup_first(s, old_text, write_answers(true, old_text));
}

proof fn lemma_rewrite_reply(
    s: ToolState,
    before: Seq<char>,
    out: Result<OutputView, Seq<char>>,
)
    requires
        s.stage == ToolStage::Folder,
        s.path == SELF_PATH@,
        s.range is None,
        s.content.len() > 0,
    ensures
        replied(
            ToolStepView::Act(s, EffectView::MakeParent { path: s.path }),
            if build_failed(out) {
                rewrite_answers(false, before, out)
            } else {
                rewrite_answers(false, before, out).drop_last()
            },
        ) == Some(
            "<tool_result>"@ + (if build_failed(out) {
                "REJECTED (build failed, reverted):\n"@ + head(build_text(out), 400)
            } else {
                "written and verified OK"@
            }) + "</tool_result>"@,
        ),
{
    let e = EventView::Done;
    let r = EventView::Text(Ok(before));
    let o = EventView::Output(out);
    let all = rewrite_answers(false, before, out);
    assert(all =~= seq![e, r, e, o, e, e]);
    let answers = if build_failed(out) {
        all
    } else {
        all.drop_last()
    };
    let rest = if build_failed(out) {
        seq![e, e]
    } else {
        seq![e]
    };
    let look = EffectView::ReadText { path: s.path };
    let saving = ToolState { stage: ToolStage::Saving, ..s };
    let trying = ToolState { stage: ToolStage::Trying, saved: before, ..s };
    let write = EffectView::WriteText { path: s.path, text: s.content };
    let building = ToolState { stage: ToolStage::Building, ..trying };
    assert(answers =~= seq![e] + (seq![r] + (seq![e] + (seq![o] + rest))));
    lemma_goes_on(s, EffectView::MakeParent { path: s.path }, e, seq![r] + (seq![e] + (seq![o] + rest)));
    assert(tool_next(s, e) == ToolStepView::Act(saving, look));
    lemma_goes_on(saving, look, r, seq![e] + (seq![o] + rest));
    assert(tool_next(saving, r) == ToolStepView::Act(trying, write));
    lemma_goes_on(trying, write, e, seq![o] + rest);
    assert(tool_next(trying, e) == ToolStepView::Act(building, EffectView::Build));
    lemma_goes_on(building, EffectView::Build, o, rest);
    if build_failed(out) {
        let note = "REJECTED (build failed, reverted):\n"@ + head(build_text(out), 400);
        let restoring = ToolState { stage: ToolStage::Restoring, content: note, ..building };
        let back = EffectView::WriteText { path: s.path, text: before };
        assert(tool_next(building, o) == ToolStepView::Act(restoring, back));
        assert(rest =~= seq![e] + seq![e]);
        lemma_goes_on(restoring, back, e, seq![e]);
        let logged = ToolState {
            stage: ToolStage::Logged,
            reply: "<tool_result>"@ + note + "</tool_result>"@,
            ..restoring
        };
        let log = tool_next(restoring, e)->Act_1;
        assert(tool_next(restoring, e) == ToolStepView::Act(logged, log));
        lemma_logged(logged, log);
    } else {
        let logged = ToolState {
            stage: ToolStage::Logged,
            reply: "<tool_result>"@ + "written and verified OK"@ + "</tool_result>"@,
            ..building
        };
        let log = tool_next(building, o)->Act_1;
        assert(tool_next(building, o) == ToolStepView::Act(logged, log));
        lemma_logged(logged, log);
    }
}

/// A reply that calls `write_file` for the agent's own source has it built: where the build ends
/// well and prints no error, the file then holds exactly the new text; where it fails, the file
/// holds what it held before, and the model is told so with what the build printed, up to 400
/// characters of it.
pub proof fn law_own_source_is_built(
    before: Seq<char>,
    content: Seq<char>,
    after: Seq<char>,
    evolve: Option<Seq<char>>,
    out_dir: Option<Seq<char>>,
    old_text: Seq<char>,
    out: Result<OutputView, Seq<char>>,
)
    requires
        !contains(before, "<tool name=\""@),
        content.len() > 0,
        writable("src/main.rs"@ + "\n"@ + content),
    ensures
        ({
            let step = tool_start(
                write_call(before, "src/main.rs"@, content, after),
                evolve,
                out_dir,
            );
            let done = EventView::Done;
            let read = EventView::Text(Ok(old_text));
            let built = EventView::Output(out);
            let good = match out {
                Ok(o) => o.code == Some(0i32) && !contains(o.stdout + o.stderr, "error["@)
                    && !contains(o.stdout + o.stderr, "error: "@),
                Err(_) => false,
            };
            let printed = match out {
                Ok(o) => o.stdout + o.stderr,
                Err(e) => e,
            };
            let shown = if printed.len() <= 400 {
                printed
            } else {
                printed.take(400)
            };
            let answers = all_answers(
                evolve is Some,
                if good {
                    seq![done, read, done, built, done]
                } else {
                    seq![done, read, done, built, done, done]
                },
            );
            &&& step is Some
            &&& good ==> held(old_text, "src/main.rs"@, effects(step->0, answers)) == content
            &&& !good ==> held(old_text, "src/main.rs"@, effects(step->0, answers)) == old_text
            &&& good ==> replied(step->0, answers) == Some(
                "<tool_result>"@ + "written and verified OK"@ + "</tool_result>"@,
            )
            &&& !good ==> replied(step->0, answers) == Some(
                "<tool_result>"@ + ("REJECTED (build failed, reverted):\n"@ + shown)
                    + "</tool_result>"@,
            )
            &&& effects(step->0, answers).contains(EffectView::Build)
        }),
{
    let path = "src/main.rs"@;
    let text = write_call(before, path, content, after);
    let body = path + "\n"@ + content;
    reveal_strlit("src/main.rs");
    reveal_strlit("src/");
    reveal_strlit(".bak");
    reveal_strlit(" ");
    assert(" "@ =~= seq![' ']);
    lemma_write_call(before, path, content, after);
    lemma_no_cut_last_char(path, ' ');
    assert(path_range(path) == (path, None::<(nat, nat)>));
    assert(begins(path, "src/"@)) by {
        assert(path.take(4) =~= "src/"@);
    }
    assert(!ends(path, ".bak"@)) by {
        assert(path.last() == 's');
        assert(".bak"@.last() == 'k');
        if ends(path, ".bak"@) {
            assert(path.skip(path.len() - 4).last() == path.last());
        }
    }
    reveal_strlit("main");
    reveal_strlit("rs");
    reveal_strlit(".");
    assert(path =~= "src/"@ + "main"@ + "."@ + "rs"@);
    law_backup_name("src/"@, "main"@, "rs"@, 0);
    lemma_write_begins(text, body, evolve, out_dir);
    let s = ToolState { range: None, content, ..at(ToolStage::Folder, path) };
    law_failed_build_is_taken_back(s, old_text, out);
    lemma_rewrite_reply(s, old_text, out);
    let e = EventView::Done;
    let r = EventView::Text(Ok(old_text));
    let o = EventView::Output(out);
    let all = rewrite_answers(false, old_text, out);
    assert(all =~= seq![e, r, e, o, e, e]);
    let used = if build_failed(out) {
        all
    } else {
        all.drop_last()
    };
    assert(all.drop_last() =~= seq![e, r, e, o, e]);
    let plain = ToolStepView::Act(s, EffectView::MakeParent { path });
    lemma_rewrite_effects(s, old_text, out);
    lemma_backup_first(s, old_text, used);
    let step = tool_start(text, evolve, out_dir)->0;
    if evolve is Some {
        let done = effects(step, seq![e] + used);
        assert((seq![e] + used).skip(1) =~= used);
        assert(done =~= seq![EffectView::Backup { path }] + effects(plain, used));
        let i = choose|i: int|
            0 <= i < effects(plain, used).len() && effects(plain, used)[i] == EffectView::Build;
        assert(done[i + 1] == EffectView::Build);
    }
}

/// Taking back nothing, a good build ends an event earlier, with the same effects.
proof fn lemma_rewrite_effects(s: ToolState, before: Seq<char>, out: Result<OutputView, Seq<char>>)
    requires
        s.stage == ToolStage::Folder,
        s.path == SELF_PATH@,
        s.range is None,
        s.content.len() > 0,
    ensures
        ({
            let plain = ToolStepView::Act(s, EffectView::MakeParent { path: s.path });
            let all = rewrite_answers(false, before, out);
            let used = if build_failed(out) {
                all
            } else {
                all.drop_last()
            };
            &&& effects(plain, used) == effects(plain, all)
            &&& effects(plain, used).contains(EffectView::Build)
        }),
{
    reveal_with_fuel(effects, 8);
    let e = EventView::Done;
    let r = EventView::Text(Ok(before));
    let o = EventView::Output(out);
    let all = rewrite_answers(false, before, out);
    assert(all =~= seq![e, r, e, o, e, e]);
    let used = if build_failed(out) {
        all
    } else {
        all.drop_last()
    };
    assert(all.skip(1) =~= seq![r, e, o, e, e]);
    assert(all.skip(1).skip(1) =~= seq![e, o, e, e]);
    assert(all.skip(1).skip(1).skip(1) =~= seq![o, e, e]);
    assert(all.skip(1).skip(1).skip(1).skip(1) =~= seq![e, e]);
    assert(all.skip(1).skip(1).skip(1).skip(1).skip(1) =~= seq![e]);
    let cut_short = all.drop_last();
    assert(cut_short.skip(1) =~= seq![r, e, o, e]);
    assert(cut_short.skip(1).skip(1) =~= seq![e, o, e]);
    assert(cut_short.skip(1).skip(1).skip(1) =~= seq![o, e]);
    assert(cut_short.skip(1).skip(1).skip(1).skip(1) =~= seq![e]);
    assert(cut_short.skip(1).skip(1).skip(1).skip(1).skip(1) =~= seq![]);
    let plain = ToolStepView::Act(s, EffectView::MakeParent { path: s.path });
    assert(effects(plain, used) =~= effects(plain, all));
    assert(effects(plain, used)[3] == EffectView::Build);
}

/// A call to `bash` runs its body, whole, and the model is told the exit code and all that the
/// command printed, up to 2000 characters.
pub proof fn law_command_is_run(
    text: Seq<char>,
    body: Seq<char>,
    evolve: Option<Seq<char>>,
    out_dir: Option<Seq<char>>,
    out: Result<OutputView, Seq<char>>,
)
    requires
        tool_call(text) == Some(("bash"@, body)),
    ensures
        ({
            let step = tool_start(text, evolve, out_dir);
            let all = match out {
                Ok(o) => "exit="@ + signed_decimal(
                    match o.code {
                        Some(c) => c as int,
                        None => -1,
                    },
                ) + "\n"@ + o.stdout + o.stderr,
                Err(e) => "error: "@ + e,
            };
            let shown = if all.len() <= 2000 {
                all
            } else {
                all.take(2000)
            };
            let answers = seq![EventView::Output(out), EventView::Done];
            &&& step is Some
            &&& effects(step->0, answers) == seq![
                EffectView::Shell { command: body },
                EffectView::Log {
                    kind: "tool_result"@,
                    data: Tree::Fields(
                        Map::empty().insert("tool"@, Tree::Text("bash"@)).insert(
                            "result"@,
                            Tree::Text(shown),
                        ),
                    ),
                },
            ]
            &&& replied(step->0, answers) == Some("<tool_result>"@ + shown + "</tool_result>"@)
        }),
{
    let step = tool_start(text, evolve, out_dir)->0;
    let e = EventView::Done;
    let o = EventView::Output(out);
    let s = at(ToolStage::Shell, seq![]);
    let shell = EffectView::Shell { command: body };
    assert(step == ToolStepView::Act(s, shell));
    lemma_two_steps(s, shell, o);
}

/// A tool call that logs its outcome after the first answer replies after the second.
proof fn lemma_two_steps(s: ToolState, effect: EffectView, event: EventView)
    requires
        tool_next(s, event) matches ToolStepView::Act(next, _) && next.stage == ToolStage::Logged,
    ensures
        ({
            let next = tool_next(s, event)->Act_0;
            let log = tool_next(s, event)->Act_1;
            let answers = seq![event, EventView::Done];
            &&& effects(ToolStepView::Act(s, effect), answers) == seq![effect, log]
            &&& replied(ToolStepView::Act(s, effect), answers) == Some(next.reply)
        }),
{
    let e = EventView::Done;
    let none = Seq::<EventView>::empty();
    let next = tool_next(s, event)->Act_0;
    let log = tool_next(s, event)->Act_1;
    assert(seq![event, e] =~= seq![event] + seq![e]);
    lemma_goes_on(s, effect, event, seq![e]);
    lemma_logged(next, log);
    assert(seq![e] =~= seq![e] + none);
    lemma_goes_on(next, log, e, none);
    assert(effects(tool_next(next, e), none) =~= seq![]);
    assert(effects(ToolStepView::Act(s, effect), seq![event, e]) =~= seq![effect, log]);
}

/// A tool call that replies after the first answer.
proof fn lemma_one_step(s: ToolState, effect: EffectView, event: EventView)
    requires
        tool_next(s, event) is Reply,
    ensures
        effects(ToolStepView::Act(s, effect), seq![event]) == seq![effect],
        replied(ToolStepView::Act(s, effect), seq![event]) == Some(tool_next(s, event)->Reply_0),
{
    let none = Seq::<EventView>::empty();
    assert(seq![event] =~= seq![event] + none);
    lemma_goes_on(s, effect, event, none);
    assert(effects(tool_next(s, event), none) =~= seq![]);
    assert(effects(ToolStepView::Act(s, effect), seq![event]) =~= seq![effect]);
}

/// What a call to read shows of a text: the characters from `start` to `end` and, where more
/// follow, how many they are and the call that goes on with the next 16000 of them.
pub open spec fn shown_part(path: Seq<char>, content: Seq<char>, start: int, end: int) -> Seq<char> {
    let total = content.len() as int;
    let next = if end + 16000 < total {
        end + 16000
    } else {
        total
    };
    if end < total {
        content.subrange(start, end) + "\n["@ + decimal((total - end) as nat)
            + " chars remaining — use read_file "@ + path + " "@ + decimal(end as nat) + ".."@
            + decimal(next as nat) + "]"@
    } else {
        content.subrange(start, end)
    }
}

/// A call to `read_file` with a path alone reads that file and shows the model its first 16000
/// characters, or all of it.
pub proof fn law_file_is_shown(
    text: Seq<char>,
    path: Seq<char>,
    evolve: Option<Seq<char>>,
    out_dir: Option<Seq<char>>,
    content: Seq<char>,
    error: Seq<char>,
)
    requires
        tool_call(text) == Some(("read_file"@, path)),
        path.len() > 0,
        !white(path[0]),
        !white(path.last()),
        !path.contains(' '),
    ensures
        ({
            let step = tool_start(text, evolve, out_dir);
            let end = if content.len() <= 16000 {
                content.len() as int
            } else {
                16000
            };
            let answers = seq![EventView::Text(Ok(content)), EventView::Done];
            let failed = seq![EventView::Text(Err(error))];
            &&& step is Some
            &&& effects(step->0, answers) == seq![
                EffectView::ReadText { path },
                EffectView::Log {
                    kind: "tool_result"@,
                    data: Tree::Fields(
                        Map::empty().insert("tool"@, Tree::Text("read_file"@)).insert(
                            "path"@,
                            Tree::Text(path),
                        ).insert("range"@, Tree::Text(decimal(0) + ".."@ + decimal(end as nat))),
                    ),
                },
            ]
            &&& replied(step->0, answers) == Some(
                "<tool_result>"@ + shown_part(path, content, 0, end) + "</tool_result>"@,
            )
            &&& effects(step->0, failed) == seq![EffectView::ReadText { path }]
            &&& replied(step->0, failed) == Some(
                "<tool_result>"@ + ("ERROR reading "@ + path + ": "@ + error)
                    + "</tool_result>"@,
            )
        }),
{
    lemma_read_begins(text, path, evolve, out_dir);
    lemma_trimmed_id(path);
    reveal_strlit(" ");
    assert(" "@ =~= seq![' ']);
    lemma_no_cut_last_char(path, ' ');
    assert(path_range(path) == (path, None::<(nat, nat)>));
    let s = at(ToolStage::Reading, path);
    let look = EffectView::ReadText { path };
    lemma_two_steps(s, look, EventView::Text(Ok(content)));
    lemma_one_step(s, look, EventView::Text(Err(error)));
}

proof fn lemma_read_begins(
    text: Seq<char>,
    body: Seq<char>,
    evolve: Option<Seq<char>>,
    out_dir: Option<Seq<char>>,
)
    requires
        tool_call(text) == Some(("read_file"@, body)),
    ensures
        ({
            let (path, range) = path_range(trimmed(body));
            tool_start(text, evolve, out_dir) == Some(
                ToolStepView::Act(
                    ToolState { range, ..at(ToolStage::Reading, path) },
                    EffectView::ReadText { path },
                ),
            )
        }),
{
    reveal_strlit("bash");
    reveal_strlit("write_file");
    reveal_strlit("delete_file");
    reveal_strlit("read_file");
    assert("bash"@.len() == 4 && "write_file"@.len() == 10 && "delete_file"@.len() == 11);
    assert("read_file"@.len() == 9);
}

/// A call to `read_file` with a range behind the path shows the model just the characters of that
/// range.
pub proof fn law_range_is_shown(
    text: Seq<char>,
    path: Seq<char>,
    range: (nat, nat),
    evolve: Option<Seq<char>>,
    out_dir: Option<Seq<char>>,
    content: Seq<char>,
)
    requires
        tool_call(text) == Some(
            ("read_file"@, path + " "@ + (decimal(range.0) + ".."@ + decimal(range.1))),
        ),
        path.len() > 0,
        !white(path[0]),
        range.0 <= usize::MAX,
        range.1 <= usize::MAX,
    ensures
        ({
            let step = tool_start(text, evolve, out_dir);
            let answers = seq![EventView::Text(Ok(content)), EventView::Done];
            let (start, end) = within(range, content.len());
            &&& step is Some
            &&& effects(step->0, answers) == seq![
                EffectView::ReadText { path },
                EffectView::Log {
                    kind: "tool_result"@,
                    data: Tree::Fields(
                        Map::empty().insert("tool"@, Tree::Text("read_file"@)).insert(
                            "path"@,
                            Tree::Text(path),
                        ).insert(
                            "range"@,
                            Tree::Text(decimal(start as nat) + ".."@ + decimal(end as nat)),
                        ),
                    ),
                },
            ]
            &&& replied(step->0, answers) == Some(
                "<tool_result>"@ + shown_part(path, content, start, end) + "</tool_result>"@,
            )
        }),
{
    let body = path + " "@ + (decimal(range.0) + ".."@ + decimal(range.1));
    lemma_read_begins(text, body, evolve, out_dir);
    lemma_all_digits(range.1);
    reveal_strlit(" ");
    reveal_strlit("..");
    assert(is_digit(decimal(range.1)[decimal(range.1).len() - 1]));
    assert(body.last() == decimal(range.1).last());
    assert(body[0] == path[0]);
    lemma_trimmed_id(body);
    law_range_reads_back(path, range.0, range.1);
    let s = ToolState { range: Some(range), ..at(ToolStage::Reading, path) };
    lemma_two_steps(s, EffectView::ReadText { path }, EventView::Text(Ok(content)));
}

/// A call to `spawn_agent` starts a sub-agent on the text below its first line, all of it, with
/// the first line as the name of the output in the task's folder, each without white space round
/// it, and the model is told the name of the sub-agent and how to wait for it.
pub proof fn law_agent_is_started(
    text: Seq<char>,
    name: Seq<char>,
    task: Seq<char>,
    evolve: Option<Seq<char>>,
    out_dir: Seq<char>,
    id: Seq<char>,
)
    requires
        tool_call(text) == Some(("spawn_agent"@, name + "\n"@ + task)),
        !name.contains('\n'),
    ensures
        ({
            let step = tool_start(text, evolve, Some(out_dir));
            let out_path = out_dir + "/"@ + trimmed(name);
            let answers = seq![EventView::Started(id), EventView::Done];
            &&& step is Some
            &&& effects(step->0, answers) == seq![
                EffectView::StartAgent { task: trimmed(task), out_path },
                EffectView::Log {
                    kind: "tool_result"@,
                    data: Tree::Fields(
                        Map::empty().insert("tool"@, Tree::Text("spawn_agent"@)).insert(
                            "agent_id"@,
                            Tree::Text(id),
                        ),
                    ),
                },
            ]
            &&& replied(step->0, answers) == Some(
                "<tool_result>"@ + ("spawned "@ + id + " → "@ + out_path
                    + "\nUse <tool name=\"wait_agent\">"@ + id + "</tool> to block."@)
                    + "</tool_result>"@,
            )
        }),
        tool_start(text, evolve, None) is None,
{
    lemma_names_differ();
    lemma_newline_cut(name, task);
    let out_path = out_dir + "/"@ + trimmed(name);
    let s = at(ToolStage::Spawning, out_path);
    let start = EffectView::StartAgent { task: trimmed(task), out_path };
    lemma_two_steps(s, start, EventView::Started(id));
}

proof fn lemma_names_differ()
    ensures
        "bash"@ != "write_file"@ && "bash"@ != "read_file"@ && "bash"@ != "delete_file"@,
        "bash"@ != "spawn_agent"@ && "bash"@ != "wait_agent"@,
        "write_file"@ != "read_file"@ && "write_file"@ != "delete_file"@,
        "write_file"@ != "spawn_agent"@ && "write_file"@ != "wait_agent"@,
        "read_file"@ != "delete_file"@ && "read_file"@ != "spawn_agent"@,
        "read_file"@ != "wait_agent"@,
        "delete_file"@ != "spawn_agent"@ && "delete_file"@ != "wait_agent"@,
        "spawn_agent"@ != "wait_agent"@,
{
    reveal_strlit("bash");
    reveal_strlit("write_file");
    reveal_strlit("read_file");
    reveal_strlit("delete_file");
    reveal_strlit("spawn_agent");
    reveal_strlit("wait_agent");
    assert("bash"@[0] == 'b' && "write_file"@[0] == 'w' && "read_file"@[0] == 'r');
    assert("delete_file"@[0] == 'd' && "spawn_agent"@[0] == 's' && "wait_agent"@[0] == 'w');
    assert("write_file"@[1] == 'r' && "wait_agent"@[1] == 'a');
}

/// A call to `wait_agent` looks the named sub-agent up until it has a result, with a rest of 200
/// milliseconds after each look that finds none, and then tells the model the result, whole.
pub proof fn law_agent_is_awaited(
    text: Seq<char>,
    id: Seq<char>,
    evolve: Option<Seq<char>>,
    out_dir: Seq<char>,
    result: Seq<char>,
    looks: nat,
)
    requires
        tool_call(text) == Some(("wait_agent"@, id)),
        id.len() > 0,
        !white(id[0]),
        !white(id.last()),
    ensures
        ({
            let step = tool_start(text, evolve, Some(out_dir));
            let answers = fruitless(looks) + seq![
                EventView::Polled(Some(result)),
                EventView::Done,
            ];
            &&& step is Some
            &&& replied(step->0, answers) == Some(
                "<tool_result>"@ + ("agent "@ + id + " finished: "@ + result)
                    + "</tool_result>"@,
            )
            &&& effects(step->0, answers) == waits(id, looks) + seq![
                EffectView::PollAgent { agent_id: id },
                EffectView::Log {
                    kind: "tool_result"@,
                    data: Tree::Fields(
                        Map::empty().insert("tool"@, Tree::Text("wait_agent"@)).insert(
                            "agent_id"@,
                            Tree::Text(id),
                        ).insert("result"@, Tree::Text(result)),
                    ),
                },
            ]
        }),
        tool_start(text, evolve, None) is None,
{
    lemma_names_differ();
    lemma_trimmed_id(id);
    lemma_awaited(id, result, looks);
}

/// The answers to looks that find no result, each with the rest after it.
pub open spec fn fruitless(looks: nat) -> Seq<EventView>
    decreases looks,
{
    if looks == 0 {
        seq![]
    } else {
        seq![EventView::Polled(None), EventView::Done] + fruitless((looks - 1) as nat)
    }
}

/// Looks that find no result, each with the rest after it.
pub open spec fn waits(id: Seq<char>, looks: nat) -> Seq<EffectView>
    decreases looks,
{
    if looks == 0 {
        seq![]
    } else {
        seq![EffectView::PollAgent { agent_id: id }, EffectView::Pause { millis: 200 }] + waits(
            id,
            (looks - 1) as nat,
        )
    }
}

proof fn lemma_awaited(id: Seq<char>, result: Seq<char>, looks: nat)
    ensures
        ({
            let step = ToolStepView::Act(
                at(ToolStage::Waiting, id),
                EffectView::PollAgent { agent_id: id },
            );
            let answers = fruitless(looks) + seq![
                EventView::Polled(Some(result)),
                EventView::Done,
            ];
            &&& replied(step, answers) == Some(
                "<tool_result>"@ + ("agent "@ + id + " finished: "@ + result)
                    + "</tool_result>"@,
            )
            &&& effects(step, answers) == waits(id, looks) + seq![
                EffectView::PollAgent { agent_id: id },
                EffectView::Log {
                    kind: "tool_result"@,
                    data: Tree::Fields(
                        Map::empty().insert("tool"@, Tree::Text("wait_agent"@)).insert(
                            "agent_id"@,
                            Tree::Text(id),
                        ).insert("result"@, Tree::Text(result)),
                    ),
                },
            ]
        }),
    decreases looks,
{
    let e = EventView::Done;
    let s = at(ToolStage::Waiting, id);
    let poll = EffectView::PollAgent { agent_id: id };
    let found = seq![EventView::Polled(Some(result)), e];
    if looks == 0 {
        assert(fruitless(0) + found =~= found);
        lemma_two_steps(s, poll, EventView::Polled(Some(result)));
        let done = effects(ToolStepView::Act(s, poll), found);
        assert(waits(id, 0) + done =~= done);
    } else {
        let less = (looks - 1) as nat;
        lemma_awaited(id, result, less);
        let rest = fruitless(less) + found;
        let none = EventView::Polled(None);
        let pause = EffectView::Pause { millis: 200 };
        let resting = ToolState { stage: ToolStage::Resting, ..s };
        assert(fruitless(looks) + found =~= seq![none] + (seq![e] + rest));
        lemma_goes_on(s, poll, none, seq![e] + rest);
        assert(tool_next(s, none) == ToolStepView::Act(resting, pause));
        lemma_goes_on(resting, pause, e, rest);
        assert(tool_next(resting, e) == ToolStepView::Act(s, poll));
        let tail = effects(ToolStepView::Act(s, poll), rest);
        assert(effects(ToolStepView::Act(s, poll), fruitless(looks) + found) =~= seq![poll, pause]
            + tail);
        assert(waits(id, looks) =~= seq![poll, pause] + waits(id, less));
        assert(seq![poll, pause] + (waits(id, less) + seq![tail[tail.len() - 2], tail.last()])
            =~= (seq![poll, pause] + waits(id, less)) + seq![tail[tail.len() - 2], tail.last()]);
    }
}

/// A call to `delete_file` for a path that may be deleted removes that file, and the model is told
/// so, or why it could not be.
pub proof fn law_file_is_deleted(
    text: Seq<char>,
    path: Seq<char>,
    guide: Seq<char>,
    out_dir: Option<Seq<char>>,
    error: Seq<char>,
)
    requires
        tool_call(text) == Some(("delete_file"@, path)),
        trimmed(path) == path,
        deletable(path),
    ensures
        ({
            let step = tool_start(text, Some(guide), out_dir);
            let answers = seq![EventView::Removed(Ok(())), EventView::Done];
            let failed = seq![EventView::Removed(Err(error))];
            &&& step is Some
            &&& effects(step->0, answers) == seq![
                EffectView::DeleteFile { path },
                EffectView::Log {
                    kind: "tool_result"@,
                    data: Tree::Fields(
                        Map::empty().insert("tool"@, Tree::Text("delete_file"@)).insert(
                            "path"@,
                            Tree::Text(path),
                        ),
                    ),
                },
            ]
            &&& replied(step->0, answers) == Some(
                "<tool_result>"@ + ("deleted "@ + path) + "</tool_result>"@,
            )
            &&& replied(step->0, failed) == Some(
                "<tool_result>"@ + ("ERROR deleting "@ + path + ": "@ + error)
                    + "</tool_result>"@,
            )
        }),
{
    lemma_names_differ();
    let s = at(ToolStage::Deleting, path);
    let remove = EffectView::DeleteFile { path };
    lemma_two_steps(s, remove, EventView::Removed(Ok(())));
    lemma_one_step(s, remove, EventView::Removed(Err(error)));
}

/// A call that the agent may not make while it evolves is answered at once, and nothing is done:
/// a write to a path that may not evolve, and a deletion of a path that may not be deleted.
pub proof fn law_refused_calls_do_nothing(
    text: Seq<char>,
    name: Seq<char>,
    body: Seq<char>,
    guide: Seq<char>,
    out_dir: Option<Seq<char>>,
)
    requires
        tool_call(text) == Some((name, body)),
    ensures
        name == "write_file"@ ==> {
            let path = path_range(trimmed(top_line(body).0)).0;
            !evolvable(path, guide) ==> tool_start(text, Some(guide), out_dir) == Some(
                ToolStepView::Reply(
                    "<tool_result>REJECTED (not an evolvable path: "@ + path + ")</tool_result>"@,
                ),
            )
        },
        name == "delete_file"@ && !deletable(trimmed(body)) ==> tool_start(
            text,
            Some(guide),
            out_dir,
        ) == Some(
            ToolStepView::Reply(
                "<tool_result>REJECTED (not a deletable path: "@ + trimmed(body)
                    + ")</tool_result>"@,
            ),
        ),
{
    lemma_names_differ();
}

/// A reply that calls no tool, or one that is not known, has nothing run.
pub proof fn law_only_known_tools_run(
    text: Seq<char>,
    evolve: Option<Seq<char>>,
    out_dir: Option<Seq<char>>,
)
    ensures
        tool_call(text) is None ==> tool_start(text, evolve, out_dir) is None,
        tool_call(text) matches Some((name, _)) ==> (tool_start(text, evolve, out_dir) is Some <==> {
            ||| name == "bash"@
            ||| name == "write_file"@
            ||| name == "read_file"@
            ||| name == "delete_file"@ && evolve is Some
            ||| name == "spawn_agent"@ && out_dir is Some
            ||| name == "wait_agent"@ && out_dir is Some
        }),
{
    lemma_names_differ();
}

/// What the log says of a write of the agent's own source.
pub open spec fn build_log(path: Seq<char>, result: Seq<char>) -> EffectView {
    EffectView::Log {
        kind: "tool_result"@,
        data: Tree::Fields(
            Map::empty().insert("tool"@, Tree::Text("write_file"@)).insert(
                "path"@,
                Tree::Text(path),
            ).insert("result"@, Tree::Text(result)),
        ),
    }
}

/// A write goes step by step: while the agent evolves, the file is backed up; its folder is made;
/// the text below the first line is written, whole; and the write is logged. The path is the first
/// line without white space round it.
pub proof fn law_write_goes_step_by_step(
    text: Seq<char>,
    line: Seq<char>,
    content: Seq<char>,
    evolve: Option<Seq<char>>,
    out_dir: Option<Seq<char>>,
)
    requires
        tool_call(text) == Some(("write_file"@, line + "\n"@ + content)),
        !line.contains('\n'),
        !trimmed(line).contains(' '),
        trimmed(line) != "src/main.rs"@,
        evolve matches Some(guide) ==> evolvable(trimmed(line), guide),
    ensures
        ({
            let path = trimmed(line);
            let step = tool_start(text, evolve, out_dir)->0;
            let backed_up = evolve is Some && stem(path) is Some;
            let made = if backed_up {
                tool_next(step->Act_0, EventView::Done)
            } else {
                step
            };
            let wrote = tool_next(made->Act_0, EventView::Done);
            let logged = tool_next(wrote->Act_0, EventView::Done);
            &&& backed_up ==> step->Act_1 == (EffectView::Backup { path })
            &&& made->Act_1 == (EffectView::MakeParent { path })
            &&& wrote->Act_1 == (EffectView::WriteText { path, text: content })
            &&& logged->Act_1 == write_log(path)
        }),
{
    let path = trimmed(line);
    let body = line + "\n"@ + content;
    lemma_newline_cut(line, content);
    reveal_strlit(" ");
    assert(" "@ =~= seq![' ']);
    lemma_no_cut_last_char(path, ' ');
    assert(path_range(path) == (path, None::<(nat, nat)>));
    lemma_write_begins(text, body, evolve, out_dir);
}

/// A write of the agent's own source goes step by step once its folder is made: what it holds is
/// read, the new text is written, whole, and the agent is built. Where the build fails, what the
/// file held is written back. The outcome is logged. An empty text is refused, and nothing is
/// done.
pub proof fn law_rewrite_goes_step_by_step(
    s: ToolState,
    old_text: Seq<char>,
    out: Result<OutputView, Seq<char>>,
)
    requires
        s.stage == ToolStage::Folder,
        s.path == "src/main.rs"@,
        s.range is None,
    ensures
        ({
            let path = "src/main.rs"@;
            let read = tool_next(s, EventView::Done);
            let wrote = tool_next(read->Act_0, EventView::Text(Ok(old_text)));
            let built = tool_next(wrote->Act_0, EventView::Done);
            let judged = tool_next(built->Act_0, EventView::Output(out));
            let taken_back = tool_next(judged->Act_0, EventView::Done);
            let good = match out {
                Ok(o) => o.code == Some(0i32) && !contains(o.stdout + o.stderr, "error["@)
                    && !contains(o.stdout + o.stderr, "error: "@),
                Err(_) => false,
            };
            let printed = match out {
                Ok(o) => o.stdout + o.stderr,
                Err(e) => e,
            };
            let shown = if printed.len() <= 400 {
                printed
            } else {
                printed.take(400)
            };
            &&& s.content.len() == 0 ==> read == ToolStepView::Reply(
                "<tool_result>REJECTED (empty content)</tool_result>"@,
            )
            &&& s.content.len() > 0 ==> {
                &&& read->Act_1 == (EffectView::ReadText { path })
                &&& wrote->Act_1 == (EffectView::WriteText { path, text: s.content })
                &&& built->Act_1 == EffectView::Build
                &&& good ==> judged->Act_1 == build_log(path, "written and verified OK"@)
                &&& !good ==> judged->Act_1 == (EffectView::WriteText { path, text: old_text })
                    && taken_back->Act_1 == build_log(
                    path,
                    "REJECTED (build failed, reverted):\n"@ + shown,
                )
            }
        }),
{
}

/// A write with a range reads the file first, once its folder is made, and puts the text in the
/// place of the range. A file that cannot be read is taken to be empty.
pub proof fn law_patch_reads_first(s: ToolState, error: Seq<char>)
    requires
        s.stage == ToolStage::Folder,
        s.path != "src/main.rs"@,
        s.range is Some,
    ensures
        ({
            let read = tool_next(s, EventView::Done);
            let wrote = tool_next(read->Act_0, EventView::Text(Err(error)));
            &&& read->Act_1 == (EffectView::ReadText { path: s.path })
            &&& wrote->Act_1 == (EffectView::WriteText { path: s.path, text: s.content })
        }),
{
    let empty = Seq::<char>::empty();
    let (a, b) = clamped(s.range->0, 0);
    assert(empty.take(a) + s.content + empty.skip(b) =~= s.content);
}

/// A call to `spawn_agent` of a single line takes it for the task as well as for the name of the
/// output.
pub proof fn law_agent_is_started_on_one_line(
    text: Seq<char>,
    line: Seq<char>,
    evolve: Option<Seq<char>>,
    out_dir: Seq<char>,
)
    requires
        tool_call(text) == Some(("spawn_agent"@, line)),
        line.len() > 0,
        !white(line[0]),
        !white(line.last()),
        !line.contains('\n'),
    ensures
        tool_start(text, evolve, Some(out_dir)) matches Some(ToolStepView::Act(_, effect)) && effect
            == (EffectView::StartAgent { task: line, out_path: out_dir + "/"@ + line }),
{
    lemma_names_differ();
    lemma_trimmed_id(line);
    reveal_strlit("\n");
    law_cutting(line, "\n"@);
    if let Some((a, b)) = cut(line, "\n"@) {
        assert(line[a.len() as int] == '\n');
    }
}

} // verus!
