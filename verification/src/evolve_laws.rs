//! What evolution is for: what the model is shown and told, what becomes of its replies, and what
//! is checked and recorded.

use crate::effect::{EffectView, EventView, NoteView, OutputView, Said};
use crate::evolve::{
    evolve_after, evolve_hears, evolve_next, evolve_tool, is_telling, lint_verdict, prompt_entry,
    prompt_names, prompts_section, proposal, proposed, source_paths, taken, telling, test_verdict,
    text_at, EvolveStage, EvolveState, EvolveStepView,
};
use crate::json::Tree;
use crate::memory::index;
use crate::number::decimal;
use crate::reflect::{reflect_after, reflect_next, ReflectStepView};
use crate::run::{tool_next, tool_start, ToolState, ToolStepView};
use crate::run_laws::replied;
use crate::text::{begins, contains, first_line, joined, lines, trimmed, uppercased};
use vstd::prelude::*;
use vstd::string::*;

verus! {

/// Where evolution stands when it goes on from `s` and the outside answers with `events`.
pub open spec fn evolve_run(s: EvolveState, effect: EffectView, events: Seq<EventView>) -> EvolveStepView
    decreases events.len(),
{
    if events.len() == 0 {
        EvolveStepView::Act(s, effect)
    } else {
        match evolve_next(s, events[0]) {
            EvolveStepView::Over => EvolveStepView::Over,
            EvolveStepView::Act(next, effect) => evolve_run(next, effect, events.skip(1)),
        }
    }
}

/// An entry of the log with named values.
pub open spec fn log_entry(kind: Seq<char>, fields: Map<Seq<char>, Tree>) -> EffectView {
    EffectView::Log { kind, data: Tree::Fields(fields) }
}

/// The number of an iteration, as the log names it.
pub open spec fn iter_only(n: u64) -> Map<Seq<char>, Tree> {
    Map::empty().insert("iter"@, Tree::Count(n as nat))
}

/// A reply that wants nothing changed.
pub open spec fn declines(reply: Seq<char>) -> bool {
    begins(uppercased(trimmed(reply)), "SKIP"@)
}

/// An answer of a tool that tells of a written change.
pub open spec fn tells_of_change(answer: Seq<char>) -> bool {
    contains(answer, "verified OK"@) || contains(answer, "written "@)
}

/// The first 200 characters of a text.
pub open spec fn first_200(s: Seq<char>) -> Seq<char> {
    if s.len() <= 200 {
        s
    } else {
        s.take(200)
    }
}

/// Between two states of one iteration nothing was decided: its number, what it is about, whether
/// it brought a change, whether it is the last, and what the agent goes by stay as they are.
pub open spec fn unmoved(s: EvolveState, t: EvolveState) -> bool {
    &&& t.guide == s.guide
    &&& t.memo_path == s.memo_path
    &&& t.system == s.system
    &&& t.iter == s.iter
    &&& t.improved == s.improved
    &&& t.done == s.done
    &&& t.summary == s.summary
}

/// Evolution makes the folder of its memos, reads its system prompt, logs its start, and logs
/// that the first iteration begins. An iteration begins with reflection.
pub proof fn law_evolution_begins(ts: u64, guide: Seq<char>, prompt: Seq<char>)
    ensures
        ({
            let start = evolve_after(ts, guide, seq![]);
            let system = evolve_next(start->Act_0, EventView::Done);
            let started = evolve_next(system->Act_0, EventView::Text(Ok(prompt)));
            let first = evolve_next(started->Act_0, EventView::Done);
            let reflecting = evolve_next(first->Act_0, EventView::Done);
            &&& start->Act_1 == (EffectView::MakeDir { path: ".evo/memos"@ })
            &&& system->Act_1 == (EffectView::ReadText {
                path: "src/prompts/"@ + "evolve_system.txt"@,
            })
            &&& started->Act_1 == log_entry("evolve_start"@, Map::empty())
            &&& first->Act_1 == log_entry("iter_start"@, iter_only(1))
            &&& reflecting->Act_1 == (EffectView::ReadText { path: ".evo/learned_until.txt"@ })
            &&& reflecting->Act_0.system == prompt
            &&& reflecting->Act_0.guide == guide
            &&& reflecting->Act_0.memo_path == ".evo/memos/"@ + decimal(ts as nat) + ".md"@
            &&& reflecting->Act_0.iter == 1
            &&& reflecting->Act_0.turn == 0
            &&& !reflecting->Act_0.improved
            &&& !reflecting->Act_0.done
            &&& reflecting->Act_0.summary.len() == 0
        }),
{
    reveal(evolve_next);
}

/// While the model looks back, evolution takes the effects of reflection.
pub proof fn law_evolution_reflects(s: EvolveState, event: EventView)
    requires
        s.stage == EvolveStage::Reflecting,
        s.reflection is Some,
    ensures
        reflect_next(s.reflection->0, event) matches ReflectStepView::Act(more, effect) ==> (
        evolve_next(s, event) matches EvolveStepView::Act(next, taken) && taken == effect
            && next.reflection == Some(more) && next.stage == EvolveStage::Reflecting),
{
    reveal(evolve_next);
}

/// While a tool of the model is at work, evolution takes the effects of the tool.
pub proof fn law_evolution_runs_tools(s: EvolveState, event: EventView)
    requires
        s.stage == EvolveStage::Tool || s.stage == EvolveStage::RefineTool || s.stage
            == EvolveStage::DocTool,
        s.tool is Some,
    ensures
        tool_next(s.tool->0, event) matches ToolStepView::Act(more, effect) ==> (evolve_next(
            s,
            event,
        ) matches EvolveStepView::Act(next, taken) && taken == effect && next.tool == Some(more)
            && next.stage == s.stage),
{
    lemma_tool_step(s, event);
}

/// What the model is shown when it is asked for a change: the memo of this run, all prompt files,
/// the project's rules, the index of the memory notes and the agent's own source, each whole.
pub open spec fn change_question(
    memo: Seq<char>,
    read: Seq<Option<Seq<char>>>,
    notes: Seq<char>,
) -> Seq<char> {
    "Changes already made this run (do not repeat):\n"@ + memo + "\n\nPrompt files:\n"@ + (
    "=== src/prompts/"@ + "chat_system.txt"@ + " ===\n"@ + text_at(read, 2) + "\n\n"@ + (
    "=== src/prompts/"@ + "reflect_system.txt"@ + " ===\n"@ + text_at(read, 3)) + "\n\n"@ + (
    "=== src/prompts/"@ + "evolve_system.txt"@ + " ===\n"@ + text_at(read, 4)) + "\n\n"@ + (
    "=== src/prompts/"@ + "doc_system.txt"@ + " ===\n"@ + text_at(read, 5)))
        + "\n\nsrc/AGENTS.md:\n"@ + text_at(read, 1)
        + "\n\nsrc/memory/ (filepath — description):\n"@ + notes + "\n\nsrc/main.rs:\n```rust\n"@
        + text_at(read, 0)
        + "\n```\n\nPropose one improvement not in the changelog. Priority: prompts > AGENTS.md > memory/*.md > main.rs. Reply SKIP if nothing is worth changing."@
}

/// Once reflection is over, the agent's own source, the project's rules and the prompt files are
/// read, then the memory notes and the memo of this run, and the model is asked for a change with
/// all of it before it.
pub proof fn law_model_is_shown_everything(
    s: EvolveState,
    event: EventView,
    read: Seq<Option<Seq<char>>>,
    notes: Option<Seq<NoteView>>,
    memo: Result<Seq<char>, Seq<char>>,
)
    requires
        s.stage == EvolveStage::Reflecting,
        s.reflection is Some,
        reflect_next(s.reflection->0, event) == ReflectStepView::Over,
    ensures
        ({
            let sources = evolve_next(s, event);
            let memory = evolve_next(sources->Act_0, EventView::Texts(read));
            let looked = evolve_next(memory->Act_0, EventView::Memory(notes));
            let asked = evolve_next(looked->Act_0, EventView::Text(memo));
            let changes = match memo {
                Ok(text) => text,
                Err(_) => "(none yet this run)"@,
            };
            &&& sources->Act_1 == (EffectView::ReadTexts {
                paths: seq![
                    "src/main.rs"@,
                    "src/AGENTS.md"@,
                    "src/prompts/"@ + "chat_system.txt"@,
                    "src/prompts/"@ + "reflect_system.txt"@,
                    "src/prompts/"@ + "evolve_system.txt"@,
                    "src/prompts/"@ + "doc_system.txt"@,
                ],
            })
            &&& memory->Act_1 == EffectView::ReadMemory
            &&& looked->Act_1 == (EffectView::ReadText { path: s.memo_path })
            &&& asked->Act_1 == (EffectView::Ask {
                talk: seq![
                    Said { role: "user"@, content: change_question(changes, read, index(notes)) },
                ],
                system: s.system,
            })
            &&& asked->Act_0.stage == EvolveStage::Asking
            &&& asked->Act_0.talk == asked->Act_1->talk
            &&& unmoved(s, asked->Act_0)
        }),
{
    lemma_sources_asked(s, event);
    let sources = evolve_next(s, event)->Act_0;
    lemma_sources_read(sources, read);
    let memory = evolve_next(sources, EventView::Texts(read))->Act_0;
    lemma_memory_read(memory, notes);
    let looked = evolve_next(memory, EventView::Memory(notes))->Act_0;
    lemma_memo_read(looked, memo);
    lemma_prompts(read);
}

proof fn lemma_sources_asked(s: EvolveState, event: EventView)
    requires
        s.stage == EvolveStage::Reflecting,
        s.reflection is Some,
        reflect_next(s.reflection->0, event) == ReflectStepView::Over,
    ensures
        evolve_next(s, event) == EvolveStepView::Act(
            EvolveState { stage: EvolveStage::Sources, reflection: None, ..s },
            EffectView::ReadTexts {
                paths: seq![
                    "src/main.rs"@,
                    "src/AGENTS.md"@,
                    "src/prompts/"@ + "chat_system.txt"@,
                    "src/prompts/"@ + "reflect_system.txt"@,
                    "src/prompts/"@ + "evolve_system.txt"@,
                    "src/prompts/"@ + "doc_system.txt"@,
                ],
            },
        ),
{
    reveal(evolve_next);
    assert(source_paths() =~= seq![
        "src/main.rs"@,
        "src/AGENTS.md"@,
        "src/prompts/"@ + "chat_system.txt"@,
        "src/prompts/"@ + "reflect_system.txt"@,
        "src/prompts/"@ + "evolve_system.txt"@,
        "src/prompts/"@ + "doc_system.txt"@,
    ]);
}

proof fn lemma_sources_read(s: EvolveState, read: Seq<Option<Seq<char>>>)
    requires
        s.stage == EvolveStage::Sources,
    ensures
        evolve_next(s, EventView::Texts(read)) == EvolveStepView::Act(
            EvolveState {
                stage: EvolveStage::Memory,
                src: text_at(read, 0),
                first_doc: text_at(read, 1),
                second_doc: prompts_section(read),
                ..s
            },
            EffectView::ReadMemory,
        ),
{
    reveal(evolve_next);
}

proof fn lemma_memory_read(s: EvolveState, notes: Option<Seq<NoteView>>)
    requires
        s.stage == EvolveStage::Memory,
    ensures
        evolve_next(s, EventView::Memory(notes)) == EvolveStepView::Act(
            EvolveState { stage: EvolveStage::Memo, memory: index(notes), ..s },
            EffectView::ReadText { path: s.memo_path },
        ),
{
    reveal(evolve_next);
}

proof fn lemma_memo_read(s: EvolveState, memo: Result<Seq<char>, Seq<char>>)
    requires
        s.stage == EvolveStage::Memo,
    ensures
        ({
            let changes = match memo {
                Ok(text) => text,
                Err(_) => "(none yet this run)"@,
            };
            let next = evolve_next(s, EventView::Text(memo));
            &&& next is Act
            &&& next->Act_0.stage == EvolveStage::Asking
            &&& next->Act_0.talk == next->Act_1->talk
            &&& unmoved(s, next->Act_0)
            &&& next->Act_1 == (EffectView::Ask {
                talk: seq![
                    Said {
                        role: "user"@,
                        content: proposal(changes, s.second_doc, s.first_doc, s.memory, s.src),
                    },
                ],
                system: s.system,
            })
        }),
{
    reveal(evolve_next);
}

proof fn lemma_prompts(read: Seq<Option<Seq<char>>>)
    ensures
        prompts_section(read) == ("=== src/prompts/"@ + "chat_system.txt"@
            + " ===\n"@ + text_at(read, 2) + "\n\n"@ + ("=== src/prompts/"@ + "reflect_system.txt"@
            + " ===\n"@ + text_at(read, 3)) + "\n\n"@ + ("=== src/prompts/"@ + "evolve_system.txt"@
            + " ===\n"@ + text_at(read, 4)) + "\n\n"@ + ("=== src/prompts/"@ + "doc_system.txt"@
            + " ===\n"@ + text_at(read, 5))),
{
    let all = Seq::new(
        prompt_names().len(),
        |i: int| prompt_entry(prompt_names()[i], text_at(read, i + 2)),
    );
    let a = prompt_entry("chat_system.txt"@, text_at(read, 2));
    let b = prompt_entry("reflect_system.txt"@, text_at(read, 3));
    let c = prompt_entry("evolve_system.txt"@, text_at(read, 4));
    let d = prompt_entry("doc_system.txt"@, text_at(read, 5));
    assert(all =~= seq![a, b, c, d]);
    assert(all.drop_last() =~= seq![a, b, c]);
    assert(all.drop_last().drop_last() =~= seq![a, b]);
    assert(all.drop_last().drop_last().drop_last() =~= seq![a]);
    let sep = "\n\n"@;
    assert(joined(seq![a], sep) == a);
    assert(joined(seq![a, b], sep) == a + sep + b);
    assert(joined(seq![a, b, c], sep) == a + sep + b + sep + c);
    assert(joined(all, sep) == a + sep + b + sep + c + sep + d);
}

proof fn lemma_tool_step(s: EvolveState, event: EventView)
    requires
        s.stage == EvolveStage::Tool || s.stage == EvolveStage::RefineTool || s.stage
            == EvolveStage::DocTool,
        s.tool is Some,
    ensures
        evolve_next(s, event) == evolve_tool(s, s.stage, tool_next(s.tool->0, event)),
{
    reveal(evolve_next);
}

/// A tool call of evolution runs to its end, and then its answer is heard.
proof fn lemma_tool_runs(
    s: EvolveState,
    effect: EffectView,
    run: ToolState,
    events: Seq<EventView>,
    answer: Seq<char>,
)
    requires
        replied(ToolStepView::Act(run, effect), events) == Some(answer),
        s.stage == EvolveStage::Tool || s.stage == EvolveStage::RefineTool || s.stage
            == EvolveStage::DocTool,
        s.tool == Some(run),
    ensures
        evolve_run(s, effect, events) == evolve_hears(EvolveState { tool: None, ..s }, answer),
    decreases events.len(),
{
    assert(events.len() > 0);
    let after = tool_next(run, events[0]);
    let rest = events.skip(1);
    lemma_tool_step(s, events[0]);
    assert(replied(after, rest) == Some(answer));
    let step = evolve_next(s, events[0]);
    match after {
        ToolStepView::Reply(r) => {
            assert(rest.len() == 0 && r == answer);
            assert(step == evolve_hears(EvolveState { tool: None, ..s }, answer));
            let next = step->Act_0;
            assert(evolve_run(next, step->Act_1, rest) == step);
        },
        ToolStepView::Act(more, _) => {
            let next = step->Act_0;
            lemma_tool_runs(next, step->Act_1, more, rest, answer);
            assert(EvolveState { tool: None, ..next } == EvolveState { tool: None, ..s });
        },
    }
}

/// A tool call begins, and runs to its end.
proof fn lemma_call_runs(
    s: EvolveState,
    stage: EvolveStage,
    step: ToolStepView,
    events: Seq<EventView>,
    answer: Seq<char>,
)
    requires
        replied(step, events) == Some(answer),
        stage == EvolveStage::Tool || stage == EvolveStage::RefineTool || stage
            == EvolveStage::DocTool,
        s.tool is None,
    ensures
        evolve_tool(s, stage, step) is Act,
        evolve_run(
            evolve_tool(s, stage, step)->Act_0,
            evolve_tool(s, stage, step)->Act_1,
            events,
        ) == evolve_hears(EvolveState { stage, ..s }, answer),
{
    let begun = evolve_tool(s, stage, step);
    match step {
        ToolStepView::Reply(r) => {
            assert(events.len() == 0);
            assert(EvolveState { stage, tool: None, ..s } == EvolveState { stage, ..s });
        },
        ToolStepView::Act(run, effect) => {
            let next = begun->Act_0;
            lemma_tool_runs(next, effect, run, events, answer);
            assert(EvolveState { tool: None, ..next } == EvolveState { stage, ..s });
        },
    }
}

proof fn lemma_reply_steps(s: EvolveState, reply: Seq<char>)
    requires
        s.stage == EvolveStage::Asking,
    ensures
        evolve_next(s, EventView::Reply(Ok(reply))) == EvolveStepView::Act(
            EvolveState { stage: EvolveStage::Replied, reply, ..s },
            log_entry(
                "llm_response"@,
                iter_only(s.iter).insert("turn"@, Tree::Count(s.turn as nat)).insert(
                    "preview"@,
                    Tree::Text(first_200(reply)),
                ),
            ),
        ),
        evolve_next(
            EvolveState { stage: EvolveStage::Replied, reply, ..s },
            EventView::Done,
        ) == proposed(EvolveState { stage: EvolveStage::Replied, reply, ..s }),
{
    reveal(evolve_next);
}

/// What an iteration is about: the first line of the first reply, up to 200 characters of it.
pub open spec fn about(s: EvolveState, reply: Seq<char>) -> Seq<char> {
    if s.summary.len() == 0 {
        first_200(first_line(reply))
    } else {
        s.summary
    }
}

/// When a reply to the question for a change calls a tool, the reply is logged and the tool is run
/// to its end. Where its answer tells of no written change, the model is asked again in the same
/// iteration, with its reply and the answer, whole, as the last messages. Where the answer tells
/// of a written change, the iteration ends as one that brought a change.
pub proof fn law_evolution_hears_its_tools(
    s: EvolveState,
    effect: EffectView,
    reply: Seq<char>,
    events: Seq<EventView>,
    answer: Seq<char>,
)
    requires
        s.stage == EvolveStage::Asking,
        s.tool is None,
        !declines(reply),
        tool_start(reply, Some(s.guide), None) matches Some(step) && replied(step, events) == Some(
            answer,
        ),
    ensures
        ({
            let log = evolve_next(s, EventView::Reply(Ok(reply)))->Act_1;
            let run = evolve_run(
                s,
                effect,
                seq![EventView::Reply(Ok(reply)), EventView::Done] + events,
            );
            let talk = s.talk.push(Said { role: "assistant"@, content: reply }).push(
                Said { role: "user"@, content: answer },
            );
            let heard = EvolveState { reply, talk, summary: about(s, reply), ..s };
            &&& log == log_entry(
                "llm_response"@,
                iter_only(s.iter).insert("turn"@, Tree::Count(s.turn as nat)).insert(
                    "preview"@,
                    Tree::Text(first_200(reply)),
                ),
            )
            &&& run is Act
            &&& !tells_of_change(answer) ==> run->Act_1 == (EffectView::Ask {
                talk,
                system: s.system,
            }) && (s.turn < u64::MAX ==> run->Act_0 == (EvolveState {
                stage: EvolveStage::Asking,
                turn: (s.turn + 1) as u64,
                ..heard
            }))
            &&& tells_of_change(answer) ==> run->Act_1 == log_entry(
                "iter_end"@,
                iter_only(s.iter).insert("improved"@, Tree::Bool(true)),
            ) && run->Act_0 == (EvolveState {
                stage: EvolveStage::IterEnded,
                improved: true,
                ..heard
            })
        }),
{
    let said = EventView::Reply(Ok(reply));
    let all = seq![said, EventView::Done] + events;
    let step = tool_start(reply, Some(s.guide), None)->0;
    lemma_reply_steps(s, reply);
    let heard = EvolveState { stage: EvolveStage::Replied, reply, ..s };
    let log = evolve_next(s, said)->Act_1;
    let noted = EvolveState {
        summary: about(s, reply),
        talk: s.talk.push(Said { role: "assistant"@, content: reply }),
        ..heard
    };
    assert(proposed(heard) == evolve_tool(noted, EvolveStage::Tool, step));
    lemma_call_runs(noted, EvolveStage::Tool, step, events, answer);
    let begun = evolve_tool(noted, EvolveStage::Tool, step);
    assert(all.skip(1) =~= seq![EventView::Done] + events);
    assert(all.skip(1).skip(1) =~= events);
    assert(all[0] == said && all.skip(1)[0] == EventView::Done);
    assert(evolve_run(heard, log, all.skip(1)) == evolve_run(begun->Act_0, begun->Act_1, events));
    assert(evolve_run(s, effect, all) == evolve_run(heard, log, all.skip(1)));
}

/// A reply to the question for a change that calls no tool ends the iteration, and so does a
/// failure to ask, of which the user is told.
pub proof fn law_iteration_ends_without_a_tool(s: EvolveState, reply: Seq<char>, error: Seq<char>)
    requires
        s.stage == EvolveStage::Asking,
        !declines(reply),
        tool_start(reply, Some(s.guide), None) is None,
    ensures
        ({
            let heard = evolve_next(s, EventView::Reply(Ok(reply)));
            let ended = evolve_next(heard->Act_0, EventView::Done);
            let told = evolve_next(s, EventView::Reply(Err(error)));
            let failed = evolve_next(told->Act_0, EventView::Done);
            let end = log_entry(
                "iter_end"@,
                iter_only(s.iter).insert("improved"@, Tree::Bool(s.improved)),
            );
            &&& ended->Act_1 == end
            &&& told->Act_1 == (EffectView::Notify { text: "LLM error: "@ + error })
            &&& failed->Act_1 == end
            &&& ended->Act_0 == (EvolveState {
                stage: EvolveStage::IterEnded,
                reply,
                talk: s.talk.push(Said { role: "assistant"@, content: reply }),
                summary: about(s, reply),
                ..s
            })
            &&& failed->Act_0 == (EvolveState { stage: EvolveStage::IterEnded, ..s })
        }),
{
    reveal(evolve_next);
}

/// After an iteration that brought a change, the memo of the run gets a line with its number and
/// what it was about, and the user is told. After any iteration comes the next, with the next
/// number and nothing carried over, until the model has declined.
pub proof fn law_changes_are_noted(s: EvolveState)
    requires
        s.stage == EvolveStage::IterEnded,
        !s.done,
        s.iter < u64::MAX,
    ensures
        ({
            let after = evolve_next(s, EventView::Done);
            let told = evolve_next(after->Act_0, EventView::Done);
            let next = if s.improved {
                evolve_next(told->Act_0, EventView::Done)
            } else {
                after
            };
            &&& s.improved ==> after->Act_1 == (EffectView::AppendText {
                path: s.memo_path,
                text: "- iter "@ + decimal(s.iter as nat) + ": "@ + s.summary + "\n"@,
            }) && told->Act_1 == (EffectView::Notify {
                text: "Iter "@ + decimal(s.iter as nat) + ": improved."@,
            })
            &&& next->Act_1 == log_entry("iter_start"@, iter_only((s.iter + 1) as u64))
            &&& next->Act_0 == (EvolveState {
                stage: EvolveStage::IterStarted,
                iter: (s.iter + 1) as u64,
                turn: 0,
                improved: false,
                done: false,
                summary: seq![],
                ..s
            })
            &&& evolve_next(next->Act_0, EventView::Done)->Act_1 == (EffectView::ReadText {
                path: ".evo/learned_until.txt"@,
            })
        }),
{
    reveal(evolve_next);
}

/// A reply that declines is logged as such, the user is told, and after the end of the iteration
/// the end of the iterations is logged and the check begins: the linter runs, then the tests.
pub proof fn law_declining_ends_the_iterations(s: EvolveState, reply: Seq<char>)
    requires
        s.stage == EvolveStage::Asking,
        !s.improved,
        declines(reply),
    ensures
        ({
            let heard = evolve_next(s, EventView::Reply(Ok(reply)));
            let skipped = evolve_next(heard->Act_0, EventView::Done);
            let told = evolve_next(skipped->Act_0, EventView::Done);
            let ended = evolve_next(told->Act_0, EventView::Done);
            let all_ended = evolve_next(ended->Act_0, EventView::Done);
            let checking = evolve_next(all_ended->Act_0, EventView::Done);
            &&& skipped->Act_1 == log_entry(
                "iter_skip"@,
                iter_only(s.iter).insert("reason"@, Tree::Text("LLM chose not to evolve"@)),
            )
            &&& told->Act_1 == (EffectView::Notify {
                text: "Iter "@ + decimal(s.iter as nat) + ": SKIP — evolution complete."@,
            })
            &&& ended->Act_1 == log_entry(
                "iter_end"@,
                iter_only(s.iter).insert("improved"@, Tree::Bool(false)),
            )
            &&& all_ended->Act_1 == log_entry("evolve_end"@, Map::empty())
            &&& checking->Act_1 == (EffectView::Notify {
                text: "Refine: running lint and tests..."@,
            })
            &&& evolve_next(checking->Act_0, EventView::Done) == EvolveStepView::Act(
                EvolveState { stage: EvolveStage::Lint, reply, done: true, ..s },
                EffectView::Lint,
            )
        }),
{
    reveal(evolve_next);
}

/// What a check says: it is well just where the command ran and ended with code zero. Of what was
/// printed, the first 2000 characters are kept; of the linter's, only the lines that speak of a
/// warning or an error, where there are any.
pub proof fn law_checks_are_judged(o: OutputView, error: Seq<char>, line: Seq<char>)
    ensures
        ({
            let printed = o.stdout + o.stderr;
            let told = joined(telling(lines(printed)), "\n"@);
            let shown = if told.len() == 0 {
                printed
            } else {
                told
            };
            &&& lint_verdict(Ok(o)).ok == (o.code == Some(0i32))
            &&& test_verdict(Ok(o)).ok == (o.code == Some(0i32))
            &&& !lint_verdict(Err(error)).ok && lint_verdict(Err(error)).out == error
            &&& !test_verdict(Err(error)).ok && test_verdict(Err(error)).out == error
            &&& test_verdict(Ok(o)).out == if printed.len() <= 2000 {
                printed
            } else {
                printed.take(2000)
            }
            &&& lint_verdict(Ok(o)).out == if shown.len() <= 2000 {
                shown
            } else {
                shown.take(2000)
            }
            &&& telling(lines(printed)).contains(line) <==> lines(printed).contains(line) && (
            contains(line, "warning"@) || contains(line, "error"@))
        }),
{
    let ls = lines(o.stdout + o.stderr);
    let p = |line: Seq<char>| is_telling(line);
    assert(telling(ls) == ls.filter(p));
    if telling(ls).contains(line) {
        let i = choose|i: int| 0 <= i < telling(ls).len() && telling(ls)[i] == line;
        ls.lemma_filter_pred(p, i);
        lemma_filter_from(ls, p, i);
    }
    if ls.contains(line) && p(line) {
        let i = choose|i: int| 0 <= i < ls.len() && ls[i] == line;
        ls.lemma_filter_contains(p, i);
    }
}

proof fn lemma_filter_from(s: Seq<Seq<char>>, p: spec_fn(Seq<char>) -> bool, i: int)
    requires
        0 <= i < s.filter(p).len(),
    ensures
        s.contains(s.filter(p)[i]),
    decreases s.len(),
{
    reveal(Seq::filter);
    if s.len() > 0 {
        let front = s.drop_last();
        let fewer = front.filter(p);
        if i < fewer.len() {
            lemma_filter_from(front, p, i);
            let k = choose|k: int| 0 <= k < front.len() && front[k] == fewer[i];
            assert(s[k] == fewer[i]);
        } else {
            assert(s[s.len() - 1] == s.filter(p)[i]);
        }
    }
}

/// After the iterations the linter and the tests run. Where either found issues, the model is
/// asked to fix them, with all that both said before it; where neither did, the last check begins
/// at once.
pub proof fn law_issues_are_handed_over(
    s: EvolveState,
    lint: Result<OutputView, Seq<char>>,
    test: Result<OutputView, Seq<char>>,
)
    requires
        s.stage == EvolveStage::Lint,
    ensures
        ({
            let tested = evolve_next(s, EventView::Output(lint));
            let judged = evolve_next(tested->Act_0, EventView::Output(test));
            let asked = evolve_next(judged->Act_0, EventView::Done);
            let l = lint_verdict(lint);
            let t = test_verdict(test);
            let word = |b: bool|
                if b {
                    "true"@
                } else {
                    "false"@
                };
            &&& tested->Act_1 == EffectView::Test
            &&& l.ok && t.ok ==> judged->Act_1 == (EffectView::Notify {
                text: "Running final lint and tests..."@,
            })
            &&& !(l.ok && t.ok) ==> judged->Act_1 == (EffectView::Notify {
                text: "Refine: issues found, asking LLM to fix..."@,
            }) && asked->Act_1 == (EffectView::Ask {
                talk: seq![
                    Said {
                        role: "user"@,
                        content: "Post-evolution check found issues. Fix them using write_file. Reply SKIP if nothing to fix.\n\nClippy (ok="@
                            + word(l.ok) + "):\n"@ + l.out + "\n\nTests (ok="@ + word(t.ok)
                            + "):\n"@ + t.out,
                    },
                ],
                system: s.system,
            }) && asked->Act_0.talk == asked->Act_1->talk && asked->Act_0.stage
                == EvolveStage::RefineAsking && unmoved(s, asked->Act_0)
        }),
{
    reveal(evolve_next);
}

/// When a reply to the question for fixes, or for documents, calls a tool, the tool is run to its
/// end and the model is asked again, with its reply and the answer, whole, as the last messages.
pub proof fn law_later_questions_hear_their_tools(
    s: EvolveState,
    effect: EffectView,
    reply: Seq<char>,
    events: Seq<EventView>,
    answer: Seq<char>,
)
    requires
        s.stage == EvolveStage::RefineAsking && !declines(reply) || s.stage
            == EvolveStage::DocAsking,
        s.tool is None,
        tool_start(reply, Some(s.guide), None) matches Some(step) && replied(step, events) == Some(
            answer,
        ),
    ensures
        ({
            let run = evolve_run(s, effect, seq![EventView::Reply(Ok(reply))] + events);
            let talk = s.talk.push(Said { role: "assistant"@, content: reply }).push(
                Said { role: "user"@, content: answer },
            );
            &&& run is Act
            &&& run->Act_1 == (EffectView::Ask { talk, system: s.system })
            &&& s.turn < u64::MAX ==> run->Act_0 == (EvolveState {
                talk,
                turn: (s.turn + 1) as u64,
                ..s
            })
        }),
{
    let said = EventView::Reply(Ok(reply));
    let all = seq![said] + events;
    let step = tool_start(reply, Some(s.guide), None)->0;
    let stage = if s.stage == EvolveStage::RefineAsking {
        EvolveStage::RefineTool
    } else {
        EvolveStage::DocTool
    };
    lemma_later_reply(s, reply);
    lemma_call_runs(taken(s, reply), stage, step, events, answer);
    let begun = evolve_tool(taken(s, reply), stage, step);
    assert(all.skip(1) =~= events);
    assert(all[0] == said);
    assert(evolve_run(s, effect, all) == evolve_run(begun->Act_0, begun->Act_1, events));
}

proof fn lemma_later_reply(s: EvolveState, reply: Seq<char>)
    requires
        s.stage == EvolveStage::RefineAsking && !declines(reply) || s.stage
            == EvolveStage::DocAsking,
        tool_start(reply, Some(s.guide), None) is Some,
    ensures
        evolve_next(s, EventView::Reply(Ok(reply))) == evolve_tool(
            taken(s, reply),
            if s.stage == EvolveStage::RefineAsking {
                EvolveStage::RefineTool
            } else {
                EvolveStage::DocTool
            },
            tool_start(reply, Some(s.guide), None)->0,
        ),
{
    reveal(evolve_next);
}

/// The question for fixes is closed by a reply that declines or calls no tool, or by a failure to
/// ask, of which the user is told. Then the last check begins: the linter runs, then the tests.
pub proof fn law_fixes_end_in_the_last_check(s: EvolveState, reply: Seq<char>, error: Seq<char>)
    requires
        s.stage == EvolveStage::RefineAsking,
        declines(reply) || tool_start(reply, Some(s.guide), None) is None,
    ensures
        ({
            let closed = evolve_next(s, EventView::Reply(Ok(reply)));
            let failed = evolve_next(s, EventView::Reply(Err(error)));
            let told = EffectView::Notify { text: "Running final lint and tests..."@ };
            &&& closed->Act_1 == told
            &&& evolve_next(closed->Act_0, EventView::Done)->Act_1 == EffectView::Lint
            &&& failed->Act_1 == (EffectView::Notify { text: "Refine LLM error: "@ + error })
            &&& evolve_next(failed->Act_0, EventView::Done)->Act_1 == told
        }),
{
    reveal(evolve_next);
}

/// What the user is told of a check.
pub open spec fn check_note(what: Seq<char>, ok: bool, out: Seq<char>) -> Seq<char> {
    if ok {
        what + ": PASS"@
    } else {
        what + ": FAIL\n"@ + out
    }
}

/// What the last linter and the last tests found is logged and told, each by its own outcome, and
/// the user is warned where either failed. Then the changed files are listed.
pub proof fn law_last_check_is_reported(
    s: EvolveState,
    lint: Result<OutputView, Seq<char>>,
    test: Result<OutputView, Seq<char>>,
)
    requires
        s.stage == EvolveStage::FinalLint,
    ensures
        ({
            let l = lint_verdict(lint);
            let t = test_verdict(test);
            let tested = evolve_next(s, EventView::Output(lint));
            let lint_logged = evolve_next(tested->Act_0, EventView::Output(test));
            let test_logged = evolve_next(lint_logged->Act_0, EventView::Done);
            let lint_told = evolve_next(test_logged->Act_0, EventView::Done);
            let test_told = evolve_next(lint_told->Act_0, EventView::Done);
            let next = evolve_next(test_told->Act_0, EventView::Done);
            let listed = if l.ok && t.ok {
                next
            } else {
                evolve_next(next->Act_0, EventView::Done)
            };
            &&& tested->Act_1 == EffectView::Test
            &&& lint_logged->Act_1 == log_entry(
                "lint_result"@,
                Map::empty().insert("ok"@, Tree::Bool(l.ok)).insert("output"@, Tree::Text(l.out)),
            )
            &&& test_logged->Act_1 == log_entry(
                "test_result"@,
                Map::empty().insert("ok"@, Tree::Bool(t.ok)).insert("output"@, Tree::Text(t.out)),
            )
            &&& lint_told->Act_1 == (EffectView::Notify { text: check_note("Lint"@, l.ok, l.out) })
            &&& test_told->Act_1 == (EffectView::Notify { text: check_note("Tests"@, t.ok, t.out) })
            &&& !(l.ok && t.ok) ==> next->Act_1 == (EffectView::Notify {
                text: "WARNING: evolved binary still has lint/test failures after refine."@,
            })
            &&& listed->Act_1 == EffectView::ListChanged
            &&& listed->Act_0 == (EvolveState {
                stage: EvolveStage::Changed,
                lint: l,
                test: t,
                ..s
            })
        }),
{
    reveal(evolve_next);
}

/// After a passed check, once no changed file is left, the agent's own source and both documents
/// are read, then the system prompt for documents, and the model is asked to update both, with all
/// three before it, each whole.
pub proof fn law_documents_are_shown(
    s: EvolveState,
    read: Seq<Option<Seq<char>>>,
    prompt: Seq<char>,
)
    requires
        s.stage == EvolveStage::Changed,
        s.lint.ok,
        s.test.ok,
    ensures
        ({
            let sources = evolve_next(s, EventView::Output(Err(seq![])));
            let system = evolve_next(sources->Act_0, EventView::Texts(read));
            let asked = evolve_next(system->Act_0, EventView::Text(Ok(prompt)));
            &&& sources->Act_1 == (EffectView::ReadTexts {
                paths: seq!["src/main.rs"@, s.guide, "README.md"@],
            })
            &&& system->Act_1 == (EffectView::ReadText {
                path: "src/prompts/"@ + "doc_system.txt"@,
            })
            &&& asked->Act_1 == (EffectView::Ask {
                talk: seq![
                    Said {
                        role: "user"@,
                        content: "Current src/main.rs:\n```rust\n"@ + text_at(read, 0)
                            + "\n```\n\nCurrent "@ + s.guide + ":\n"@ + text_at(read, 1)
                            + "\n\nCurrent README.md:\n"@ + text_at(read, 2)
                            + "\n\nUpdate both docs to match the implementation."@,
                    },
                ],
                system: prompt,
            })
            &&& asked->Act_0.stage == EvolveStage::DocAsking
            &&& asked->Act_0.talk == asked->Act_1->talk
            &&& asked->Act_0.system == prompt
            &&& asked->Act_0.memo_path == s.memo_path
            &&& asked->Act_0.guide == s.guide
        }),
{
    reveal(evolve_next);
}

/// The question for documents is closed by a reply that calls no tool, or by a failure to ask, of
/// which the user is told. Then the user is told where the memo is, and evolution is over.
pub proof fn law_evolution_ends(s: EvolveState, reply: Seq<char>, error: Seq<char>)
    requires
        s.stage == EvolveStage::DocAsking,
        tool_start(reply, Some(s.guide), None) is None,
    ensures
        ({
            let closed = evolve_next(s, EventView::Reply(Ok(reply)));
            let failed = evolve_next(s, EventView::Reply(Err(error)));
            let told = EffectView::Notify { text: "Evolution memo: "@ + s.memo_path };
            &&& closed->Act_1 == told
            &&& failed->Act_1 == (EffectView::Notify { text: "Doc update LLM error: "@ + error })
            &&& evolve_next(failed->Act_0, EventView::Done)->Act_1 == told
            &&& evolve_next(closed->Act_0, EventView::Done) == EvolveStepView::Over
        }),
{
    reveal(evolve_next);
}

/// The text that was read at a position is the one that is shown, and nothing where none was.
pub proof fn law_read_texts_are_shown(read: Seq<Option<Seq<char>>>, i: int)
    ensures
        0 <= i < read.len() && read[i] is Some ==> text_at(read, i) == read[i]->0,
        !(0 <= i < read.len() && read[i] is Some) ==> text_at(read, i).len() == 0,
{
}

/// A tool that a reply calls begins at once, and as one that the agent may make while it evolves.
pub proof fn law_evolution_begins_tools(s: EvolveState, reply: Seq<char>)
    requires
        s.stage == EvolveStage::Asking || s.stage == EvolveStage::RefineAsking || s.stage
            == EvolveStage::DocAsking,
        s.stage != EvolveStage::DocAsking ==> !declines(reply),
    ensures
        tool_start(reply, Some(s.guide), None) matches Some(ToolStepView::Act(run, effect)) ==> {
            let heard = evolve_next(s, EventView::Reply(Ok(reply)));
            let begun = if s.stage == EvolveStage::Asking {
                evolve_next(heard->Act_0, EventView::Done)
            } else {
                heard
            };
            begun->Act_1 == effect && begun->Act_0.tool == Some(run)
        },
{
    if tool_start(reply, Some(s.guide), None) is Some {
        if s.stage == EvolveStage::Asking {
            lemma_reply_steps(s, reply);
        } else {
            lemma_later_reply(s, reply);
        }
    }
}

/// Reflection in an iteration starts from its beginning.
pub proof fn law_iteration_reflects_anew(s: EvolveState)
    requires
        s.stage == EvolveStage::IterStarted,
    ensures
        evolve_next(s, EventView::Done) matches EvolveStepView::Act(next, effect) && (reflect_after(
            seq![],
        ) matches ReflectStepView::Act(start, first) && effect == first && next.reflection == Some(
            start,
        ) && next.stage == EvolveStage::Reflecting && next.iter == s.iter),
{
    reveal(evolve_next);
}

/// Files that cannot be listed are taken to be none, and those that are listed are looked at in
/// order, each whether it is there before it is backed up.
pub proof fn law_changed_files_are_looked_at(s: EvolveState, listing: OutputView, error: Seq<char>)
    requires
        s.stage == EvolveStage::Changed,
    ensures
        ({
            let ls = lines(listing.stdout);
            let none = evolve_next(s, EventView::Output(Err(error)));
            let first = evolve_next(s, EventView::Output(Ok(listing)));
            let there = evolve_next(first->Act_0, EventView::Flag(true));
            let absent = evolve_next(first->Act_0, EventView::Flag(false));
            let kept = evolve_next(there->Act_0, EventView::Done);
            &&& !(none->Act_1 is Exists)
            &&& ls.len() > 0 ==> first->Act_1 == (EffectView::Exists { path: ls[0] })
                && there->Act_1 == (EffectView::Backup { path: ls[0] }) && absent->Act_1
                == kept->Act_1
            &&& ls.len() > 1 ==> kept->Act_1 == (EffectView::Exists { path: ls[1] })
        }),
{
    reveal(evolve_next);
}

/// A system prompt that cannot be read is taken to be empty.
pub proof fn law_evolution_goes_on_without_prompts(s: EvolveState, error: Seq<char>)
    ensures
        s.stage == EvolveStage::System ==> (evolve_next(
            s,
            EventView::Text(Err(error)),
        ) matches EvolveStepView::Act(next, _) && next.system.len() == 0),
        s.stage == EvolveStage::DocSystem ==> (evolve_next(
            s,
            EventView::Text(Err(error)),
        ) matches EvolveStepView::Act(next, _) && next.system.len() == 0),
{
    reveal(evolve_next);
}

} // verus!
