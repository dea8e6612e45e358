//! What the chat is for: which task a line of the user belongs to, what the model is told and
//! shown, what becomes of its replies, and where results go.

use crate::chat::{chat_after, chat_next, chat_tool, ChatStage, ChatState};
use crate::effect::{EffectView, EventView, NoteView, Said};
use crate::evolve::{evolve_next, EvolveStepView};
use crate::evolve_laws::log_entry;
use crate::json::Tree;
use crate::memory::index;
use crate::number::{decimal, law_decimal_is_injective};
use crate::run::{tool_next, tool_start, ToolState, ToolStepView};
use crate::run_laws::replied;
use crate::text::{begins, trimmed, uppercased};
use vstd::prelude::*;
use vstd::string::*;

verus! {

/// Where the results of the task with the given number go.
pub open spec fn folder_of(session: Seq<char>, task: nat) -> Seq<char> {
    "outputs/"@ + session + "/task_"@ + decimal(task)
}

/// The last 20 messages of a conversation.
pub open spec fn last_20(talk: Seq<Said>) -> Seq<Said> {
    if talk.len() <= 20 {
        talk
    } else {
        talk.skip(talk.len() - 20)
    }
}

/// A conversation after one more message.
pub open spec fn after_saying(talk: Seq<Said>, role: Seq<char>, content: Seq<char>) -> Seq<Said> {
    last_20(talk.push(Said { role, content }))
}

/// What the user says in a task, with the folder of that task.
pub open spec fn in_task(session: Seq<char>, task: nat, content: Seq<char>) -> Seq<char> {
    "[output_dir: "@ + folder_of(session, task) + "]\n"@ + content
}

/// A reply of the judge that says that a new task begins.
pub open spec fn says_new(reply: Seq<char>) -> bool {
    begins(uppercased(trimmed(reply)), "NEW"@)
}

/// The number of a task, as the log names it.
pub open spec fn task_only(task: u64) -> Map<Seq<char>, Tree> {
    Map::empty().insert("task"@, Tree::Count(task as nat))
}

/// Where the chat stands when it goes on from `s` and the outside answers with `events`.
pub open spec fn chat_run(s: ChatState, effect: EffectView, events: Seq<EventView>) -> (
    ChatState,
    EffectView,
)
    decreases events.len(),
{
    if events.len() == 0 {
        (s, effect)
    } else {
        let (next, effect) = chat_next(s, events[0]);
        chat_run(next, effect, events.skip(1))
    }
}

/// The number of the task changes only when the judge says that a new task begins and something
/// was said before. Then it goes up by one.
pub proof fn law_task_number_follows_the_judge(s: ChatState, event: EventView)
    requires
        s.task < u64::MAX,
    ensures
        ({
            let begun = s.stage == ChatStage::Judging && s.talk.len() > 0 && (
            event->Reply_0 matches Ok(reply) && says_new(reply));
            chat_next(s, event).0.task == if begun {
                s.task + 1
            } else {
                s.task as int
            }
        }),
{
}

proof fn lemma_task_bounded(session: Seq<char>, guide: Seq<char>, events: Seq<EventView>)
    requires
        events.len() < u64::MAX,
    ensures
        1 <= chat_after(session, guide, events).0.task <= events.len() + 1,
    decreases events.len(),
{
    if events.len() > 0 {
        lemma_task_bounded(session, guide, events.drop_last());
        law_task_number_follows_the_judge(
            chat_after(session, guide, events.drop_last()).0,
            events.last(),
        );
    }
}

proof fn lemma_task_grows(
    session: Seq<char>,
    guide: Seq<char>,
    events: Seq<EventView>,
    k: int,
)
    requires
        events.len() < u64::MAX,
        0 <= k <= events.len(),
    ensures
        chat_after(session, guide, events.take(k)).0.task <= chat_after(
            session,
            guide,
            events,
        ).0.task,
    decreases events.len(),
{
    if k < events.len() {
        let front = events.drop_last();
        lemma_task_grows(session, guide, front, k);
        assert(front.take(k) =~= events.take(k));
        lemma_task_bounded(session, guide, front);
        law_task_number_follows_the_judge(chat_after(session, guide, front).0, events.last());
    } else {
        assert(events.take(k) =~= events);
    }
}

proof fn lemma_folders_differ(session: Seq<char>, m: nat, n: nat)
    requires
        m != n,
    ensures
        folder_of(session, m) != folder_of(session, n),
{
    let front = "outputs/"@ + session + "/task_"@;
    let a = decimal(m);
    let b = decimal(n);
    assert(a =~= folder_of(session, m).skip(front.len() as int));
    assert(b =~= folder_of(session, n).skip(front.len() as int));
    if a == b {
        law_decimal_is_injective(m, n);
    }
}

/// When the judge says that a new task begins and something was said before, the task gets the
/// next number, and the folder that is made for it is not the folder of any earlier task of the
/// session.
pub proof fn law_new_task_has_a_new_folder(
    session: Seq<char>,
    guide: Seq<char>,
    events: Seq<EventView>,
    reply: Seq<char>,
)
    requires
        events.len() < u64::MAX - 1,
        chat_after(session, guide, events).0.stage == ChatStage::Judging,
        chat_after(session, guide, events).0.talk.len() > 0,
        says_new(reply),
    ensures
        ({
            let s = chat_after(session, guide, events).0;
            let (next, effect) = chat_after(
                session,
                guide,
                events.push(EventView::Reply(Ok(reply))),
            );
            &&& next == (ChatState {
                stage: ChatStage::NewFolder,
                task: (s.task + 1) as u64,
                ..s
            })
            &&& effect == (EffectView::MakeDir {
                path: folder_of(session, (s.task + 1) as nat),
            })
            &&& forall|k: int|
                0 <= k <= events.len() ==> effect != (EffectView::MakeDir {
                    path: folder_of(
                        session,
                        #[trigger] chat_after(session, guide, events.take(k)).0.task as nat,
                    ),
                })
        }),
{
    let s = chat_after(session, guide, events).0;
    let more = events.push(EventView::Reply(Ok(reply)));
    assert(more.drop_last() =~= events);
    assert(more.last() == EventView::Reply(Ok(reply)));
    lemma_task_bounded(session, guide, events);
    crate::chat::law_session_keeps_its_name(session, guide, events);
    assert forall|k: int| 0 <= k <= events.len() implies folder_of(
        session,
        (s.task + 1) as nat,
    ) != folder_of(
        session,
        #[trigger] chat_after(session, guide, events.take(k)).0.task as nat,
    ) by {
        lemma_task_grows(session, guide, events, k);
        lemma_folders_differ(
            session,
            (s.task + 1) as nat,
            chat_after(session, guide, events.take(k)).0.task as nat,
        );
    }
}

/// After the folder of a new task is made, the new task is logged by its number, and the model is
/// asked with the line of the user, and the folder of that task, as the last message. The line is
/// the prompt of the task.
pub proof fn law_new_task_begins(s: ChatState)
    requires
        s.stage == ChatStage::NewFolder,
    ensures
        ({
            let (bounded, log) = chat_next(s, EventView::Done);
            let (asked, question) = chat_next(bounded, EventView::Done);
            let talk = after_saying(
                s.talk,
                "user"@,
                in_task(s.session, s.task as nat, s.input),
            );
            &&& log == log_entry("task_boundary"@, task_only(s.task))
            &&& question == (EffectView::Ask { talk, system: s.system })
            &&& asked == (ChatState {
                stage: ChatStage::Asking,
                talk,
                prompt: s.input,
                turn: 1,
                ..s
            })
        }),
{
}

/// When the judge does not say that a new task begins, or nothing was said before, the task goes
/// on: the model is asked with the line of the user, and the folder of the task, as the last
/// message. The first line of all is the prompt of the task.
pub proof fn law_task_goes_on(s: ChatState, reply: Seq<char>)
    requires
        s.stage == ChatStage::Judging,
        !says_new(reply) || s.talk.len() == 0,
    ensures
        ({
            let (asked, question) = chat_next(s, EventView::Reply(Ok(reply)));
            let talk = after_saying(
                s.talk,
                "user"@,
                in_task(s.session, s.task as nat, s.input),
            );
            &&& question == (EffectView::Ask { talk, system: s.system })
            &&& asked == (ChatState {
                stage: ChatStage::Asking,
                talk,
                turn: 1,
                prompt: if s.talk.len() == 0 {
                    s.input
                } else {
                    s.prompt
                },
                ..s
            })
        }),
{
}

/// When the judge cannot be asked, the user is told why, and the task goes on as if the judge had
/// said so.
pub proof fn law_judge_error_is_told(s: ChatState, error: Seq<char>)
    requires
        s.stage == ChatStage::Judging,
    ensures
        ({
            let (failed, note) = chat_next(s, EventView::Reply(Err(error)));
            let (asked, question) = chat_next(failed, EventView::Done);
            let talk = after_saying(
                s.talk,
                "user"@,
                in_task(s.session, s.task as nat, s.input),
            );
            &&& note == (EffectView::Notify {
                text: "Task-judge error (defaulting CONTINUE): "@ + error,
            })
            &&& question == (EffectView::Ask { talk, system: s.system })
            &&& asked == (ChatState {
                stage: ChatStage::Asking,
                talk,
                turn: 1,
                prompt: if s.talk.len() == 0 {
                    s.input
                } else {
                    s.prompt
                },
                ..s
            })
        }),
{
}

/// A session starts with the entry of its start. The project's rules, the memory notes and the
/// system prompt are read, and make up, each whole, what the model is told of its role. Then the
/// folder of the first task is made, the user is told that all is ready, and has the floor.
pub proof fn law_session_begins(
    session: Seq<char>,
    guide: Seq<char>,
    rules: Seq<char>,
    notes: Option<Seq<NoteView>>,
    prompt: Seq<char>,
)
    ensures
        ({
            let (opened, start) = chat_after(session, guide, seq![]);
            let (reading, first) = chat_next(opened, EventView::Done);
            let (noting, second) = chat_next(reading, EventView::Text(Ok(rules)));
            let (prompting, third) = chat_next(noting, EventView::Memory(notes));
            let (made, fourth) = chat_next(prompting, EventView::Text(Ok(prompt)));
            let (ready, fifth) = chat_next(made, EventView::Done);
            let (listening, sixth) = chat_next(ready, EventView::Done);
            &&& start == log_entry("session_start"@, Map::empty())
            &&& first == (EffectView::ReadText { path: "src/AGENTS.md"@ })
            &&& second == EffectView::ReadMemory
            &&& third == (EffectView::ReadText { path: "src/prompts/"@ + "chat_system.txt"@ })
            &&& fourth == (EffectView::MakeDir { path: folder_of(session, 1) })
            &&& fifth == (EffectView::Notify {
                text: "Ready. /exit to quit, /evolve to evolve and relaunch."@,
            })
            &&& sixth == EffectView::NextInput
            &&& listening.stage == ChatStage::Listening
            &&& listening.system == prompt + "\n\n## Project rules (src/AGENTS.md)\n"@ + rules
                + "\n\n## Memory index (use read_file to load any entry)\n"@ + index(notes)
            &&& listening.task == 1
            &&& listening.talk.len() == 0
        }),
{
}

/// A session whose rules and system prompt cannot be read goes on without them.
pub proof fn law_session_begins_without_files(s: ChatState, error: Seq<char>)
    ensures
        s.stage == ChatStage::Rules ==> chat_next(s, EventView::Text(Err(error))).0.rules.len()
            == 0,
        s.stage == ChatStage::Prompt ==> chat_next(s, EventView::Text(Err(error))).0.system
            == "\n\n## Project rules (src/AGENTS.md)\n"@ + s.rules
            + "\n\n## Memory index (use read_file to load any entry)\n"@ + s.memory,
{
    if s.stage == ChatStage::Prompt {
        let empty: Seq<char> = seq![];
        assert(empty + "\n\n## Project rules (src/AGENTS.md)\n"@
            =~= "\n\n## Project rules (src/AGENTS.md)\n"@);
    }
}

/// A line of the user that is no command is logged whole. Then the judge is asked, with the last
/// six messages of the talk and the line, whole, as the last message.
pub proof fn law_line_is_judged(s: ChatState, line: Seq<char>)
    requires
        s.stage == ChatStage::Listening,
        trimmed(line).len() > 0,
        trimmed(line) != "/exit"@,
        trimmed(line) != "/evolve"@,
    ensures
        ({
            let (noted, log) = chat_next(s, EventView::Line(line));
            let (judging, question) = chat_next(noted, EventView::Done);
            let before = if s.talk.len() <= 6 {
                s.talk
            } else {
                s.talk.skip(s.talk.len() - 6)
            };
            &&& log == (EffectView::Log { kind: "user_input"@, data: Tree::Text(line) })
            &&& question == (EffectView::Ask {
                talk: before.push(Said { role: "user"@, content: line }),
                system: "You decide if a new user message starts a NEW task or continues the current one. Reply with exactly one word: NEW or CONTINUE."@,
            })
            &&& judging == (ChatState { stage: ChatStage::Judging, input: line, ..s })
        }),
{
}

/// Where no line has come, the chat waits for 50 milliseconds and looks again; where none can
/// come any more, the end of the session is logged and the chat stops. A line of white space is
/// passed over.
pub proof fn law_chat_waits_for_the_user(s: ChatState, line: Seq<char>)
    requires
        s.stage == ChatStage::Listening,
        trimmed(line).len() == 0,
    ensures
        ({
            let (resting, pause) = chat_next(s, EventView::NoLine { closed: false });
            let (ended, log) = chat_next(s, EventView::NoLine { closed: true });
            &&& pause == (EffectView::Pause { millis: 50 })
            &&& chat_next(resting, EventView::Done) == (s, EffectView::NextInput)
            &&& log == log_entry(
                "session_end"@,
                Map::empty().insert("turns"@, Tree::Count(s.task as nat)),
            )
            &&& chat_next(ended, EventView::Done).1 == EffectView::Stop
            &&& chat_next(s, EventView::Line(line)) == (s, EffectView::NextInput)
        }),
{
    assert(ChatState { stage: ChatStage::Listening, ..s } == s);
}

/// A user who leaves or has the agent evolve ends the session, which is logged with the number of
/// tasks and why. Before the agent evolves, the user is told so.
pub proof fn law_commands_end_the_session(s: ChatState, line: Seq<char>)
    requires
        s.stage == ChatStage::Listening,
    ensures
        ({
            let (next, log) = chat_next(s, EventView::Line(line));
            let turns = Map::<Seq<char>, Tree>::empty().insert("turns"@, Tree::Count(s.task as nat));
            &&& trimmed(line) == "/exit"@ ==> log == log_entry(
                "session_end"@,
                turns.insert("reason"@, Tree::Text("user /exit"@)),
            )
            &&& trimmed(line) == "/evolve"@ ==> log == log_entry(
                "session_end"@,
                turns.insert("reason"@, Tree::Text("user /evolve"@)),
            ) && chat_next(next, EventView::Done).1 == (EffectView::Notify {
                text: "Starting evolution loop..."@,
            })
        }),
{
    reveal_strlit("/exit");
    reveal_strlit("/evolve");
    assert("/exit"@.len() == 5 && "/evolve"@.len() == 7);
}

/// A reply of the model is logged with the task, the turn and its first 200 characters, and is
/// shown to the user whole.
pub proof fn law_reply_is_shown(s: ChatState, reply: Seq<char>)
    requires
        s.stage == ChatStage::Asking,
    ensures
        ({
            let (replied, log) = chat_next(s, EventView::Reply(Ok(reply)));
            let (shown, effect) = chat_next(replied, EventView::Done);
            &&& log == log_entry(
                "llm_response"@,
                task_only(s.task).insert("turn"@, Tree::Count(s.turn as nat)).insert(
                    "preview"@,
                    Tree::Text(
                        if reply.len() <= 200 {
                            reply
                        } else {
                            reply.take(200)
                        },
                    ),
                ),
            )
            &&& effect == (EffectView::Say { text: reply })
            &&& shown == (ChatState { stage: ChatStage::Shown, reply, ..s })
        }),
{
}

/// When the model cannot be asked, the user is told why and has the floor. What was said stays.
pub proof fn law_model_error_is_told(s: ChatState, error: Seq<char>)
    requires
        s.stage == ChatStage::Asking,
    ensures
        ({
            let (failed, note) = chat_next(s, EventView::Reply(Err(error)));
            let (listening, effect) = chat_next(failed, EventView::Done);
            &&& note == (EffectView::Notify { text: "LLM error: "@ + error })
            &&& effect == EffectView::NextInput
            &&& listening == (ChatState { stage: ChatStage::Listening, ..s })
        }),
{
}

/// While a tool of the model is at work, the chat takes the effects of the tool.
pub proof fn law_chat_runs_tools(s: ChatState, event: EventView)
    requires
        s.stage == ChatStage::Tool,
        s.tool is Some,
    ensures
        tool_next(s.tool->0, event) matches ToolStepView::Act(more, effect) ==> chat_next(s, event)
            == (ChatState { tool: Some(more), ..s }, effect),
{
}

proof fn lemma_tool_runs(
    s: ChatState,
    effect: EffectView,
    run: ToolState,
    events: Seq<EventView>,
    answer: Seq<char>,
)
    requires
        replied(ToolStepView::Act(run, effect), events) == Some(answer),
        s.stage == ChatStage::Tool,
        s.tool == Some(run),
    ensures
        chat_run(s, effect, events) == chat_tool(
            ChatState { tool: None, ..s },
            ToolStepView::Reply(answer),
        ),
    decreases events.len(),
{
    assert(events.len() > 0);
    let after = tool_next(run, events[0]);
    let rest = events.skip(1);
    assert(replied(after, rest) == Some(answer));
    let step = chat_next(s, events[0]);
    assert(step == chat_tool(s, after));
    match after {
        ToolStepView::Reply(r) => {
            assert(rest.len() == 0 && r == answer);
            assert(chat_run(step.0, step.1, rest) == step);
        },
        ToolStepView::Act(more, _) => {
            lemma_tool_runs(step.0, step.1, more, rest, answer);
            assert(ChatState { tool: None, ..step.0 } == ChatState { tool: None, ..s });
        },
    }
}

/// When a reply calls a tool, the tool is run to its end, with the folder of the task, and the
/// model is asked again in the same task, with its reply and the answer, whole, as the last
/// messages.
pub proof fn law_chat_hears_its_tools(
    s: ChatState,
    effect: EffectView,
    events: Seq<EventView>,
    answer: Seq<char>,
)
    requires
        s.stage == ChatStage::Shown,
        s.tool is None,
        tool_start(
            s.reply,
            None,
            Some(folder_of(s.session, s.task as nat)),
        ) matches Some(step) && replied(step, events) == Some(answer),
    ensures
        ({
            let (asked, question) = chat_run(s, effect, seq![EventView::Done] + events);
            let talk = after_saying(
                after_saying(s.talk, "assistant"@, s.reply),
                "user"@,
                answer,
            );
            &&& question == (EffectView::Ask { talk, system: s.system })
            &&& s.turn < u64::MAX ==> asked == (ChatState {
                stage: ChatStage::Asking,
                talk,
                turn: (s.turn + 1) as u64,
                ..s
            })
        }),
{
    let all = seq![EventView::Done] + events;
    let step = tool_start(s.reply, None, Some(folder_of(s.session, s.task as nat)))->0;
    assert(all.skip(1) =~= events);
    assert(all[0] == EventView::Done);
    let taken = ChatState { talk: after_saying(s.talk, "assistant"@, s.reply), ..s };
    let (next, first) = chat_next(s, EventView::Done);
    assert((next, first) == chat_tool(taken, step));
    match step {
        ToolStepView::Reply(_) => {
            assert(events.len() == 0);
            assert(chat_run(next, first, events) == (next, first));
        },
        ToolStepView::Act(run, work) => {
            lemma_tool_runs(next, work, run, events, answer);
        },
    }
    assert(chat_run(s, effect, all) == chat_run(next, first, events));
}

/// A reply that calls no tool is taken into the talk, and the model is asked whether the task is
/// complete, with the last twelve messages and the prompt of the task. What it says is logged.
/// Where it says that more is needed, it is asked to go on in the same task; else the user has the
/// floor.
pub proof fn law_task_is_seen_through(s: ChatState, reply: Seq<char>)
    requires
        s.stage == ChatStage::Shown,
        tool_start(s.reply, None, Some(folder_of(s.session, s.task as nat))) is None,
    ensures
        ({
            let talk = after_saying(s.talk, "assistant"@, s.reply);
            let shown = if talk.len() <= 12 {
                talk
            } else {
                talk.skip(talk.len() - 12)
            };
            let more = begins(uppercased(trimmed(reply)), "CONTINUE"@);
            let urged = after_saying(
                talk,
                "user"@,
                in_task(
                    s.session,
                    s.task as nat,
                    "More is needed. Continue with the same task."@,
                ),
            );
            let (asked, question) = chat_next(s, EventView::Done);
            let (answered, log) = chat_next(asked, EventView::Reply(Ok(reply)));
            let (next, effect) = chat_next(answered, EventView::Done);
            &&& question == (EffectView::Ask {
                talk: shown.push(
                    Said {
                        role: "user"@,
                        content: "Original user prompt:\n"@ + s.prompt + "\n\nIs it finished?"@,
                    },
                ),
                system: "You decide if the assistant has finished what the user asked for. Reply with exactly one word: DONE or CONTINUE."@,
            })
            &&& log == log_entry(
                "completion_check"@,
                task_only(s.task).insert("complete"@, Tree::Bool(!more)),
            )
            &&& more ==> effect == (EffectView::Ask { talk: urged, system: s.system }) && (s.turn
                < u64::MAX ==> next == (ChatState {
                stage: ChatStage::Asking,
                talk: urged,
                turn: (s.turn + 1) as u64,
                more,
                ..s
            }))
            &&& !more ==> effect == EffectView::NextInput && next == (ChatState {
                stage: ChatStage::Listening,
                talk,
                more,
                ..s
            })
        }),
{
}

/// A failure of the completion check is logged and told, and the user has the floor.
pub proof fn law_completion_error_is_told(s: ChatState, error: Seq<char>)
    requires
        s.stage == ChatStage::Completing,
    ensures
        ({
            let (failed, log) = chat_next(s, EventView::Reply(Err(error)));
            let (told, note) = chat_next(failed, EventView::Done);
            let (next, effect) = chat_next(told, EventView::Done);
            &&& log == log_entry(
                "completion_error"@,
                task_only(s.task).insert("error"@, Tree::Text(error)),
            )
            &&& note == (EffectView::Notify { text: "Completion-check error: "@ + error })
            &&& effect == EffectView::NextInput
            &&& next == (ChatState { stage: ChatStage::Listening, error, ..s })
        }),
{
}

/// While the agent evolves, the chat hands each answer to evolution and keeps where it stands.
pub proof fn law_chat_keeps_evolution(s: ChatState, event: EventView)
    requires
        s.stage == ChatStage::Evolving,
        s.evolution is Some,
    ensures
        evolve_next(s.evolution->0, event) matches EvolveStepView::Act(run, effect) ==> chat_next(
            s,
            event,
        ) == (ChatState { evolution: Some(run), ..s }, effect),
{
}

/// A tool that a reply calls begins once the reply was shown, with the folder of the task.
pub proof fn law_chat_begins_tools(s: ChatState)
    requires
        s.stage == ChatStage::Shown,
    ensures
        tool_start(
            s.reply,
            None,
            Some(folder_of(s.session, s.task as nat)),
        ) matches Some(ToolStepView::Act(run, effect)) ==> {
            let (next, taken) = chat_next(s, EventView::Done);
            taken == effect && next.stage == ChatStage::Tool && next.tool == Some(run)
        },
{
}

} // verus!
