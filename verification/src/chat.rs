//! The chat: the user's lines become tasks that the model works on with its tools.

use crate::effect::{
    following, latest, next_count, preview, preview_of, result_view, Effect, EffectView, Event,
    EventView, Fields, Kind, LogData, Said, Talk,
};
use crate::evolution::{evolve_mode, EvolveStep, Evolution};
use crate::evolve::{
    evolve_awaits, evolve_fits, evolve_next, evolve_start, lemma_evolution_fits,
    EvolveState, EvolveStepView,
};
use crate::json::Tree;
use crate::memory::{index, memory_index};
use crate::number::{decimal, law_decimal_is_injective, show};
use crate::paths::{prompt_file, prompt_path};
use crate::run::{
    fits, law_tool_answers_fit, or_empty, run_tool, text_or_empty, tool_next, tool_start, ToolRun,
    ToolState, ToolStep, ToolStepView,
};
use crate::subagent::tool_view;
use crate::text::{reply_says, same, says, trim, trimmed};
use vstd::prelude::*;
use vstd::string::*;

verus! {

/// How many messages the chat keeps.
pub const HISTORY_LIMIT: usize = 20;

/// How many messages the judge of tasks is shown.
pub const JUDGE_LIMIT: usize = 6;

/// How many messages the completion check is shown.
pub const COMPLETION_LIMIT: usize = 12;

/// How long to wait before the next look for a line of the user, in milliseconds.
pub const INPUT_MILLIS: u64 = 50;

/// Where the chat stands.
#[derive(PartialEq, Eq, Structural, Clone, Copy, Debug)]
pub enum ChatStage {
    /// The start is logged.
    Opened,
    /// The project's rules are read.
    Rules,
    /// The memory notes are read.
    Memory,
    /// The system prompt is read.
    Prompt,
    /// The folder of the first task is made.
    Folder,
    /// The user is told that all is ready.
    Ready,
    /// A line of the user is looked for.
    Listening,
    /// Time passes before the next look.
    Resting,
    /// The end of the input is logged.
    Ended,
    /// It is logged that the user leaves.
    Leaving,
    /// The user is taken leave of.
    Bye,
    /// It is logged that the user wants the agent to evolve.
    Turning,
    /// The user is told that the agent evolves.
    TurnTold,
    /// The time is asked for.
    Dating,
    /// The agent evolves.
    Evolving,
    /// The line of the user is logged.
    Noted,
    /// The model is asked whether a new task begins.
    Judging,
    /// The user is told that the judge could not be asked.
    JudgeFailed,
    /// The folder of a new task is made.
    NewFolder,
    /// The new task is logged.
    Bounded,
    /// The model is asked.
    Asking,
    /// The user is told that the model could not be asked.
    AskFailed,
    /// The reply is logged.
    Replied,
    /// The reply is shown.
    Shown,
    /// A tool call is under way.
    Tool,
    /// The model is asked whether the task is complete.
    Completing,
    /// The outcome of the completion check is logged.
    Completed,
    /// It is logged that the completion check failed.
    CheckLogged,
    /// The user is told that the completion check failed.
    CheckTold,
    /// All is done.
    Finished,
}

/// The state of the chat.
#[verifier::ext_equal]
pub struct ChatState {
    pub stage: ChatStage,
    /// The name of the session.
    pub session: Seq<char>,
    /// The document that tells coding agents how to work on the project.
    pub guide: Seq<char>,
    pub rules: Seq<char>,
    /// The index of the memory notes.
    pub memory: Seq<char>,
    pub system: Seq<char>,
    pub talk: Seq<Said>,
    pub task: u64,
    pub turn: u64,
    pub input: Seq<char>,
    /// The line with which the user began the task.
    pub prompt: Seq<char>,
    pub reply: Seq<char>,
    /// The completion check found that more is needed.
    pub more: bool,
    /// Why the completion check failed.
    pub error: Seq<char>,
    pub tool: Option<ToolState>,
    pub evolution: Option<EvolveState>,
}

impl ChatState {
    /// Where the results of the task go.
    pub open spec fn out_dir(self) -> Seq<char> {
        "outputs/"@ + self.session + "/task_"@ + decimal(self.task as nat)
    }

    /// What is under way can go on.
    pub open spec fn ready(self) -> bool {
        self.evolution matches Some(run) ==> run.ready()
    }
}

/// What the model is told of its role and surroundings.
pub open spec fn chat_system(prompt: Seq<char>, rules: Seq<char>, memory: Seq<char>) -> Seq<char> {
    prompt + "\n\n## Project rules (src/AGENTS.md)\n"@ + rules
        + "\n\n## Memory index (use read_file to load any entry)\n"@ + memory
}

/// What the judge of tasks is told of its role.
pub open spec fn judge_system() -> Seq<char> {
    "You decide if a new user message starts a NEW task or continues the current one. Reply with exactly one word: NEW or CONTINUE."@
}

/// What the judge of tasks is shown: the latest messages, and the line that came in.
pub open spec fn judged(talk: Seq<Said>, input: Seq<char>) -> Seq<Said> {
    latest(talk, JUDGE_LIMIT as int).push(Said { role: "user"@, content: input })
}

/// The judge says that a new task begins.
pub open spec fn judges_new(reply: Result<Seq<char>, Seq<char>>) -> bool {
    reply matches Ok(r) && says(r, "NEW"@)
}

/// What the completion check is told of its role.
pub open spec fn completion_system() -> Seq<char> {
    "You decide if the assistant has finished what the user asked for. Reply with exactly one word: DONE or CONTINUE."@
}

/// What the completion check is shown: the latest messages, and the line with which the user
/// began the task.
pub open spec fn completion(talk: Seq<Said>, prompt: Seq<char>) -> Seq<Said> {
    latest(talk, COMPLETION_LIMIT as int).push(
        Said { role: "user"@, content: "Original user prompt:\n"@ + prompt + "\n\nIs it finished?"@ },
    )
}

/// The completion check says that more is needed.
pub open spec fn needs_more(reply: Seq<char>) -> bool {
    says(reply, "CONTINUE"@)
}

/// A conversation with a message more, of which only the latest messages are kept.
pub open spec fn told(talk: Seq<Said>, role: Seq<char>, content: Seq<char>) -> Seq<Said> {
    latest(talk.push(Said { role, content }), HISTORY_LIMIT as int)
}

/// The state in which the chat of a session starts.
pub open spec fn chat_start(session: Seq<char>, guide: Seq<char>) -> ChatState {
    ChatState {
        stage: ChatStage::Opened,
        session,
        guide,
        rules: seq![],
        memory: seq![],
        system: seq![],
        talk: seq![],
        task: 1,
        turn: 0,
        input: seq![],
        prompt: seq![],
        reply: seq![],
        more: false,
        error: seq![],
        tool: None,
        evolution: None,
    }
}

/// The chat takes an effect at the given stage.
pub open spec fn chat_at(s: ChatState, stage: ChatStage, effect: EffectView) -> (
    ChatState,
    EffectView,
) {
    (ChatState { stage, ..s }, effect)
}

/// The chat logs an entry at the given stage.
pub open spec fn chat_logs(
    s: ChatState,
    stage: ChatStage,
    kind: Seq<char>,
    fields: Map<Seq<char>, Tree>,
) -> (ChatState, EffectView) {
    chat_at(s, stage, EffectView::Log { kind, data: Tree::Fields(fields) })
}

/// The chat tells the user something at the given stage.
pub open spec fn chat_tells(s: ChatState, stage: ChatStage, text: Seq<char>) -> (
    ChatState,
    EffectView,
) {
    chat_at(s, stage, EffectView::Notify { text })
}

/// The chat looks for a line of the user.
pub open spec fn chat_listens(s: ChatState) -> (ChatState, EffectView) {
    chat_at(s, ChatStage::Listening, EffectView::NextInput)
}

/// The field that counts the tasks at the end of a session.
pub open spec fn turns_field(s: ChatState) -> Map<Seq<char>, Tree> {
    Map::empty().insert("turns"@, Tree::Count(s.task as nat))
}

/// The user has typed a line.
pub open spec fn chat_hears(s: ChatState, input: Seq<char>) -> (ChatState, EffectView) {
    if trimmed(input).len() == 0 {
        chat_listens(s)
    } else if trimmed(input) == "/exit"@ {
        chat_logs(
            s,
            ChatStage::Leaving,
            "session_end"@,
            turns_field(s).insert("reason"@, Tree::Text("user /exit"@)),
        )
    } else if trimmed(input) == "/evolve"@ {
        chat_logs(
            s,
            ChatStage::Turning,
            "session_end"@,
            turns_field(s).insert("reason"@, Tree::Text("user /evolve"@)),
        )
    } else {
        chat_at(
            ChatState { input, ..s },
            ChatStage::Noted,
            EffectView::Log { kind: "user_input"@, data: Tree::Text(input) },
        )
    }
}

/// The model is asked for the next turn.
pub open spec fn chat_asks(s: ChatState) -> (ChatState, EffectView) {
    (
        ChatState { stage: ChatStage::Asking, turn: following(s.turn), ..s },
        EffectView::Ask { talk: s.talk, system: s.system },
    )
}

/// What the user says, with the folder to which the results go.
pub open spec fn stamped(s: ChatState, content: Seq<char>) -> Seq<char> {
    "[output_dir: "@ + s.out_dir() + "]\n"@ + content
}

/// The line of the user is taken into the talk; where it begins a task, it is kept as its prompt.
pub open spec fn chat_takes(s: ChatState, begins_task: bool) -> (ChatState, EffectView) {
    chat_asks(
        ChatState {
            talk: told(s.talk, "user"@, stamped(s, s.input)),
            prompt: if begins_task {
                s.input
            } else {
                s.prompt
            },
            turn: 0,
            ..s
        },
    )
}

/// The model is asked whether the task is complete.
pub open spec fn chat_checks(s: ChatState) -> (ChatState, EffectView) {
    chat_at(
        s,
        ChatStage::Completing,
        EffectView::Ask { talk: completion(s.talk, s.prompt), system: completion_system() },
    )
}

/// The field that names the task by its number.
pub open spec fn task_field(s: ChatState) -> Map<Seq<char>, Tree> {
    Map::empty().insert("task"@, Tree::Count(s.task as nat))
}

/// The completion check has answered.
pub open spec fn chat_checked(s: ChatState, reply: Result<Seq<char>, Seq<char>>) -> (
    ChatState,
    EffectView,
) {
    match reply {
        Ok(reply) => chat_logs(
            ChatState { more: needs_more(reply), ..s },
            ChatStage::Completed,
            "completion_check"@,
            task_field(s).insert("complete"@, Tree::Bool(!needs_more(reply))),
        ),
        Err(e) => chat_logs(
            ChatState { error: e, ..s },
            ChatStage::CheckLogged,
            "completion_error"@,
            task_field(s).insert("error"@, Tree::Text(e)),
        ),
    }
}

/// The task goes on where more is needed; else the user has the floor.
pub open spec fn chat_resumes(s: ChatState) -> (ChatState, EffectView) {
    if s.more {
        chat_asks(
            ChatState {
                talk: told(
                    s.talk,
                    "user"@,
                    stamped(s, "More is needed. Continue with the same task."@),
                ),
                ..s
            },
        )
    } else {
        chat_listens(s)
    }
}

/// The judge of tasks has decided.
pub open spec fn chat_judged(s: ChatState, new: bool) -> (ChatState, EffectView) {
    if new && s.talk.len() > 0 {
        let next = ChatState { task: following(s.task), ..s };
        chat_at(next, ChatStage::NewFolder, EffectView::MakeDir { path: next.out_dir() })
    } else {
        chat_takes(s, s.talk.len() == 0)
    }
}

/// A tool call goes on or has ended.
pub open spec fn chat_tool(s: ChatState, step: ToolStepView) -> (ChatState, EffectView) {
    match step {
        ToolStepView::Act(run, effect) => (
            ChatState { stage: ChatStage::Tool, tool: Some(run), ..s },
            effect,
        ),
        ToolStepView::Reply(answer) => chat_asks(
            ChatState { talk: told(s.talk, "user"@, answer), tool: None, ..s },
        ),
    }
}

/// Evolution goes on or is over.
pub open spec fn chat_evolves(s: ChatState, step: EvolveStepView) -> (ChatState, EffectView) {
    match step {
        EvolveStepView::Act(run, effect) => (
            ChatState { stage: ChatStage::Evolving, evolution: Some(run), ..s },
            effect,
        ),
        EvolveStepView::Over => (
            ChatState { stage: ChatStage::Finished, evolution: None, ..s },
            EffectView::Relaunch,
        ),
    }
}

/// The reply was shown: the tool that it calls is run, or it is checked whether the task is
/// complete.
pub open spec fn chat_acts(s: ChatState) -> (ChatState, EffectView) {
    let taken = ChatState { talk: told(s.talk, "assistant"@, s.reply), ..s };
    match tool_start(s.reply, None, Some(s.out_dir())) {
        Some(step) => chat_tool(taken, step),
        None => chat_checks(taken),
    }
}

/// The kind of answer that the chat waits for.
pub open spec fn chat_awaits(s: ChatState) -> Kind {
    match s.stage {
        ChatStage::Rules | ChatStage::Prompt => Kind::Text,
        ChatStage::Memory => Kind::Memory,
        ChatStage::Listening => Kind::Input,
        ChatStage::Dating => Kind::Time,
        ChatStage::Evolving => match s.evolution {
            Some(run) => evolve_awaits(run),
            None => Kind::Nothing,
        },
        ChatStage::Judging | ChatStage::Asking | ChatStage::Completing => Kind::Reply,
        ChatStage::Tool => match s.tool {
            Some(run) => run.stage.awaits(),
            None => Kind::Nothing,
        },
        ChatStage::Finished => Kind::Nothing,
        _ => Kind::Done,
    }
}

/// What comes next at a stage at which the chat itself is at work.
pub open spec fn talk_next(s: ChatState, event: EventView) -> (ChatState, EffectView) {
    match s.stage {
        ChatStage::Opened => chat_at(
            s,
            ChatStage::Rules,
            EffectView::ReadText { path: "src/AGENTS.md"@ },
        ),
        ChatStage::Rules => chat_at(
            ChatState { rules: or_empty(event->Text_0), ..s },
            ChatStage::Memory,
            EffectView::ReadMemory,
        ),
        ChatStage::Memory => chat_at(
            ChatState { memory: index(event->Memory_0), ..s },
            ChatStage::Prompt,
            EffectView::ReadText { path: prompt_path("chat_system.txt"@) },
        ),
        ChatStage::Prompt => chat_at(
            ChatState {
                system: chat_system(or_empty(event->Text_0), s.rules, s.memory),
                ..s
            },
            ChatStage::Folder,
            EffectView::MakeDir { path: s.out_dir() },
        ),
        ChatStage::Folder => chat_tells(
            s,
            ChatStage::Ready,
            "Ready. /exit to quit, /evolve to evolve and relaunch."@,
        ),
        ChatStage::Ready => chat_listens(s),
        ChatStage::Listening => match event {
            EventView::Line(input) => chat_hears(s, input),
            _ => if event->closed {
                chat_logs(s, ChatStage::Ended, "session_end"@, turns_field(s))
            } else {
                chat_at(s, ChatStage::Resting, EffectView::Pause { millis: INPUT_MILLIS })
            },
        },
        ChatStage::Resting => chat_listens(s),
        ChatStage::Ended => chat_at(s, ChatStage::Finished, EffectView::Stop),
        ChatStage::Leaving => chat_tells(s, ChatStage::Bye, "Bye."@),
        ChatStage::Bye => chat_at(s, ChatStage::Finished, EffectView::Quit),
        ChatStage::Turning => chat_tells(
            s,
            ChatStage::TurnTold,
            "Starting evolution loop..."@,
        ),
        ChatStage::TurnTold => chat_at(s, ChatStage::Dating, EffectView::Time),
        ChatStage::Noted => chat_at(
            s,
            ChatStage::Judging,
            EffectView::Ask { talk: judged(s.talk, s.input), system: judge_system() },
        ),
        ChatStage::Judging => match event->Reply_0 {
            Ok(_) => chat_judged(s, judges_new(event->Reply_0)),
            Err(e) => chat_tells(
                s,
                ChatStage::JudgeFailed,
                "Task-judge error (defaulting CONTINUE): "@ + e,
            ),
        },
        ChatStage::JudgeFailed => chat_judged(s, false),
        ChatStage::NewFolder => chat_logs(
            s,
            ChatStage::Bounded,
            "task_boundary"@,
            task_field(s),
        ),
        ChatStage::Bounded => chat_takes(s, true),
        ChatStage::Asking => match event->Reply_0 {
            Ok(reply) => chat_logs(
                ChatState { reply, ..s },
                ChatStage::Replied,
                "llm_response"@,
                task_field(s).insert(
                    "turn"@,
                    Tree::Count(s.turn as nat),
                ).insert("preview"@, Tree::Text(preview(reply))),
            ),
            Err(e) => chat_tells(s, ChatStage::AskFailed, "LLM error: "@ + e),
        },
        ChatStage::AskFailed => chat_listens(s),
        ChatStage::Replied => chat_at(s, ChatStage::Shown, EffectView::Say { text: s.reply }),
        ChatStage::Completing => chat_checked(s, event->Reply_0),
        ChatStage::Completed => chat_resumes(s),
        ChatStage::CheckLogged => chat_tells(
            s,
            ChatStage::CheckTold,
            "Completion-check error: "@ + s.error,
        ),
        ChatStage::CheckTold => chat_listens(s),
        _ => (s, EffectView::Stop),
    }
}

/// What comes next at a stage at which a tool or evolution is at work.
pub open spec fn work_next(s: ChatState, event: EventView) -> (ChatState, EffectView) {
    match s.stage {
        ChatStage::Dating => chat_evolves(
            s,
            EvolveStepView::Act(
                evolve_start(event->Time_0, s.guide),
                EffectView::MakeDir { path: ".evo/memos"@ },
            ),
        ),
        ChatStage::Evolving => chat_evolves(s, evolve_next(s.evolution->0, event)),
        ChatStage::Shown => chat_acts(s),
        _ => chat_tool(s, tool_next(s.tool->0, event)),
    }
}

impl ChatStage {
    /// A tool or evolution is at work.
    pub open spec fn at_work(self) -> bool {
        self == ChatStage::Dating || self == ChatStage::Evolving || self == ChatStage::Shown || self
            == ChatStage::Tool
    }
}

/// What comes next once the outside has answered.
pub open spec fn chat_next(s: ChatState, event: EventView) -> (ChatState, EffectView) {
    if s.stage.at_work() {
        work_next(s, event)
    } else {
        talk_next(s, event)
    }
}

/// Where the chat of a session stands, and the effect that it takes, after the outside has
/// answered with `events`.
pub open spec fn chat_after(
    session: Seq<char>,
    guide: Seq<char>,
    events: Seq<EventView>,
) -> (ChatState, EffectView)
    decreases events.len(),
{
    if events.len() == 0 {
        (
            chat_start(session, guide),
            EffectView::Log { kind: "session_start"@, data: Tree::Fields(Map::empty()) },
        )
    } else {
        chat_next(chat_after(session, guide, events.drop_last()).0, events.last())
    }
}

/// The answer that the chat waits for is the one that its last effect gets.
pub open spec fn chat_fits(step: (ChatState, EffectView)) -> bool {
    chat_awaits(step.0) == step.1.answer()
}

proof fn lemma_chat_tool_fits(s: ChatState, step: ToolStepView)
    requires
        fits(step),
    ensures
        chat_fits(chat_tool(s, step)),
{
}

proof fn lemma_chat_evolves_fits(s: ChatState, step: EvolveStepView)
    requires
        evolve_fits(step),
    ensures
        chat_fits(chat_evolves(s, step)),
{
}

proof fn lemma_chat_acts_fits(s: ChatState)
    ensures
        chat_fits(chat_acts(s)),
{
    if let Some(step) = tool_start(s.reply, None, Some(s.out_dir())) {
        law_tool_answers_fit(s.reply, None, Some(s.out_dir()), arbitrary(), EventView::Done);
        lemma_chat_tool_fits(
            ChatState { talk: told(s.talk, "assistant"@, s.reply), ..s },
            step,
        );
    }
}

proof fn lemma_talk_fits(s: ChatState, event: EventView)
    requires
        !s.stage.at_work(),
    ensures
        chat_fits(talk_next(s, event)),
{
}

proof fn lemma_work_fits(s: ChatState, event: EventView)
    requires
        s.stage.at_work(),
    ensures
        chat_fits(work_next(s, event)),
{
    match s.stage {
        ChatStage::Evolving => {
            lemma_evolution_fits(s.evolution->0, event);
            lemma_chat_evolves_fits(s, evolve_next(s.evolution->0, event));
        },
        ChatStage::Tool => {
            law_tool_answers_fit(seq![], None, None, s.tool->0, event);
            lemma_chat_tool_fits(s, tool_next(s.tool->0, event));
        },
        ChatStage::Shown => {
            lemma_chat_acts_fits(s);
        },
        _ => {},
    }
}

/// Whoever carries out each effect of the chat and hands back its answer can always go on.
pub proof fn law_chat_answers_fit(session: Seq<char>, guide: Seq<char>, events: Seq<EventView>)
    ensures
        ({
            let (s, effect) = chat_after(session, guide, events);
            chat_awaits(s) == effect.answer()
        }),
{
    if events.len() > 0 {
        let s = chat_after(session, guide, events.drop_last()).0;
        if s.stage.at_work() {
            lemma_work_fits(s, events.last());
        } else {
            lemma_talk_fits(s, events.last());
        }
    }
}

/// The chat never keeps more messages than its limit, whatever is said.
pub proof fn law_history_is_bounded(session: Seq<char>, guide: Seq<char>, events: Seq<EventView>)
    ensures
        chat_after(session, guide, events).0.talk.len() <= HISTORY_LIMIT,
    decreases events.len(),
{
    if events.len() > 0 {
        law_history_is_bounded(session, guide, events.drop_last());
    }
}

/// The message that is added last is kept, and before it the latest of the others.
pub proof fn law_newest_messages_are_kept(talk: Seq<Said>, role: Seq<char>, content: Seq<char>)
    ensures
        told(talk, role, content).len() > 0,
        told(talk, role, content).last() == (Said { role, content }),
        told(talk, role, content).drop_last() == latest(talk, HISTORY_LIMIT - 1),
{
    let all = talk.push(Said { role, content });
    assert(told(talk, role, content).drop_last() =~= latest(talk, HISTORY_LIMIT - 1));
    assert(all.last() == Said { role, content });
}

/// The judge of tasks is shown no more than its limit of the chat and the line that came in.
pub proof fn law_judge_sees_a_window(talk: Seq<Said>, input: Seq<char>)
    ensures
        judged(talk, input).len() <= JUDGE_LIMIT + 1,
        judged(talk, input).last() == (Said { role: "user"@, content: input }),
{
}

/// A session keeps its name, so that each task's results go to a folder of that session.
pub proof fn law_session_keeps_its_name(session: Seq<char>, guide: Seq<char>, events: Seq<EventView>)
    ensures
        chat_after(session, guide, events).0.session == session,
    decreases events.len(),
{
    if events.len() > 0 {
        law_session_keeps_its_name(session, guide, events.drop_last());
    }
}

/// A conversation that has not begun is not taken for another task, whatever the judge says.
pub proof fn law_first_task_needs_no_boundary(s: ChatState, reply: Seq<char>)
    requires
        s.stage == ChatStage::Judging,
        s.talk.len() == 0,
    ensures
        chat_next(s, EventView::Reply(Ok(reply))) == chat_takes(s, true),
{
}

/// When the judge cannot be asked, the task goes on.
pub proof fn law_failed_judge_continues(s: ChatState, error: Seq<char>)
    requires
        s.stage == ChatStage::Judging,
    ensures
        ({
            let failed = chat_next(s, EventView::Reply(Err(error))).0;
            chat_next(failed, EventView::Done) == chat_takes(failed, s.talk.len() == 0)
        }),
        chat_next(s, EventView::Reply(Err(error))).0.task == s.task,
{
}

/// The completion check is shown no more than its limit of the chat, and the line with which the
/// user began the task.
pub proof fn law_completion_sees_a_window(talk: Seq<Said>, prompt: Seq<char>)
    ensures
        completion(talk, prompt).len() <= COMPLETION_LIMIT + 1,
        completion(talk, prompt).drop_last() == latest(talk, COMPLETION_LIMIT as int),
        completion(talk, prompt).last().content == "Original user prompt:\n"@ + prompt
            + "\n\nIs it finished?"@,
{
    assert(completion(talk, prompt).drop_last() =~= latest(talk, COMPLETION_LIMIT as int));
}

/// A reply that calls no tool does not end a task by itself: the completion check is asked first.
/// Where it finds that more is needed, the same task goes on; where it finds that nothing is, or
/// fails, the user has the floor, and a failure is logged.
pub proof fn law_completion_is_checked(s: ChatState, reply: Seq<char>, error: Seq<char>)
    requires
        s.stage == ChatStage::Shown,
        tool_start(s.reply, None, Some(s.out_dir())) is None,
    ensures
        ({
            let talk = told(s.talk, "assistant"@, s.reply);
            let (asked, question) = chat_next(s, EventView::Done);
            let answered = chat_next(asked, EventView::Reply(Ok(reply))).0;
            let (next, effect) = chat_next(answered, EventView::Done);
            let (failed, log) = chat_next(asked, EventView::Reply(Err(error)));
            let reported = chat_next(failed, EventView::Done).0;
            &&& question == (EffectView::Ask {
                talk: completion(talk, s.prompt),
                system: completion_system(),
            })
            &&& needs_more(reply) ==> effect is Ask && next.stage == ChatStage::Asking && next.task
                == s.task && next.talk == told(
                talk,
                "user"@,
                stamped(s, "More is needed. Continue with the same task."@),
            )
            &&& !needs_more(reply) ==> effect == EffectView::NextInput && next.talk == talk
            &&& log is Log
            &&& chat_next(reported, EventView::Done).1 == EffectView::NextInput
        }),
{
}

/// A user who types `/exit` leaves: the end is logged, leave is taken, and the program ends.
pub proof fn law_exit_quits(s: ChatState, line: Seq<char>)
    requires
        s.stage == ChatStage::Listening,
        trimmed(line) == "/exit"@,
    ensures
        ({
            let (logged, log) = chat_next(s, EventView::Line(line));
            let (told, note) = chat_next(logged, EventView::Done);
            let (ended, quit) = chat_next(told, EventView::Done);
            &&& log is Log
            &&& note == (EffectView::Notify { text: "Bye."@ })
            &&& quit == EffectView::Quit
            &&& ended.stage == ChatStage::Finished
        }),
{
    reveal_strlit("/exit");
}

/// A user who types `/evolve` has the agent evolve, with the time that it is then.
pub proof fn law_evolve_begins(s: ChatState, line: Seq<char>, ts: u64)
    requires
        s.stage == ChatStage::Listening,
        trimmed(line) == "/evolve"@,
    ensures
        ({
            let logged = chat_next(s, EventView::Line(line)).0;
            let told = chat_next(logged, EventView::Done).0;
            let (dating, clock) = chat_next(told, EventView::Done);
            let (begun, first) = chat_next(dating, EventView::Time(ts));
            &&& clock == EffectView::Time
            &&& begun.stage == ChatStage::Evolving
            &&& begun.evolution == Some(evolve_start(ts, s.guide))
            &&& first == (EffectView::MakeDir { path: ".evo/memos"@ })
        }),
{
    reveal_strlit("/exit");
    reveal_strlit("/evolve");
    assert("/exit"@.len() == 5 && "/evolve"@.len() == 7);
}

/// While the agent evolves, the chat takes the effects of evolution, and once that is over, the
/// program is replaced by its new build.
pub proof fn law_evolution_ends_in_relaunch(s: ChatState, event: EventView)
    requires
        s.stage == ChatStage::Evolving,
        s.evolution is Some,
    ensures
        evolve_next(s.evolution->0, event) == EvolveStepView::Over ==> chat_next(s, event).1
            == EffectView::Relaunch,
        evolve_next(s.evolution->0, event) matches EvolveStepView::Act(run, effect) ==> chat_next(
            s,
            event,
        ).1 == effect,
{
}

/// Each task of a session has a folder of its own.
pub proof fn law_tasks_have_their_own_folders(s: ChatState, t: ChatState)
    requires
        s.session == t.session,
        s.out_dir() == t.out_dir(),
    ensures
        s.task == t.task,
{
    let front = "outputs/"@ + s.session + "/task_"@;
    let a = decimal(s.task as nat);
    let b = decimal(t.task as nat);
    assert(a =~= (front + a).skip(front.len() as int));
    assert(b =~= (front + b).skip(front.len() as int));
    law_decimal_is_injective(s.task as nat, t.task as nat);
}

/// The view of evolution, where it is under way.
pub open spec fn evolution_view(o: Option<Evolution>) -> Option<EvolveState> {
    match o {
        Some(run) => Some(run@),
        None => None,
    }
}

/// The chat of a session.
pub struct Chat {
    stage: ChatStage,
    session: String,
    guide: String,
    rules: String,
    memory: String,
    system: String,
    talk: Talk,
    task: u64,
    turn: u64,
    input: String,
    prompt: String,
    reply: String,
    more: bool,
    error: String,
    tool: Option<ToolRun>,
    evolution: Option<Evolution>,
}

impl View for Chat {
    type V = ChatState;

    closed spec fn view(&self) -> ChatState {
        ChatState {
            stage: self.stage,
            session: self.session@,
            guide: self.guide@,
            rules: self.rules@,
            memory: self.memory@,
            system: self.system@,
            talk: self.talk@,
            task: self.task,
            turn: self.turn,
            input: self.input@,
            prompt: self.prompt@,
            reply: self.reply@,
            more: self.more,
            error: self.error@,
            tool: tool_view(self.tool),
            evolution: evolution_view(self.evolution),
        }
    }
}

/// Begins the chat of a session, with the document that guides coding agents.
pub fn chat_mode(session: &str, guide: &str) -> (r: (Chat, Effect))
    ensures
        r.0@ == chat_start(session@, guide@),
        r.1@ == (EffectView::Log {
            kind: "session_start"@,
            data: Tree::Fields(Map::empty()),
        }),
{
    let chat = Chat {
        stage: ChatStage::Opened,
        session: session.to_owned(),
        guide: guide.to_owned(),
        rules: String::new(),
        memory: String::new(),
        system: String::new(),
        talk: Talk::new(),
        task: 1,
        turn: 0,
        input: String::new(),
        prompt: String::new(),
        reply: String::new(),
        more: false,
        error: String::new(),
        tool: None,
        evolution: None,
    };
    (
        chat,
        Effect::Log { kind: "session_start".to_owned(), data: LogData::Fields(Fields::new()) },
    )
}

/// What the model is told of its role and surroundings.
fn show_system(prompt: &str, rules: &str, memory: &str) -> (r: String)
    ensures
        r@ == chat_system(prompt@, rules@, memory@),
{
    let mut r = prompt.to_owned();
    r.append("\n\n## Project rules (src/AGENTS.md)\n");
    r.append(rules);
    r.append("\n\n## Memory index (use read_file to load any entry)\n");
    r.append(memory);
    r
}

/// The judge of tasks says that a new one begins.
pub fn is_new_task(reply: &str) -> (r: bool)
    ensures
        r == judges_new(Ok(reply@)),
{
    reply_says(reply, "NEW")
}

/// The completion check says that more is needed.
pub fn is_incomplete(reply: &str) -> (r: bool)
    ensures
        r == needs_more(reply@),
{
    reply_says(reply, "CONTINUE")
}

impl Chat {
    /// Takes an effect at the given stage.
    fn act(&mut self, stage: ChatStage, effect: Effect) -> (r: Effect)
        ensures
            (final(self)@, r@) == chat_at(old(self)@, stage, effect@),
    {
        self.stage = stage;
        effect
    }

    /// Logs an entry at the given stage.
    fn log(&mut self, stage: ChatStage, kind: &str, fields: Fields) -> (r: Effect)
        ensures
            (final(self)@, r@) == chat_logs(old(self)@, stage, kind@, fields@),
    {
        self.act(stage, Effect::Log { kind: kind.to_owned(), data: LogData::Fields(fields) })
    }

    /// Tells the user something at the given stage.
    fn tell(&mut self, stage: ChatStage, text: String) -> (r: Effect)
        ensures
            (final(self)@, r@) == chat_tells(old(self)@, stage, text@),
    {
        self.act(stage, Effect::Notify { text })
    }

    /// Looks for a line of the user.
    fn listen(&mut self) -> (r: Effect)
        ensures
            (final(self)@, r@) == chat_listens(old(self)@),
    {
        self.act(ChatStage::Listening, Effect::NextInput)
    }

    /// Where the results of the task go.
    pub fn out_dir(&self) -> (r: String)
        ensures
            r@ == self@.out_dir(),
    {
        let mut r = "outputs/".to_owned();
        r.append(self.session.as_str());
        r.append("/task_");
        r.append(show(self.task).as_str());
        r
    }

    /// Adds a message and keeps the latest.
    fn say(&mut self, role: &str, content: &str)
        ensures
            final(self)@ == (ChatState { talk: told(old(self)@.talk, role@, content@), ..old(self)@ }),
    {
        self.talk.say(role, content);
        if self.talk.len() > HISTORY_LIMIT {
            self.talk = self.talk.recent(HISTORY_LIMIT);
        }
    }

    /// The field that counts the tasks at the end of a session.
    fn turns(&self) -> (r: Fields)
        ensures
            r@ == turns_field(self@),
    {
        Fields::new().count("turns", self.task)
    }

    /// Goes on with a line of the user.
    fn hear(&mut self, input: String) -> (r: Effect)
        ensures
            (final(self)@, r@) == chat_hears(old(self)@, input@),
    {
        let trimmed_input = trim(input.as_str());
        if trimmed_input.unicode_len() == 0 {
            self.listen()
        } else if same(trimmed_input, "/exit") {
            let fields = self.turns().text("reason", "user /exit");
            self.log(ChatStage::Leaving, "session_end", fields)
        } else if same(trimmed_input, "/evolve") {
            let fields = self.turns().text("reason", "user /evolve");
            self.log(ChatStage::Turning, "session_end", fields)
        } else {
            let data = LogData::Text(input.clone());
            self.input = input;
            self.act(ChatStage::Noted, Effect::Log { kind: "user_input".to_owned(), data })
        }
    }

    /// Asks the model for the next turn.
    fn ask(&mut self) -> (r: Effect)
        ensures
            (final(self)@, r@) == chat_asks(old(self)@),
    {
        self.stage = ChatStage::Asking;
        self.turn = next_count(self.turn);
        Effect::Ask { talk: self.talk.copy(), system: self.system.clone() }
    }

    /// What the user says, with the folder to which the results go.
    fn stamp(&self, content: &str) -> (r: String)
        ensures
            r@ == stamped(self@, content@),
    {
        let mut r = "[output_dir: ".to_owned();
        r.append(self.out_dir().as_str());
        r.append("]\n");
        r.append(content);
        r
    }

    /// Takes the line of the user into the talk.
    fn take_input(&mut self, begins_task: bool) -> (r: Effect)
        ensures
            (final(self)@, r@) == chat_takes(old(self)@, begins_task),
    {
        let content = self.stamp(self.input.as_str());
        self.say("user", content.as_str());
        if begins_task {
            self.prompt = self.input.clone();
        }
        self.turn = 0;
        self.ask()
    }

    /// Asks whether the task is complete.
    fn check(&mut self) -> (r: Effect)
        ensures
            (final(self)@, r@) == chat_checks(old(self)@),
    {
        let mut content = "Original user prompt:\n".to_owned();
        content.append(self.prompt.as_str());
        content.append("\n\nIs it finished?");
        let mut talk = self.talk.recent(COMPLETION_LIMIT);
        talk.say("user", content.as_str());
        let system =
            "You decide if the assistant has finished what the user asked for. Reply with exactly one word: DONE or CONTINUE.".to_owned();
        self.act(ChatStage::Completing, Effect::Ask { talk, system })
    }

    /// Goes on after the completion check was asked.
    fn checked(&mut self, reply: Result<String, String>) -> (r: Effect)
        ensures
            (final(self)@, r@) == chat_checked(old(self)@, result_view(reply)),
    {
        let fields = Fields::new().count("task", self.task);
        match reply {
            Ok(reply) => {
                self.more = is_incomplete(reply.as_str());
                let fields = fields.flag("complete", !self.more);
                self.log(ChatStage::Completed, "completion_check", fields)
            },
            Err(e) => {
                let fields = fields.text("error", e.as_str());
                self.error = e;
                self.log(ChatStage::CheckLogged, "completion_error", fields)
            },
        }
    }

    /// Goes on with the task where more is needed.
    fn resume(&mut self) -> (r: Effect)
        ensures
            (final(self)@, r@) == chat_resumes(old(self)@),
    {
        if self.more {
            let content = self.stamp("More is needed. Continue with the same task.");
            self.say("user", content.as_str());
            self.ask()
        } else {
            self.listen()
        }
    }

    /// Asks the judge of tasks.
    fn ask_judge(&mut self) -> (r: Effect)
        requires
            old(self)@.stage == ChatStage::Noted,
        ensures
            (final(self)@, r@) == talk_next(old(self)@, EventView::Done),
    {
        let mut talk = self.talk.recent(JUDGE_LIMIT);
        talk.say("user", self.input.as_str());
        let system =
            "You decide if a new user message starts a NEW task or continues the current one. Reply with exactly one word: NEW or CONTINUE.".to_owned();
        self.act(ChatStage::Judging, Effect::Ask { talk, system })
    }

    /// Goes on after the judge of tasks has decided.
    fn decide(&mut self, new: bool) -> (r: Effect)
        ensures
            (final(self)@, r@) == chat_judged(old(self)@, new),
    {
        if new && self.talk.len() > 0 {
            self.task = next_count(self.task);
            let path = self.out_dir();
            self.act(ChatStage::NewFolder, Effect::MakeDir { path })
        } else {
            let begins_task = self.talk.len() == 0;
            self.take_input(begins_task)
        }
    }

    /// Goes on with a tool call.
    fn use_tool(&mut self, step: ToolStep) -> (r: Effect)
        ensures
            (final(self)@, r@) == chat_tool(old(self)@, step@),
    {
        match step {
            ToolStep::Act(run, effect) => {
                self.stage = ChatStage::Tool;
                self.tool = Some(run);
                effect
            },
            ToolStep::Reply(answer) => {
                self.tool = None;
                self.say("user", answer.as_str());
                self.ask()
            },
        }
    }

    /// Goes on with evolution.
    fn evolve(&mut self, step: EvolveStep) -> (r: Effect)
        ensures
            (final(self)@, r@) == chat_evolves(old(self)@, step@),
    {
        match step {
            EvolveStep::Act(run, effect) => {
                self.stage = ChatStage::Evolving;
                self.evolution = Some(run);
                effect
            },
            EvolveStep::Over => {
                self.stage = ChatStage::Finished;
                self.evolution = None;
                Effect::Relaunch
            },
        }
    }

    /// Goes on after the reply was shown.
    fn use_reply(&mut self) -> (r: Effect)
        ensures
            (final(self)@, r@) == chat_acts(old(self)@),
    {
        let reply = self.reply.clone();
        let out_dir = self.out_dir();
        self.say("assistant", reply.as_str());
        match run_tool(reply.as_str(), None, Some(out_dir.as_str())) {
            Some(step) => self.use_tool(step),
            None => self.check(),
        }
    }

    /// Goes on after the judge of tasks was asked.
    fn judged(&mut self, reply: Result<String, String>) -> (r: Effect)
        requires
            old(self)@.stage == ChatStage::Judging,
        ensures
            (final(self)@, r@) == talk_next(old(self)@, EventView::Reply(result_view(reply))),
    {
        match reply {
            Ok(reply) => {
                let new = is_new_task(reply.as_str());
                self.decide(new)
            },
            Err(e) => {
                let mut text = "Task-judge error (defaulting CONTINUE): ".to_owned();
                text.append(e.as_str());
                self.tell(ChatStage::JudgeFailed, text)
            },
        }
    }

    /// Goes on after the model was asked.
    fn answered(&mut self, reply: Result<String, String>) -> (r: Effect)
        requires
            old(self)@.stage == ChatStage::Asking,
        ensures
            (final(self)@, r@) == talk_next(old(self)@, EventView::Reply(result_view(reply))),
    {
        match reply {
            Ok(reply) => {
                let fields = Fields::new().count("task", self.task).count("turn", self.turn).text(
                    "preview",
                    preview_of(reply.as_str()),
                );
                self.reply = reply;
                self.log(ChatStage::Replied, "llm_response", fields)
            },
            Err(e) => {
                let mut text = "LLM error: ".to_owned();
                text.append(e.as_str());
                self.tell(ChatStage::AskFailed, text)
            },
        }
    }

    /// The kind of answer that the chat waits for.
    pub fn awaits(&self) -> (k: Kind)
        ensures
            k == chat_awaits(self@),
    {
        match self.stage {
            ChatStage::Rules | ChatStage::Prompt => Kind::Text,
            ChatStage::Memory => Kind::Memory,
            ChatStage::Listening => Kind::Input,
            ChatStage::Dating => Kind::Time,
            ChatStage::Evolving => match &self.evolution {
                Some(run) => run.awaits(),
                None => Kind::Nothing,
            },
            ChatStage::Judging | ChatStage::Asking | ChatStage::Completing => Kind::Reply,
            ChatStage::Tool => match &self.tool {
                Some(run) => run.awaits(),
                None => Kind::Nothing,
            },
            ChatStage::Finished => Kind::Nothing,
            _ => Kind::Done,
        }
    }

    /// Goes on while a tool or evolution is at work.
    fn step_work(&mut self, event: Event) -> (r: Effect)
        requires
            old(self)@.ready(),
            old(self)@.stage.at_work(),
            event@.kind() == chat_awaits(old(self)@),
        ensures
            (final(self)@, r@) == work_next(old(self)@, event@),
            final(self)@.ready(),
    {
        match self.stage {
            ChatStage::Dating => {
                if let Event::Time(ts) = event {
                    let (run, effect) = evolve_mode(ts, self.guide.as_str());
                    return self.evolve(EvolveStep::Act(run, effect));
                }
            },
            ChatStage::Evolving => {
                if let Some(run) = self.evolution.take() {
                    let step = run.step(event);
                    return self.evolve(step);
                }
            },
            ChatStage::Shown => {
                return self.use_reply();
            },
            _ => {
                if let Some(run) = self.tool.take() {
                    let step = run.step(event);
                    return self.use_tool(step);
                }
            },
        }
        Effect::Stop
    }

    /// Goes on while the chat itself is at work.
    fn step_talk(&mut self, event: Event) -> (r: Effect)
        requires
            !old(self)@.stage.at_work(),
            event@.kind() == chat_awaits(old(self)@),
        ensures
            (final(self)@, r@) == talk_next(old(self)@, event@),
    {
        match self.stage {
            ChatStage::Opened => {
                return self.act(
                    ChatStage::Rules,
                    Effect::ReadText { path: "src/AGENTS.md".to_owned() },
                );
            },
            ChatStage::Rules => {
                if let Event::Text(read) = event {
                    self.rules = text_or_empty(read);
                    return self.act(ChatStage::Memory, Effect::ReadMemory);
                }
            },
            ChatStage::Memory => {
                if let Event::Memory(files) = event {
                    self.memory = memory_index(&files);
                    return self.act(
                        ChatStage::Prompt,
                        Effect::ReadText { path: prompt_file("chat_system.txt") },
                    );
                }
            },
            ChatStage::Prompt => {
                if let Event::Text(read) = event {
                    let prompt = text_or_empty(read);
                    self.system = show_system(
                        prompt.as_str(),
                        self.rules.as_str(),
                        self.memory.as_str(),
                    );
                    let path = self.out_dir();
                    return self.act(ChatStage::Folder, Effect::MakeDir { path });
                }
            },
            ChatStage::Folder => {
                return self.tell(
                    ChatStage::Ready,
                    "Ready. /exit to quit, /evolve to evolve and relaunch.".to_owned(),
                );
            },
            ChatStage::Ready => {
                return self.listen();
            },
            ChatStage::Listening => {
                match event {
                    Event::Line(input) => {
                        return self.hear(input);
                    },
                    Event::NoLine { closed } => {
                        if closed {
                            let fields = self.turns();
                            return self.log(ChatStage::Ended, "session_end", fields);
                        }
                        return self.act(
                            ChatStage::Resting,
                            Effect::Pause { millis: INPUT_MILLIS },
                        );
                    },
                    _ => {},
                }
            },
            ChatStage::Resting => {
                return self.listen();
            },
            ChatStage::Ended => {
                return self.act(ChatStage::Finished, Effect::Stop);
            },
            ChatStage::Leaving => {
                return self.tell(ChatStage::Bye, "Bye.".to_owned());
            },
            ChatStage::Bye => {
                return self.act(ChatStage::Finished, Effect::Quit);
            },
            ChatStage::Turning => {
                return self.tell(ChatStage::TurnTold, "Starting evolution loop...".to_owned());
            },
            ChatStage::TurnTold => {
                return self.act(ChatStage::Dating, Effect::Time);
            },
            ChatStage::Noted => {
                return self.ask_judge();
            },
            ChatStage::Judging => {
                if let Event::Reply(reply) = event {
                    return self.judged(reply);
                }
            },
            ChatStage::JudgeFailed => {
                return self.decide(false);
            },
            ChatStage::NewFolder => {
                let fields = Fields::new().count("task", self.task);
                return self.log(ChatStage::Bounded, "task_boundary", fields);
            },
            ChatStage::Bounded => {
                return self.take_input(true);
            },
            ChatStage::Asking => {
                if let Event::Reply(reply) = event {
                    return self.answered(reply);
                }
            },
            ChatStage::AskFailed => {
                return self.listen();
            },
            ChatStage::Replied => {
                let text = self.reply.clone();
                return self.act(ChatStage::Shown, Effect::Say { text });
            },
            ChatStage::Completing => {
                if let Event::Reply(reply) = event {
                    return self.checked(reply);
                }
            },
            ChatStage::Completed => {
                return self.resume();
            },
            ChatStage::CheckLogged => {
                let mut text = "Completion-check error: ".to_owned();
                text.append(self.error.as_str());
                return self.tell(ChatStage::CheckTold, text);
            },
            ChatStage::CheckTold => {
                return self.listen();
            },
            _ => {},
        }
        Effect::Stop
    }

    /// Goes on with the answer to the last effect.
    pub fn step(&mut self, event: Event) -> (r: Effect)
        requires
            old(self)@.ready(),
            event@.kind() == chat_awaits(old(self)@),
        ensures
            (final(self)@, r@) == chat_next(old(self)@, event@),
            final(self)@.ready(),
    {
        match self.stage {
            ChatStage::Dating | ChatStage::Evolving | ChatStage::Shown | ChatStage::Tool => {
                self.step_work(event)
            },
            _ => self.step_talk(event),
        }
    }
}

} // verus!
