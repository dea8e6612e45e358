//! A sub-agent: how it works on its task until the result is written.

use crate::agents::{AgentRegistry, Slot};
use crate::effect::{
    following, next_count, preview, preview_of, result_view, Effect, EffectView, Event, EventView,
    Fields, Kind, LogData, Said, Talk,
};
use crate::json::Tree;
use crate::number::{decimal, show};
use crate::paths::{prompt_file, prompt_path};
use crate::run::{
    fits, law_tool_answers_fit, lemma_works_without_agents, on_agents, or_empty, run_tool,
    text_or_empty, tool_next, tool_start, ToolRun, ToolState, ToolStep, ToolStepView,
};
use crate::text::{contains, has};
use vstd::prelude::*;
use vstd::string::*;

verus! {

/// Where a sub-agent stands.
#[derive(PartialEq, Eq, Structural, Clone, Copy, Debug)]
pub enum AgentStage {
    /// The system prompt is read.
    Prompt,
    /// The start is logged.
    Begun,
    /// The model is asked.
    Asking,
    /// The reply is logged.
    Heard,
    /// A tool call is under way.
    Tool,
    /// It is checked whether the output is there.
    Checking,
    /// The folder for the output is made.
    Parent,
    /// The reply is written as the output.
    Saving,
    /// The end is logged.
    Ending,
    /// All is done.
    Finished,
}

/// The state of a sub-agent.
#[verifier::ext_equal]
pub struct AgentState {
    pub stage: AgentStage,
    pub id: Seq<char>,
    pub output_path: Seq<char>,
    pub system: Seq<char>,
    pub talk: Seq<Said>,
    pub turn: u64,
    pub reply: Seq<char>,
    pub result: Seq<char>,
    pub tool: Option<ToolState>,
}

/// What a sub-agent is told.
pub open spec fn assignment(task: Seq<char>, output_path: Seq<char>) -> Seq<char> {
    "You are a sub-agent. Complete the task and write the result to "@ + output_path
        + ".\n\nTask:\n"@ + task
}

/// The state in which a sub-agent starts.
pub open spec fn agent_start(id: Seq<char>, task: Seq<char>, output_path: Seq<char>) -> AgentState {
    AgentState {
        stage: AgentStage::Prompt,
        id,
        output_path,
        system: seq![],
        talk: seq![Said { role: "user"@, content: assignment(task, output_path) }],
        turn: 0,
        reply: seq![],
        result: "sub-agent "@ + id + ": no output produced"@,
        tool: None,
    }
}

/// A tool's answer tells that the output was written.
pub open spec fn tells_written(answer: Seq<char>, output_path: Seq<char>) -> bool {
    contains(answer, "written "@ + output_path) || contains(answer, "written and verified OK"@)
}

/// The sub-agent ends with `result`.
pub open spec fn agent_ends(s: AgentState, result: Seq<char>) -> (AgentState, EffectView) {
    (
        AgentState { stage: AgentStage::Ending, result, ..s },
        EffectView::Log {
            kind: "sub_agent_end"@,
            data: Tree::Fields(
                Map::empty().insert("agent_id"@, Tree::Text(s.id)).insert(
                    "result"@,
                    Tree::Text(result),
                ),
            ),
        },
    )
}

/// The model is asked for the next turn.
pub open spec fn agent_asks(s: AgentState) -> (AgentState, EffectView) {
    (
        AgentState { stage: AgentStage::Asking, turn: following(s.turn), ..s },
        EffectView::Ask { talk: s.talk, system: s.system },
    )
}

/// A tool has answered.
pub open spec fn agent_hears(s: AgentState, answer: Seq<char>) -> (AgentState, EffectView) {
    let told = AgentState { talk: s.talk.push(Said { role: "user"@, content: answer }), ..s };
    if tells_written(answer, s.output_path) {
        agent_ends(told, "written "@ + s.output_path)
    } else {
        agent_asks(told)
    }
}

/// A tool call goes on or has ended.
pub open spec fn agent_tool(s: AgentState, step: ToolStepView) -> (AgentState, EffectView) {
    match step {
        ToolStepView::Act(run, effect) => (
            AgentState { stage: AgentStage::Tool, tool: Some(run), ..s },
            effect,
        ),
        ToolStepView::Reply(answer) => agent_hears(AgentState { tool: None, ..s }, answer),
    }
}

/// The kind of answer that a sub-agent waits for.
pub open spec fn agent_awaits(s: AgentState) -> Kind {
    match s.stage {
        AgentStage::Prompt => Kind::Text,
        AgentStage::Begun => Kind::Done,
        AgentStage::Asking => Kind::Reply,
        AgentStage::Heard => Kind::Done,
        AgentStage::Tool => match s.tool {
            Some(run) => run.stage.awaits(),
            None => Kind::Nothing,
        },
        AgentStage::Checking => Kind::Flag,
        AgentStage::Parent => Kind::Done,
        AgentStage::Saving => Kind::Done,
        AgentStage::Ending => Kind::Done,
        AgentStage::Finished => Kind::Nothing,
    }
}

/// What comes next once the outside has answered.
pub open spec fn agent_next(s: AgentState, event: EventView) -> (AgentState, EffectView) {
    match s.stage {
        AgentStage::Prompt => (
            AgentState { stage: AgentStage::Begun, system: or_empty(event->Text_0), ..s },
            EffectView::Log {
                kind: "sub_agent_start"@,
                data: Tree::Fields(
                    Map::empty().insert("agent_id"@, Tree::Text(s.id)).insert(
                        "output_path"@,
                        Tree::Text(s.output_path),
                    ),
                ),
            },
        ),
        AgentStage::Begun => agent_asks(s),
        AgentStage::Asking => match event->Reply_0 {
            Ok(reply) => (
                AgentState { stage: AgentStage::Heard, reply, ..s },
                EffectView::Log {
                    kind: "sub_agent_turn"@,
                    data: Tree::Fields(
                        Map::empty().insert("agent_id"@, Tree::Text(s.id)).insert(
                            "turn"@,
                            Tree::Count(s.turn as nat),
                        ).insert("preview"@, Tree::Text(preview(reply))),
                    ),
                },
            ),
            Err(e) => agent_ends(
                s,
                "sub-agent "@ + s.id + " LLM error turn "@ + decimal(s.turn as nat) + ": "@ + e,
            ),
        },
        AgentStage::Heard => {
            let told = AgentState {
                talk: s.talk.push(Said { role: "assistant"@, content: s.reply }),
                ..s
            };
            match tool_start(s.reply, None, None) {
                Some(step) => agent_tool(told, step),
                None => (
                    AgentState { stage: AgentStage::Checking, ..told },
                    EffectView::Exists { path: s.output_path },
                ),
            }
        },
        AgentStage::Tool => agent_tool(s, tool_next(s.tool->0, event)),
        AgentStage::Checking => if event->Flag_0 {
            agent_ends(s, s.result)
        } else {
            (
                AgentState { stage: AgentStage::Parent, ..s },
                EffectView::MakeParent { path: s.output_path },
            )
        },
        AgentStage::Parent => (
            AgentState { stage: AgentStage::Saving, ..s },
            EffectView::WriteText { path: s.output_path, text: s.reply },
        ),
        AgentStage::Saving => agent_ends(s, "written "@ + s.output_path + " (from reply)"@),
        AgentStage::Ending => (AgentState { stage: AgentStage::Finished, ..s }, EffectView::Stop),
        AgentStage::Finished => (s, EffectView::Stop),
    }
}

/// Where a sub-agent stands, and the effect that it takes, after the outside has answered with
/// `events`.
pub open spec fn agent_after(
    id: Seq<char>,
    task: Seq<char>,
    output_path: Seq<char>,
    events: Seq<EventView>,
) -> (AgentState, EffectView)
    decreases events.len(),
{
    if events.len() == 0 {
        (
            agent_start(id, task, output_path),
            EffectView::ReadText { path: prompt_path("chat_system.txt"@) },
        )
    } else {
        agent_next(agent_after(id, task, output_path, events.drop_last()).0, events.last())
    }
}

/// The answer that a sub-agent waits for is the one that its last effect gets.
pub open spec fn agent_fits(step: (AgentState, EffectView)) -> bool {
    agent_awaits(step.0) == step.1.answer()
}

proof fn lemma_agent_tool_fits(s: AgentState, step: ToolStepView)
    requires
        fits(step),
    ensures
        agent_fits(agent_tool(s, step)),
{
}

proof fn lemma_agent_fits(s: AgentState, event: EventView)
    ensures
        agent_fits(agent_next(s, event)),
{
    match s.stage {
        AgentStage::Heard => {
            law_tool_answers_fit(s.reply, None, None, arbitrary(), EventView::Done);
            if let Some(step) = tool_start(s.reply, None, None) {
                lemma_agent_tool_fits(
                    AgentState {
                        talk: s.talk.push(Said { role: "assistant"@, content: s.reply }),
                        ..s
                    },
                    step,
                );
            }
        },
        AgentStage::Tool => {
            law_tool_answers_fit(seq![], None, None, s.tool->0, event);
            lemma_agent_tool_fits(s, tool_next(s.tool->0, event));
        },
        _ => {},
    }
}

/// Whoever carries out each effect of a sub-agent and hands back its answer can always go on.
pub proof fn law_agent_answers_fit(
    id: Seq<char>,
    task: Seq<char>,
    output_path: Seq<char>,
    events: Seq<EventView>,
)
    ensures
        ({
            let (s, effect) = agent_after(id, task, output_path, events);
            agent_awaits(s) == effect.answer()
        }),
{
    if events.len() > 0 {
        lemma_agent_fits(
            agent_after(id, task, output_path, events.drop_last()).0,
            events.last(),
        );
    }
}

/// What a sub-agent has under way is no call on other sub-agents.
spec fn works_alone(s: AgentState) -> bool {
    s.stage == AgentStage::Tool ==> (s.tool matches Some(run) && !on_agents(run.stage))
}

proof fn lemma_works_alone(
    id: Seq<char>,
    task: Seq<char>,
    output_path: Seq<char>,
    events: Seq<EventView>,
)
    ensures
        ({
            let (s, effect) = agent_after(id, task, output_path, events);
            works_alone(s) && !(effect is StartAgent) && !(effect is PollAgent)
        }),
    decreases events.len(),
{
    if events.len() > 0 {
        lemma_works_alone(id, task, output_path, events.drop_last());
        let s = agent_after(id, task, output_path, events.drop_last()).0;
        lemma_works_without_agents(s.reply, None, s.tool->0, events.last());
    }
}

/// A sub-agent neither starts sub-agents nor waits for any, whatever the model replies.
pub proof fn law_agents_work_alone(
    id: Seq<char>,
    task: Seq<char>,
    output_path: Seq<char>,
    events: Seq<EventView>,
)
    ensures
        !(agent_after(id, task, output_path, events).1 is StartAgent),
        !(agent_after(id, task, output_path, events).1 is PollAgent),
{
    lemma_works_alone(id, task, output_path, events);
}

/// The result of a sub-agent from its end on is the one that is logged at its end, and nothing
/// that happens before changes what it is to write or what it is called.
pub proof fn law_agent_reports_its_result(
    id: Seq<char>,
    task: Seq<char>,
    output_path: Seq<char>,
    events: Seq<EventView>,
)
    ensures
        ({
            let (s, effect) = agent_after(id, task, output_path, events);
            &&& s.id == id
            &&& s.output_path == output_path
            &&& s.stage == AgentStage::Ending ==> effect == (EffectView::Log {
                kind: "sub_agent_end"@,
                data: Tree::Fields(
                    Map::empty().insert("agent_id"@, Tree::Text(id)).insert(
                        "result"@,
                        Tree::Text(s.result),
                    ),
                ),
            })
            &&& s.stage == AgentStage::Ending ==> forall|event: EventView|
                (#[trigger] agent_next(s, event)).0.result == s.result
        }),
    decreases events.len(),
{
    if events.len() > 0 {
        law_agent_reports_its_result(id, task, output_path, events.drop_last());
    }
}

/// The view of a tool call, where there is one.
pub open spec fn tool_view(o: Option<ToolRun>) -> Option<ToolState> {
    match o {
        Some(run) => Some(run@),
        None => None,
    }
}

/// The name of a sub-agent that is started at `ts`.
pub fn agent_name(ts: u64) -> (r: String)
    ensures
        r@ == "agent_"@ + decimal(ts as nat),
{
    let mut r = "agent_".to_owned();
    r.append(show(ts).as_str());
    r
}

/// A sub-agent at work.
pub struct SubAgent {
    stage: AgentStage,
    id: String,
    output_path: String,
    system: String,
    talk: Talk,
    turn: u64,
    reply: String,
    result: String,
    tool: Option<ToolRun>,
}

impl View for SubAgent {
    type V = AgentState;

    closed spec fn view(&self) -> AgentState {
        AgentState {
            stage: self.stage,
            id: self.id@,
            output_path: self.output_path@,
            system: self.system@,
            talk: self.talk@,
            turn: self.turn,
            reply: self.reply@,
            result: self.result@,
            tool: tool_view(self.tool),
        }
    }
}

/// A sub-agent with its task, and the first effect that it takes.
pub fn spawn_sub_agent(id: &str, task: &str, output_path: &str) -> (r: (SubAgent, Effect))
    ensures
        r.0@ == agent_start(id@, task@, output_path@),
        r.1@ == (EffectView::ReadText { path: prompt_path("chat_system.txt"@) }),
{
    let mut told =
        "You are a sub-agent. Complete the task and write the result to ".to_owned();
    told.append(output_path);
    told.append(".\n\nTask:\n");
    told.append(task);
    let mut result = "sub-agent ".to_owned();
    result.append(id);
    result.append(": no output produced");
    let agent = SubAgent {
        stage: AgentStage::Prompt,
        id: id.to_owned(),
        output_path: output_path.to_owned(),
        system: String::new(),
        talk: Talk::opening(told.as_str()),
        turn: 0,
        reply: String::new(),
        result,
        tool: None,
    };
    (agent, Effect::ReadText { path: prompt_file("chat_system.txt") })
}

/// Begins a sub-agent at the time `ts`: it is named after the time and entered in the registry,
/// where its result goes once it has finished. Returns its name, the number of its slot, and the
/// sub-agent with the first effect that it takes.
pub fn begin_agent(registry: &mut AgentRegistry, ts: u64, task: &str, out_path: &str) -> (r: (
    String,
    usize,
    SubAgent,
    Effect,
))
    ensures
        r.0@ == "agent_"@ + decimal(ts as nat),
        r.1 == old(registry)@.len(),
        final(registry)@ == old(registry)@.push(Slot { id: r.0@, result: None }),
        r.2@ == agent_start(r.0@, task@, out_path@),
        r.3@ == (EffectView::ReadText { path: prompt_path("chat_system.txt"@) }),
{
    let id = agent_name(ts);
    let slot = registry.register(id.as_str());
    let (agent, effect) = spawn_sub_agent(id.as_str(), task, out_path);
    (id, slot, agent, effect)
}

impl SubAgent {
    /// The result with which the sub-agent ends.
    pub fn result(&self) -> (r: &str)
        ensures
            r@ == self@.result,
    {
        self.result.as_str()
    }

    /// The kind of answer that the sub-agent waits for.
    pub fn awaits(&self) -> (k: Kind)
        ensures
            k == agent_awaits(self@),
    {
        match self.stage {
            AgentStage::Prompt => Kind::Text,
            AgentStage::Begun => Kind::Done,
            AgentStage::Asking => Kind::Reply,
            AgentStage::Heard => Kind::Done,
            AgentStage::Tool => match &self.tool {
                Some(run) => run.awaits(),
                None => Kind::Nothing,
            },
            AgentStage::Checking => Kind::Flag,
            AgentStage::Parent => Kind::Done,
            AgentStage::Saving => Kind::Done,
            AgentStage::Ending => Kind::Done,
            AgentStage::Finished => Kind::Nothing,
        }
    }

    /// Ends with `result`.
    fn end(&mut self, result: String) -> (r: Effect)
        ensures
            (final(self)@, r@) == agent_ends(old(self)@, result@),
    {
        let data = Fields::new().text("agent_id", self.id.as_str()).text("result", result.as_str());
        self.stage = AgentStage::Ending;
        self.result = result;
        Effect::Log { kind: "sub_agent_end".to_owned(), data: LogData::Fields(data) }
    }

    /// Asks the model for the next turn.
    fn ask(&mut self) -> (r: Effect)
        ensures
            (final(self)@, r@) == agent_asks(old(self)@),
    {
        self.stage = AgentStage::Asking;
        self.turn = next_count(self.turn);
        Effect::Ask { talk: self.talk.copy(), system: self.system.clone() }
    }

    /// Goes on after a tool has answered.
    fn hear(&mut self, answer: String) -> (r: Effect)
        ensures
            (final(self)@, r@) == agent_hears(old(self)@, answer@),
    {
        let mut written = "written ".to_owned();
        written.append(self.output_path.as_str());
        self.talk.say("user", answer.as_str());
        if has(answer.as_str(), written.as_str()) || has(
            answer.as_str(),
            "written and verified OK",
        ) {
            self.end(written)
        } else {
            self.ask()
        }
    }

    /// Goes on with a tool call.
    fn use_tool(&mut self, step: ToolStep) -> (r: Effect)
        ensures
            (final(self)@, r@) == agent_tool(old(self)@, step@),
    {
        match step {
            ToolStep::Act(run, effect) => {
                self.stage = AgentStage::Tool;
                self.tool = Some(run);
                effect
            },
            ToolStep::Reply(answer) => {
                self.tool = None;
                self.hear(answer)
            },
        }
    }

    /// Goes on after the model was asked.
    fn answered(&mut self, reply: Result<String, String>) -> (r: Effect)
        requires
            old(self)@.stage == AgentStage::Asking,
        ensures
            (final(self)@, r@) == agent_next(
                old(self)@,
                EventView::Reply(result_view(reply)),
            ),
    {
        match reply {
            Ok(reply) => {
                let data = Fields::new().text("agent_id", self.id.as_str()).count(
                    "turn",
                    self.turn,
                ).text("preview", preview_of(reply.as_str()));
                self.stage = AgentStage::Heard;
                self.reply = reply;
                Effect::Log { kind: "sub_agent_turn".to_owned(), data: LogData::Fields(data) }
            },
            Err(e) => {
                let mut result = "sub-agent ".to_owned();
                result.append(self.id.as_str());
                result.append(" LLM error turn ");
                result.append(show(self.turn).as_str());
                result.append(": ");
                result.append(e.as_str());
                self.end(result)
            },
        }
    }

    /// Goes on after the reply was logged.
    fn act(&mut self) -> (r: Effect)
        requires
            old(self)@.stage == AgentStage::Heard,
        ensures
            (final(self)@, r@) == agent_next(old(self)@, EventView::Done),
    {
        let reply = self.reply.clone();
        self.talk.say("assistant", reply.as_str());
        match run_tool(reply.as_str(), None, None) {
            Some(step) => self.use_tool(step),
            None => {
                self.stage = AgentStage::Checking;
                Effect::Exists { path: self.output_path.clone() }
            },
        }
    }

    /// Goes on with the answer to the last effect.
    pub fn step(&mut self, event: Event) -> (r: Effect)
        requires
            event@.kind() == agent_awaits(old(self)@),
        ensures
            (final(self)@, r@) == agent_next(old(self)@, event@),
    {
        match self.stage {
            AgentStage::Prompt => {
                if let Event::Text(read) = event {
                    let data = Fields::new().text("agent_id", self.id.as_str()).text(
                        "output_path",
                        self.output_path.as_str(),
                    );
                    self.stage = AgentStage::Begun;
                    self.system = text_or_empty(read);
                    return Effect::Log {
                        kind: "sub_agent_start".to_owned(),
                        data: LogData::Fields(data),
                    };
                }
            },
            AgentStage::Begun => {
                return self.ask();
            },
            AgentStage::Asking => {
                if let Event::Reply(reply) = event {
                    return self.answered(reply);
                }
            },
            AgentStage::Heard => {
                return self.act();
            },
            AgentStage::Tool => {
                if let Some(run) = self.tool.take() {
                    let step = run.step(event);
                    return self.use_tool(step);
                }
            },
            AgentStage::Checking => {
                if let Event::Flag(there) = event {
                    if there {
                        let result = self.result.clone();
                        return self.end(result);
                    }
                    self.stage = AgentStage::Parent;
                    return Effect::MakeParent { path: self.output_path.clone() };
                }
            },
            AgentStage::Parent => {
                self.stage = AgentStage::Saving;
                return Effect::WriteText {
                    path: self.output_path.clone(),
                    text: self.reply.clone(),
                };
            },
            AgentStage::Saving => {
                let mut result = "written ".to_owned();
                result.append(self.output_path.as_str());
                result.append(" (from reply)");
                return self.end(result);
            },
            AgentStage::Ending => {
                self.stage = AgentStage::Finished;
            },
            AgentStage::Finished => {},
        }
        Effect::Stop
    }
}

} // verus!
