//! What a sub-agent is for: how it is briefed, what it hears, and what it leaves.

use crate::effect::{EffectView, EventView, Said};
use crate::json::Tree;
use crate::number::decimal;
use crate::run::{tool_next, tool_start, ToolState, ToolStepView};
use crate::run_laws::replied;
use crate::subagent::{agent_after, agent_next, agent_tool, AgentStage, AgentState};
use crate::text::contains;
use vstd::prelude::*;
use vstd::string::*;

verus! {

/// Where a sub-agent stands, and the effect that it takes, when it goes on from `s` and the
/// outside answers with `events`.
pub open spec fn agent_run(s: AgentState, effect: EffectView, events: Seq<EventView>) -> (
    AgentState,
    EffectView,
)
    decreases events.len(),
{
    if events.len() == 0 {
        (s, effect)
    } else {
        let (next, taken) = agent_next(s, events[0]);
        agent_run(next, taken, events.skip(1))
    }
}

/// What the log says at the end of a sub-agent.
pub open spec fn end_log(id: Seq<char>, result: Seq<char>) -> EffectView {
    EffectView::Log {
        kind: "sub_agent_end"@,
        data: Tree::Fields(
            Map::empty().insert("agent_id"@, Tree::Text(id)).insert("result"@, Tree::Text(result)),
        ),
    }
}

/// What the log says of a turn: the number of it, and the first 200 characters of the reply.
pub open spec fn turn_log(id: Seq<char>, turn: u64, reply: Seq<char>) -> EffectView {
    EffectView::Log {
        kind: "sub_agent_turn"@,
        data: Tree::Fields(
            Map::empty().insert("agent_id"@, Tree::Text(id)).insert(
                "turn"@,
                Tree::Count(turn as nat),
            ).insert(
                "preview"@,
                Tree::Text(
                    if reply.len() <= 200 {
                        reply
                    } else {
                        reply.take(200)
                    },
                ),
            ),
        ),
    }
}

/// A sub-agent reads its system prompt, logs its start and then asks the model, which is told the
/// whole task and where the result goes.
pub proof fn law_agent_is_briefed(
    id: Seq<char>,
    task: Seq<char>,
    output_path: Seq<char>,
    prompt: Seq<char>,
    error: Seq<char>,
)
    ensures
        ({
            let (start, first) = agent_after(id, task, output_path, seq![]);
            let (read, log) = agent_next(start, EventView::Text(Ok(prompt)));
            let (asked, question) = agent_next(read, EventView::Done);
            let unread = agent_next(start, EventView::Text(Err(error))).0;
            let told = Said {
                role: "user"@,
                content: "You are a sub-agent. Complete the task and write the result to "@
                    + output_path + ".\n\nTask:\n"@ + task,
            };
            &&& first == (EffectView::ReadText { path: "src/prompts/"@ + "chat_system.txt"@ })
            &&& log == (EffectView::Log {
                kind: "sub_agent_start"@,
                data: Tree::Fields(
                    Map::empty().insert("agent_id"@, Tree::Text(id)).insert(
                        "output_path"@,
                        Tree::Text(output_path),
                    ),
                ),
            })
            &&& question == (EffectView::Ask { talk: seq![told], system: prompt })
            &&& asked.turn == 1
            &&& agent_next(unread, EventView::Done).1 == (EffectView::Ask {
                talk: seq![told],
                system: seq![],
            })
        }),
{
}

/// A tool call of the sub-agent runs to its end, and then its answer is heard.
proof fn lemma_tool_runs(
    s: AgentState,
    effect: EffectView,
    run: ToolState,
    events: Seq<EventView>,
    answer: Seq<char>,
)
    requires
        replied(ToolStepView::Act(run, effect), events) == Some(answer),
        s.stage == AgentStage::Tool,
        s.tool == Some(run),
    ensures
        agent_run(s, effect, events) == agent_tool(s, ToolStepView::Reply(answer)),
    decreases events.len(),
{
    assert(events.len() > 0);
    let after = tool_next(run, events[0]);
    let rest = events.skip(1);
    let (next, taken) = agent_next(s, events[0]);
    assert((next, taken) == agent_tool(s, after));
    assert(replied(after, rest) == Some(answer));
    assert(agent_run(s, effect, events) == agent_run(next, taken, rest));
    match after {
        ToolStepView::Reply(r) => {
            assert(rest.len() == 0 && r == answer);
            assert(agent_run(next, taken, rest) == (next, taken));
        },
        ToolStepView::Act(more, _) => {
            lemma_tool_runs(next, taken, more, rest, answer);
            assert(AgentState { tool: None, ..next } == AgentState { tool: None, ..s });
        },
    }
}

/// When a reply of the model calls a tool, the turn is logged, the tool is run, and the model is
/// asked again, with its reply and the tool's answer, whole, as the last messages. Where the
/// answer tells that the output was written, the sub-agent ends instead, and says so.
pub proof fn law_agent_hears_its_tools(
    s: AgentState,
    effect: EffectView,
    reply: Seq<char>,
    events: Seq<EventView>,
    answer: Seq<char>,
)
    requires
        s.stage == AgentStage::Asking,
        tool_start(reply, None, None) matches Some(step) && replied(step, events) == Some(answer),
    ensures
        ({
            let (heard, log) = agent_next(s, EventView::Reply(Ok(reply)));
            let (next, taken) = agent_run(
                s,
                effect,
                seq![EventView::Reply(Ok(reply)), EventView::Done] + events,
            );
            let talk = s.talk.push(Said { role: "assistant"@, content: reply }).push(
                Said { role: "user"@, content: answer },
            );
            let written = contains(answer, "written "@ + s.output_path) || contains(
                answer,
                "written and verified OK"@,
            );
            &&& log == turn_log(s.id, s.turn, reply)
            &&& written ==> taken == end_log(s.id, "written "@ + s.output_path) && next == (
            AgentState {
                stage: AgentStage::Ending,
                talk,
                reply,
                result: "written "@ + s.output_path,
                tool: None,
                ..s
            })
            &&& !written ==> taken == (EffectView::Ask { talk, system: s.system }) && (s.turn
                < u64::MAX ==> next == (AgentState {
                stage: AgentStage::Asking,
                talk,
                reply,
                turn: (s.turn + 1) as u64,
                tool: None,
                ..s
            }))
        }),
{
    let said = EventView::Reply(Ok(reply));
    let all = seq![said, EventView::Done] + events;
    let (heard, log) = agent_next(s, said);
    let (acted, taken) = agent_next(heard, EventView::Done);
    let step = tool_start(reply, None, None)->0;
    let told = AgentState {
        talk: s.talk.push(Said { role: "assistant"@, content: reply }),
        ..heard
    };
    assert((acted, taken) == agent_tool(told, step));
    assert(all.skip(1) =~= seq![EventView::Done] + events);
    assert(all.skip(1).skip(1) =~= events);
    reveal_with_fuel(agent_run, 3);
    assert(agent_run(s, effect, all) == agent_run(acted, taken, events));
    match step {
        ToolStepView::Reply(r) => {
            assert(events.len() == 0);
        },
        ToolStepView::Act(run, _) => {
            lemma_tool_runs(acted, taken, run, events, answer);
        },
    }
}

/// When a reply of the model calls no tool and the output is not there, the one file that is
/// written is the output, and its text is the reply, whole. Where the output is there already,
/// nothing is written. Either way the sub-agent ends and its result is logged.
pub proof fn law_agent_leaves_its_reply(s: AgentState, reply: Seq<char>)
    requires
        s.stage == AgentStage::Asking,
        tool_start(reply, None, None) is None,
    ensures
        ({
            let (heard, log) = agent_next(s, EventView::Reply(Ok(reply)));
            let (checking, look) = agent_next(heard, EventView::Done);
            let (absent, folder) = agent_next(checking, EventView::Flag(false));
            let (saving, write) = agent_next(absent, EventView::Done);
            let (ending, end) = agent_next(saving, EventView::Done);
            let (present, end_too) = agent_next(checking, EventView::Flag(true));
            &&& log == turn_log(s.id, s.turn, reply)
            &&& look == (EffectView::Exists { path: s.output_path })
            &&& folder == (EffectView::MakeParent { path: s.output_path })
            &&& write == (EffectView::WriteText { path: s.output_path, text: reply })
            &&& end == end_log(s.id, "written "@ + s.output_path + " (from reply)"@)
            &&& ending.result == "written "@ + s.output_path + " (from reply)"@
            &&& end_too == end_log(s.id, s.result)
            &&& present.result == s.result
            &&& agent_next(ending, EventView::Done).1 == EffectView::Stop
            &&& agent_next(present, EventView::Done).1 == EffectView::Stop
            &&& agent_next(ending, EventView::Done).0.result == ending.result
        }),
{
}

/// A sub-agent whose model cannot be asked ends at once, and its result tells the turn and why.
pub proof fn law_agent_tells_its_error(s: AgentState, error: Seq<char>)
    requires
        s.stage == AgentStage::Asking,
    ensures
        ({
            let result = "sub-agent "@ + s.id + " LLM error turn "@ + decimal(s.turn as nat) + ": "@
                + error;
            let (ended, end) = agent_next(s, EventView::Reply(Err(error)));
            &&& end == end_log(s.id, result)
            &&& ended.result == result
            &&& agent_next(ended, EventView::Done).1 == EffectView::Stop
        }),
{
}

/// Until it ends, a sub-agent's result is that it has produced nothing.
pub proof fn law_agent_has_no_result_before_its_end(
    id: Seq<char>,
    task: Seq<char>,
    output_path: Seq<char>,
    events: Seq<EventView>,
)
    ensures
        ({
            let s = agent_after(id, task, output_path, events).0;
            s.stage != AgentStage::Ending && s.stage != AgentStage::Finished ==> s.result
                == "sub-agent "@ + id + ": no output produced"@
        }),
    decreases events.len(),
{
    if events.len() > 0 {
        law_agent_has_no_result_before_its_end(id, task, output_path, events.drop_last());
    }
}

/// A sub-agent takes the effects of the tools that its model calls, from the first on.
pub proof fn law_agent_runs_tools(s: AgentState, event: EventView)
    ensures
        s.stage == AgentStage::Heard ==> (tool_start(s.reply, None, None) matches Some(
            ToolStepView::Act(run, effect),
        ) ==> {
            let (next, taken) = agent_next(s, EventView::Done);
            taken == effect && next.stage == AgentStage::Tool && next.tool == Some(run)
        }),
        s.stage == AgentStage::Tool && s.tool is Some ==> (tool_next(
            s.tool->0,
            event,
        ) matches ToolStepView::Act(more, effect) ==> agent_next(s, event) == (
            AgentState { tool: Some(more), ..s },
            effect,
        )),
{
}

} // verus!
