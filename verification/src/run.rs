//! Running a tool call: which effects it takes, one after the other, and what is replied.

use crate::effect::{
    is_success, output_view, succeeded, unit_view, Effect, EffectView, Event, EventView, Fields,
    Kind, LogData, Output, OutputView,
};
use crate::json::Tree;
use crate::number::{decimal, show, show_signed, signed_decimal};
use crate::paths::{
    deletable, evolvable, has_backup_name, is_deletable, is_evolvable, stem, SELF_PATH,
};
use crate::text::{contains, cut, first_chars, has, head, same, split_once, trim, trimmed};
use crate::tool::{
    excerpt, extract_tool, parse_path_range, patch, patched, path_range, range_view, read_range,
    show_excerpt, shown_range, tool_call, READ_WINDOW,
};
use vstd::prelude::*;
use vstd::string::*;

verus! {

/// How many characters of a command's output are shown.
pub const OUTPUT_LIMIT: usize = 2000;

/// How many characters of a failed build's output are shown.
pub const BUILD_LIMIT: usize = 400;

/// How long to wait before a sub-agent is looked up again, in milliseconds.
pub const POLL_MILLIS: u64 = 200;

/// Where a tool call stands.
#[derive(PartialEq, Eq, Structural, Clone, Copy, Debug)]
pub enum ToolStage {
    /// The command runs.
    Shell,
    /// The file to write is backed up.
    Keeping,
    /// The folder of the file to write is made.
    Folder,
    /// The file to patch is read.
    Patch,
    /// The agent's own source is read, to have it back if need be.
    Saving,
    /// The agent's own source is rewritten.
    Trying,
    /// The agent is built.
    Building,
    /// The agent's own source is put back.
    Restoring,
    /// A file other than the agent's own source is written.
    Plain,
    /// A file is read.
    Reading,
    /// A file is deleted.
    Deleting,
    /// A sub-agent is started.
    Spawning,
    /// A sub-agent is looked up.
    Waiting,
    /// Time passes before the next look.
    Resting,
    /// The outcome is logged.
    Logged,
}

/// The state of a tool call: the stage, and what later stages need.
#[verifier::ext_equal]
pub struct ToolState {
    pub stage: ToolStage,
    pub path: Seq<char>,
    pub range: Option<(nat, nat)>,
    pub content: Seq<char>,
    pub saved: Seq<char>,
    pub reply: Seq<char>,
}

/// What comes next in a tool call: it ends with a reply, or takes an effect.
#[verifier::ext_equal]
pub enum ToolStepView {
    Reply(Seq<char>),
    Act(ToolState, EffectView),
}

/// A result as it is handed to the model.
pub open spec fn wrapped(result: Seq<char>) -> Seq<char> {
    "<tool_result>"@ + result + "</tool_result>"@
}

/// A text up to the first line feed, and what follows it.
pub open spec fn top_line(body: Seq<char>) -> (Seq<char>, Option<Seq<char>>) {
    match cut(body, "\n"@) {
        Some((line, rest)) => (line, Some(rest)),
        None => (body, None),
    }
}

/// The state in which nothing but the stage and a path is known.
pub open spec fn at(stage: ToolStage, path: Seq<char>) -> ToolState {
    ToolState { stage, path, range: None, content: seq![], saved: seq![], reply: seq![] }
}

/// The log entry of a tool call with the given fields.
pub open spec fn log_of(fields: Map<Seq<char>, Tree>) -> EffectView {
    EffectView::Log { kind: "tool_result"@, data: Tree::Fields(fields) }
}

/// The fields of a tool call's log entry to begin with.
pub open spec fn named(tool: Seq<char>) -> Map<Seq<char>, Tree> {
    Map::empty().insert("tool"@, Tree::Text(tool))
}

/// Logs the outcome, then replies with `result`.
pub open spec fn concluded(s: ToolState, fields: Map<Seq<char>, Tree>, result: Seq<char>) -> ToolStepView {
    ToolStepView::Act(ToolState { stage: ToolStage::Logged, reply: wrapped(result), ..s }, log_of(fields))
}

/// What a command that ran, or could not, looks like.
pub open spec fn shell_text(out: Result<OutputView, Seq<char>>) -> Seq<char> {
    let all = match out {
        Ok(o) => "exit="@ + signed_decimal(
            match o.code {
                Some(c) => c as int,
                None => -1,
            },
        ) + "\n"@ + o.stdout + o.stderr,
        Err(e) => "error: "@ + e,
    };
    head(all, OUTPUT_LIMIT as int)
}

/// What a build printed, or why it could not run.
pub open spec fn build_text(out: Result<OutputView, Seq<char>>) -> Seq<char> {
    match out {
        Ok(o) => o.stdout + o.stderr,
        Err(e) => e,
    }
}

/// A build failed that could not run, did not end well or printed an error.
pub open spec fn build_failed(out: Result<OutputView, Seq<char>>) -> bool {
    let printed = build_text(out);
    match out {
        Ok(o) => !succeeded(o) || contains(printed, "error["@) || contains(printed, "error: "@),
        Err(_) => true,
    }
}

/// What is said of a failed build.
pub open spec fn build_note(printed: Seq<char>) -> Seq<char> {
    "REJECTED (build failed, reverted):\n"@ + head(printed, BUILD_LIMIT as int)
}

/// The new content of a file is known: what is done with it.
pub open spec fn settled(s: ToolState) -> ToolStepView {
    if s.path == SELF_PATH@ {
        if s.content.len() == 0 {
            ToolStepView::Reply("<tool_result>REJECTED (empty content)</tool_result>"@)
        } else {
            ToolStepView::Act(
                ToolState { stage: ToolStage::Saving, ..s },
                EffectView::ReadText { path: s.path },
            )
        }
    } else {
        ToolStepView::Act(
            ToolState { stage: ToolStage::Plain, ..s },
            EffectView::WriteText { path: s.path, text: s.content },
        )
    }
}

/// How a write begins. While the agent evolves, the file is backed up first, unless its path has
/// no backup name.
pub open spec fn write_start(body: Seq<char>, evolve: Option<Seq<char>>) -> ToolStepView {
    let (line, rest) = top_line(body);
    let (path, range) = path_range(trimmed(line));
    let content = match rest {
        Some(r) => r,
        None => seq![],
    };
    if evolve matches Some(guide) && !evolvable(path, guide) {
        ToolStepView::Reply(
            "<tool_result>REJECTED (not an evolvable path: "@ + path + ")</tool_result>"@,
        )
    } else if evolve is Some && stem(path) is Some {
        ToolStepView::Act(
            ToolState { range, content, ..at(ToolStage::Keeping, path) },
            EffectView::Backup { path },
        )
    } else {
        ToolStepView::Act(
            ToolState { range, content, ..at(ToolStage::Folder, path) },
            EffectView::MakeParent { path },
        )
    }
}

/// How a deletion begins.
pub open spec fn delete_start(body: Seq<char>) -> ToolStepView {
    let path = trimmed(body);
    if deletable(path) {
        ToolStepView::Act(at(ToolStage::Deleting, path), EffectView::DeleteFile { path })
    } else {
        ToolStepView::Reply(
            "<tool_result>REJECTED (not a deletable path: "@ + path + ")</tool_result>"@,
        )
    }
}

/// How a sub-agent's start begins.
pub open spec fn spawn_start(body: Seq<char>, out_dir: Seq<char>) -> ToolStepView {
    let (line, rest) = top_line(body);
    let task = match rest {
        Some(r) => trimmed(r),
        None => trimmed(body),
    };
    let out_path = out_dir + "/"@ + trimmed(line);
    ToolStepView::Act(
        at(ToolStage::Spawning, out_path),
        EffectView::StartAgent { task, out_path },
    )
}

/// How the first tool call in `text` begins. There is none where `text` calls no tool, or an
/// unknown one, or one on sub-agents while none can be had, or one to delete a file while the
/// agent does not evolve. While it evolves, `evolve` names the guide.
pub open spec fn tool_start(
    text: Seq<char>,
    evolve: Option<Seq<char>>,
    out_dir: Option<Seq<char>>,
) -> Option<ToolStepView> {
    match tool_call(text) {
        None => None,
        Some((name, body)) => {
            if name == "bash"@ {
                Some(
                    ToolStepView::Act(
                        at(ToolStage::Shell, seq![]),
                        EffectView::Shell { command: body },
                    ),
                )
            } else if name == "write_file"@ {
                Some(write_start(body, evolve))
            } else if name == "delete_file"@ {
                match evolve {
                    Some(_) => Some(delete_start(body)),
                    None => None,
                }
            } else if name == "read_file"@ {
                let (path, range) = path_range(trimmed(body));
                Some(
                    ToolStepView::Act(
                        ToolState { range, ..at(ToolStage::Reading, path) },
                        EffectView::ReadText { path },
                    ),
                )
            } else if name == "spawn_agent"@ {
                match out_dir {
                    Some(dir) => Some(spawn_start(body, dir)),
                    None => None,
                }
            } else if name == "wait_agent"@ {
                match out_dir {
                    Some(_) => Some(
                        ToolStepView::Act(
                            at(ToolStage::Waiting, trimmed(body)),
                            EffectView::PollAgent { agent_id: trimmed(body) },
                        ),
                    ),
                    None => None,
                }
            } else {
                None
            }
        },
    }
}

impl ToolStage {
    /// The kind of answer that a stage waits for.
    pub open spec fn awaits(self) -> Kind {
        match self {
            ToolStage::Shell => Kind::Output,
            ToolStage::Keeping => Kind::Done,
            ToolStage::Folder => Kind::Done,
            ToolStage::Patch => Kind::Text,
            ToolStage::Saving => Kind::Text,
            ToolStage::Trying => Kind::Done,
            ToolStage::Building => Kind::Output,
            ToolStage::Restoring => Kind::Done,
            ToolStage::Plain => Kind::Done,
            ToolStage::Reading => Kind::Text,
            ToolStage::Deleting => Kind::Removed,
            ToolStage::Spawning => Kind::Started,
            ToolStage::Waiting => Kind::Polled,
            ToolStage::Resting => Kind::Done,
            ToolStage::Logged => Kind::Done,
        }
    }
}

/// The text that was read, empty where it could not be.
pub open spec fn or_empty(r: Result<Seq<char>, Seq<char>>) -> Seq<char> {
    match r {
        Ok(t) => t,
        Err(_) => seq![],
    }
}

/// The state once the old content of the file is known: the new content takes the place of the
/// range that was given.
pub open spec fn patched_state(s: ToolState, existing: Seq<char>) -> ToolState {
    match s.range {
        Some(range) => ToolState { content: patched(existing, range, s.content), ..s },
        None => s,
    }
}

/// What comes next once the outside has answered.
pub open spec fn tool_next(s: ToolState, event: EventView) -> ToolStepView {
    match s.stage {
        ToolStage::Shell => {
            let out = shell_text(event->Output_0);
            concluded(s, named("bash"@).insert("result"@, Tree::Text(out)), out)
        },
        ToolStage::Keeping => ToolStepView::Act(
            ToolState { stage: ToolStage::Folder, ..s },
            EffectView::MakeParent { path: s.path },
        ),
        ToolStage::Folder => match s.range {
            Some(_) => ToolStepView::Act(
                ToolState { stage: ToolStage::Patch, ..s },
                EffectView::ReadText { path: s.path },
            ),
            None => settled(s),
        },
        ToolStage::Patch => settled(patched_state(s, or_empty(event->Text_0))),
        ToolStage::Saving => ToolStepView::Act(
            ToolState { stage: ToolStage::Trying, saved: or_empty(event->Text_0), ..s },
            EffectView::WriteText { path: s.path, text: s.content },
        ),
        ToolStage::Trying => ToolStepView::Act(
            ToolState { stage: ToolStage::Building, ..s },
            EffectView::Build,
        ),
        ToolStage::Building => {
            let printed = build_text(event->Output_0);
            if build_failed(event->Output_0) {
                ToolStepView::Act(
                    ToolState {
                        stage: ToolStage::Restoring,
                        content: build_note(printed),
                        ..s
                    },
                    EffectView::WriteText { path: s.path, text: s.saved },
                )
            } else {
                concluded(
                    s,
                    named("write_file"@).insert("path"@, Tree::Text(s.path)).insert(
                        "result"@,
                        Tree::Text("written and verified OK"@),
                    ),
                    "written and verified OK"@,
                )
            }
        },
        ToolStage::Restoring => concluded(
            s,
            named("write_file"@).insert("path"@, Tree::Text(s.path)).insert(
                "result"@,
                Tree::Text(s.content),
            ),
            s.content,
        ),
        ToolStage::Plain => concluded(
            s,
            named("write_file"@).insert("path"@, Tree::Text(s.path)),
            "written "@ + s.path,
        ),
        ToolStage::Reading => match event->Text_0 {
            Ok(text) => {
                let (start, end) = read_range(s.range, text.len());
                concluded(
                    s,
                    named("read_file"@).insert("path"@, Tree::Text(s.path)).insert(
                        "range"@,
                        Tree::Text(decimal(start as nat) + ".."@ + decimal(end as nat)),
                    ),
                    excerpt(s.path, text, s.range),
                )
            },
            Err(e) => ToolStepView::Reply(wrapped("ERROR reading "@ + s.path + ": "@ + e)),
        },
        ToolStage::Deleting => match event->Removed_0 {
            Ok(_) => concluded(
                s,
                named("delete_file"@).insert("path"@, Tree::Text(s.path)),
                "deleted "@ + s.path,
            ),
            Err(e) => ToolStepView::Reply(wrapped("ERROR deleting "@ + s.path + ": "@ + e)),
        },
        ToolStage::Spawning => {
            let id = event->Started_0;
            concluded(
                s,
                named("spawn_agent"@).insert("agent_id"@, Tree::Text(id)),
                "spawned "@ + id + " → "@ + s.path + "\nUse <tool name=\"wait_agent\">"@ + id
                    + "</tool> to block."@,
            )
        },
        ToolStage::Waiting => match event->Polled_0 {
            Some(result) => concluded(
                s,
                named("wait_agent"@).insert("agent_id"@, Tree::Text(s.path)).insert(
                    "result"@,
                    Tree::Text(result),
                ),
                "agent "@ + s.path + " finished: "@ + result,
            ),
            None => ToolStepView::Act(
                ToolState { stage: ToolStage::Resting, ..s },
                EffectView::Pause { millis: POLL_MILLIS },
            ),
        },
        ToolStage::Resting => ToolStepView::Act(
            ToolState { stage: ToolStage::Waiting, ..s },
            EffectView::PollAgent { agent_id: s.path },
        ),
        ToolStage::Logged => ToolStepView::Reply(s.reply),
    }
}

/// The effects that a tool call takes while the outside answers with `events`.
pub open spec fn effects(step: ToolStepView, events: Seq<EventView>) -> Seq<EffectView>
    decreases events.len(),
{
    match step {
        ToolStepView::Reply(_) => seq![],
        ToolStepView::Act(s, effect) => if events.len() == 0 {
            seq![effect]
        } else {
            seq![effect] + effects(tool_next(s, events[0]), events.skip(1))
        },
    }
}

/// What the file at `path` holds after `done`, when it held `before` first.
pub open spec fn held(before: Seq<char>, path: Seq<char>, done: Seq<EffectView>) -> Seq<char>
    decreases done.len(),
{
    if done.len() == 0 {
        before
    } else {
        match done[0] {
            EffectView::WriteText { path: p, text } => held(
                if p == path {
                    text
                } else {
                    before
                },
                path,
                done.skip(1),
            ),
            _ => held(before, path, done.skip(1)),
        }
    }
}

/// An effect that writes no file but one that may evolve, and deletes none but one that may be
/// deleted.
pub open spec fn confined(effect: EffectView, guide: Seq<char>) -> bool {
    match effect {
        EffectView::WriteText { path, .. } => evolvable(path, guide),
        EffectView::DeleteFile { path } => deletable(path),
        EffectView::AppendText { path, .. } => evolvable(path, guide),
        EffectView::MakeParent { path } => evolvable(path, guide),
        _ => true,
    }
}

/// A state from which only files that may evolve are written.
pub open spec fn stays_in(s: ToolState, guide: Seq<char>) -> bool {
    match s.stage {
        ToolStage::Keeping | ToolStage::Folder | ToolStage::Patch | ToolStage::Saving
        | ToolStage::Trying | ToolStage::Building | ToolStage::Restoring
        | ToolStage::Plain => evolvable(s.path, guide),
        _ => true,
    }
}

/// A tool call that writes only where the agent may evolve.
pub open spec fn keeps_confined(step: ToolStepView, guide: Seq<char>) -> bool {
    match step {
        ToolStepView::Reply(_) => true,
        ToolStepView::Act(s, effect) => confined(effect, guide) && stays_in(s, guide),
    }
}

/// A tool call that has to do with sub-agents.
pub open spec fn on_agents(stage: ToolStage) -> bool {
    stage == ToolStage::Spawning || stage == ToolStage::Waiting || stage == ToolStage::Resting
}

/// A tool call that has nothing to do with sub-agents.
pub open spec fn works_without_agents(step: ToolStepView) -> bool {
    match step {
        ToolStepView::Reply(_) => true,
        ToolStepView::Act(s, effect) => !on_agents(s.stage) && !(effect is StartAgent) && !(
        effect is PollAgent),
    }
}

/// A tool call that the agent makes while it evolves begins confined.
pub proof fn lemma_starts_confined(text: Seq<char>, guide: Seq<char>, out_dir: Option<Seq<char>>)
    ensures
        tool_start(text, Some(guide), out_dir) matches Some(step) ==> keeps_confined(step, guide),
{
}

/// A tool call that is confined goes on confined.
pub proof fn lemma_goes_on_confined(s: ToolState, event: EventView, guide: Seq<char>)
    requires
        stays_in(s, guide),
    ensures
        keeps_confined(tool_next(s, event), guide),
{
}

/// Where no sub-agents can be had, a tool call has nothing to do with them.
pub proof fn lemma_works_without_agents(
    text: Seq<char>,
    evolve: Option<Seq<char>>,
    s: ToolState,
    event: EventView,
)
    ensures
        tool_start(text, evolve, None) matches Some(step) ==> works_without_agents(step),
        !on_agents(s.stage) ==> works_without_agents(tool_next(s, event)),
{
}

proof fn lemma_stays_confined(step: ToolStepView, events: Seq<EventView>, guide: Seq<char>)
    requires
        keeps_confined(step, guide),
    ensures
        forall|i: int|
            0 <= i < effects(step, events).len() ==> confined(
                #[trigger] effects(step, events)[i],
                guide,
            ),
    decreases events.len(),
{
    match step {
        ToolStepView::Reply(_) => {},
        ToolStepView::Act(s, effect) => {
            if events.len() > 0 {
                let next = tool_next(s, events[0]);
                lemma_stays_confined(next, events.skip(1), guide);
                let rest = effects(next, events.skip(1));
                assert forall|i: int| 0 <= i < effects(step, events).len() implies confined(
                    #[trigger] effects(step, events)[i],
                    guide,
                ) by {
                    if i > 0 {
                        assert(effects(step, events)[i] == rest[i - 1]);
                    }
                }
            }
        },
    }
}

/// While the agent evolves, a tool call writes no file outside those that may evolve, and deletes
/// none outside those that may be deleted, whatever the outside answers.
pub proof fn law_evolution_is_confined(
    text: Seq<char>,
    guide: Seq<char>,
    out_dir: Option<Seq<char>>,
    events: Seq<EventView>,
)
    ensures
        match tool_start(text, Some(guide), out_dir) {
            Some(step) => forall|i: int|
                0 <= i < effects(step, events).len() ==> confined(
                    #[trigger] effects(step, events)[i],
                    guide,
                ),
            None => true,
        },
{
    match tool_start(text, Some(guide), out_dir) {
        Some(step) => {
            lemma_stays_confined(step, events, guide);
        },
        None => {},
    }
}

/// How the outside answers a write of the agent's own source, which holds `before`, when the
/// build leaves `out`.
pub open spec fn rewrite_answers(
    ranged: bool,
    before: Seq<char>,
    out: Result<OutputView, Seq<char>>,
) -> Seq<EventView> {
    let tail = seq![
        EventView::Text(Ok(before)),
        EventView::Done,
        EventView::Output(out),
        EventView::Done,
        EventView::Done,
    ];
    if ranged {
        seq![EventView::Done, EventView::Text(Ok(before))] + tail
    } else {
        seq![EventView::Done] + tail
    }
}

proof fn lemma_rewrite(s: ToolState, before: Seq<char>, out: Result<OutputView, Seq<char>>)
    requires
        s.path == SELF_PATH@,
    ensures
        ({
            let tail = seq![
                EventView::Text(Ok(before)),
                EventView::Done,
                EventView::Output(out),
                EventView::Done,
                EventView::Done,
            ];
            let end = held(before, SELF_PATH@, effects(settled(s), tail));
            if s.content.len() == 0 || build_failed(out) {
                end == before
            } else {
                end == s.content
            }
        }),
{
    let e0 = EventView::Text(Ok(before));
    let e1 = EventView::Done;
    let e2 = EventView::Output(out);
    let tail = seq![e0, e1, e2, e1, e1];
    reveal_with_fuel(effects, 7);
    reveal_with_fuel(held, 7);
    assert(tail.skip(1) =~= seq![e1, e2, e1, e1]);
    assert(tail.skip(1).skip(1) =~= seq![e2, e1, e1]);
    assert(tail.skip(1).skip(1).skip(1) =~= seq![e1, e1]);
    assert(tail.skip(1).skip(1).skip(1).skip(1) =~= seq![e1]);
    if s.content.len() > 0 {
        let read = EffectView::ReadText { path: s.path };
        let write = EffectView::WriteText { path: s.path, text: s.content };
        let done = effects(settled(s), tail);
        let saving = ToolState { stage: ToolStage::Saving, ..s };
        let trying = ToolState { stage: ToolStage::Trying, saved: before, ..s };
        let building = ToolState { stage: ToolStage::Building, ..trying };
        let judged = tool_next(building, e2);
        assert(effects(settled(s), tail) =~= seq![read, write, EffectView::Build] + effects(
            judged,
            seq![e1, e1],
        ));
        let rest = effects(judged, seq![e1, e1]);
        assert(done.skip(1).skip(1).skip(1) =~= rest);
        assert(held(before, SELF_PATH@, done) == held(s.content, SELF_PATH@, rest));
        if build_failed(out) {
            assert(rest[0] == EffectView::WriteText { path: s.path, text: before });
            let logged = tool_next(judged->Act_0, e1);
            assert(rest.skip(1) =~= effects(logged, seq![e1, e1].skip(1)));
            assert(rest.skip(1).skip(1) =~= seq![]);
        } else {
            assert(rest.skip(1) =~= seq![]);
        }
    }
}

/// A write of the agent's own source takes effect only when the build succeeds: when it fails,
/// or when the new content is empty, the file holds in the end what it held before.
pub proof fn law_failed_build_is_taken_back(
    s: ToolState,
    before: Seq<char>,
    out: Result<OutputView, Seq<char>>,
)
    requires
        s.stage == ToolStage::Folder,
        s.path == SELF_PATH@,
    ensures
        ({
            let content = patched_state(s, before).content;
            let done = effects(
                ToolStepView::Act(s, EffectView::MakeParent { path: s.path }),
                rewrite_answers(s.range is Some, before, out),
            );
            held(before, SELF_PATH@, done) == if content.len() == 0 || build_failed(
                out,
            ) {
                before
            } else {
                content
            }
        }),
{
    let tail = seq![
        EventView::Text(Ok(before)),
        EventView::Done,
        EventView::Output(out),
        EventView::Done,
        EventView::Done,
    ];
    let answers = rewrite_answers(s.range is Some, before, out);
    let first = EffectView::MakeParent { path: s.path };
    let done = effects(ToolStepView::Act(s, first), answers);
    if s.range is Some {
        let patching = ToolState { stage: ToolStage::Patch, ..s };
        let read = EffectView::ReadText { path: s.path };
        assert(answers.skip(1).skip(1) =~= tail);
        let next = tool_next(patching, EventView::Text(Ok(before)));
        assert(next == settled(patched_state(patching, before)));
        lemma_rewrite(patched_state(patching, before), before, out);
        assert(done.skip(1) =~= effects(ToolStepView::Act(patching, read), answers.skip(1)));
        assert(done.skip(1).skip(1) =~= effects(next, tail));
    } else {
        assert(answers.skip(1) =~= tail);
        lemma_rewrite(s, before, out);
        assert(done.skip(1) =~= effects(settled(s), tail));
    }
    reveal_with_fuel(held, 3);
}

/// How the outside answers a write of a file that holds `before`, other than the agent's own
/// source.
pub open spec fn write_answers(ranged: bool, before: Seq<char>) -> Seq<EventView> {
    if ranged {
        seq![EventView::Done, EventView::Text(Ok(before)), EventView::Done, EventView::Done]
    } else {
        seq![EventView::Done, EventView::Done, EventView::Done]
    }
}

/// A write of any file but the agent's own source takes effect: the file then holds the new
/// content, or what it held with the given range replaced by it.
pub proof fn law_write_takes_effect(s: ToolState, before: Seq<char>)
    requires
        s.stage == ToolStage::Folder,
        s.path != SELF_PATH@,
    ensures
        held(
            before,
            s.path,
            effects(
                ToolStepView::Act(s, EffectView::MakeParent { path: s.path }),
                write_answers(s.range is Some, before),
            ),
        ) == patched_state(s, before).content,
{
    let answers = write_answers(s.range is Some, before);
    let first = EffectView::MakeParent { path: s.path };
    let done = effects(ToolStepView::Act(s, first), answers);
    reveal_with_fuel(effects, 5);
    reveal_with_fuel(held, 5);
    let e = EventView::Done;
    if s.range is Some {
        let read = EventView::Text(Ok(before));
        let patching = ToolState { stage: ToolStage::Patch, ..s };
        let written = patched_state(patching, before);
        let write = EffectView::WriteText { path: s.path, text: written.content };
        assert(answers.skip(1) =~= seq![read, e, e]);
        assert(answers.skip(1).skip(1) =~= seq![e, e]);
        assert(answers.skip(1).skip(1).skip(1) =~= seq![e]);
        assert(done[2] == write);
        assert(done.len() == 4 && done[3] is Log);
        assert(done.skip(1).skip(1)[0] == write);
        assert(done.skip(1).skip(1).skip(1)[0] is Log);
        assert(done.skip(1).skip(1).skip(1).skip(1) =~= seq![]);
    } else {
        let write = EffectView::WriteText { path: s.path, text: s.content };
        assert(answers.skip(1) =~= seq![e, e]);
        assert(answers.skip(1).skip(1) =~= seq![e]);
        assert(done[1] == write);
        assert(done.len() == 3 && done[2] is Log);
        assert(done.skip(1)[0] == write);
        assert(done.skip(1).skip(1)[0] is Log);
        assert(done.skip(1).skip(1).skip(1) =~= seq![]);
    }
}

/// A read of a file that fits in the window replies with all that the file holds.
pub proof fn law_read_gives_what_is_held(path: Seq<char>, content: Seq<char>)
    requires
        content.len() <= READ_WINDOW,
    ensures
        match tool_next(at(ToolStage::Reading, path), EventView::Text(Ok(content))) {
            ToolStepView::Reply(_) => false,
            ToolStepView::Act(s, _) => tool_next(s, EventView::Done) == ToolStepView::Reply(
                wrapped(content),
            ),
        },
{
    assert(content.subrange(0, content.len() as int) =~= content);
}

/// What the backups of the file at `path` hold after `done`, in the order in which they were
/// taken, when the file held `before` first.
pub open spec fn copied(before: Seq<char>, path: Seq<char>, done: Seq<EffectView>) -> Seq<
    Seq<char>,
>
    decreases done.len(),
{
    if done.len() == 0 {
        seq![]
    } else {
        match done[0] {
            EffectView::Backup { path: p } if p == path => seq![before] + copied(
                before,
                path,
                done.skip(1),
            ),
            EffectView::WriteText { path: p, text } if p == path => copied(
                text,
                path,
                done.skip(1),
            ),
            _ => copied(before, path, done.skip(1)),
        }
    }
}

/// A change can be undone from its backup: while the agent evolves, a call that writes the file
/// at `path` backs it up before anything else, so that the backup holds the text before the
/// change, whatever the outside answers.
pub proof fn law_backup_holds_the_old_text(
    text: Seq<char>,
    body: Seq<char>,
    guide: Seq<char>,
    out_dir: Option<Seq<char>>,
    before: Seq<char>,
    events: Seq<EventView>,
)
    requires
        tool_call(text) == Some(("write_file"@, body)),
        evolvable(path_range(trimmed(top_line(body).0)).0, guide),
        stem(path_range(trimmed(top_line(body).0)).0) is Some,
    ensures
        ({
            let path = path_range(trimmed(top_line(body).0)).0;
            let step = tool_start(text, Some(guide), out_dir);
            &&& step is Some
            &&& copied(before, path, effects(step->0, events)).len() > 0
            &&& copied(before, path, effects(step->0, events))[0] == before
        }),
{
    reveal_strlit("bash");
    reveal_strlit("write_file");
    assert("bash"@.len() == 4 && "write_file"@.len() == 10);
    let path = path_range(trimmed(top_line(body).0)).0;
    let step = tool_start(text, Some(guide), out_dir)->0;
    let done = effects(step, events);
    assert(done.len() > 0 && done[0] == EffectView::Backup { path });
}

/// While the agent evolves, a call to delete the file at `path` removes it just where it may be
/// deleted; elsewhere it takes no effect at all. No other file is changed. While the agent does
/// not evolve, no such call is run.
pub proof fn law_deletion_is_confined(
    text: Seq<char>,
    body: Seq<char>,
    guide: Seq<char>,
    out_dir: Option<Seq<char>>,
    events: Seq<EventView>,
)
    requires
        tool_call(text) == Some(("delete_file"@, body)),
    ensures
        ({
            let path = trimmed(body);
            let step = tool_start(text, Some(guide), out_dir);
            let done = effects(step->0, events);
            &&& step is Some
            &&& deletable(path) ==> done.len() > 0 && done[0] == (EffectView::DeleteFile { path })
            &&& !deletable(path) ==> done.len() == 0
            &&& forall|i: int| 0 < i < done.len() ==> #[trigger] done[i] is Log
        }),
        tool_start(text, None, out_dir) is None,
{
    reveal_strlit("bash");
    reveal_strlit("write_file");
    reveal_strlit("delete_file");
    assert("bash"@.len() == 4 && "write_file"@.len() == 10 && "delete_file"@.len() == 11);
    reveal_with_fuel(effects, 4);
}

/// A tool call that only reads takes no effect but reading and logging.
pub proof fn law_reading_changes_nothing(
    text: Seq<char>,
    body: Seq<char>,
    evolve: Option<Seq<char>>,
    out_dir: Option<Seq<char>>,
    events: Seq<EventView>,
)
    requires
        tool_call(text) == Some(("read_file"@, body)),
    ensures
        tool_start(text, evolve, out_dir) is Some,
        forall|i: int|
            0 <= i < effects(tool_start(text, evolve, out_dir)->0, events).len() ==> {
                let e = #[trigger] effects(tool_start(text, evolve, out_dir)->0, events)[i];
                e is ReadText || e is Log
            },
{
    reveal_strlit("read_file");
    reveal_strlit("bash");
    reveal_strlit("write_file");
    reveal_strlit("delete_file");
    assert("read_file"@.len() == 9 && "bash"@.len() == 4 && "write_file"@.len() == 10);
    assert("delete_file"@.len() == 11);
    reveal_with_fuel(effects, 4);
}

/// The answer that a tool call waits for is the one that its last effect gets.
pub open spec fn fits(step: ToolStepView) -> bool {
    match step {
        ToolStepView::Reply(_) => true,
        ToolStepView::Act(s, effect) => s.stage.awaits() == effect.answer(),
    }
}

/// Whoever carries out each effect of a tool call and hands back its answer can always go on.
pub proof fn law_tool_answers_fit(
    text: Seq<char>,
    evolve: Option<Seq<char>>,
    out_dir: Option<Seq<char>>,
    s: ToolState,
    event: EventView,
)
    ensures
        match tool_start(text, evolve, out_dir) {
            Some(step) => fits(step),
            None => true,
        },
        fits(tool_next(s, event)),
{
}

/// No more of a command's output is shown than the limit allows.
pub proof fn law_output_is_bounded(out: Result<OutputView, Seq<char>>)
    ensures
        shell_text(out).len() <= OUTPUT_LIMIT,
{
}

/// No more of a failed build's output is shown than the limit allows.
pub proof fn law_build_note_is_bounded(printed: Seq<char>)
    ensures
        build_note(printed).len() <= "REJECTED (build failed, reverted):\n"@.len() + BUILD_LIMIT,
{
}

/// A tool call under way.
pub struct ToolRun {
    stage: ToolStage,
    path: String,
    range: Option<(usize, usize)>,
    content: String,
    saved: String,
    reply: String,
}

impl View for ToolRun {
    type V = ToolState;

    closed spec fn view(&self) -> ToolState {
        ToolState {
            stage: self.stage,
            path: self.path@,
            range: range_view(self.range),
            content: self.content@,
            saved: self.saved@,
            reply: self.reply@,
        }
    }
}

/// What comes next in a tool call.
pub enum ToolStep {
    /// It ends with a reply.
    Reply(String),
    /// It takes an effect, whose answer is handed to `step`.
    Act(ToolRun, Effect),
}

impl View for ToolStep {
    type V = ToolStepView;

    open spec fn view(&self) -> ToolStepView {
        match self {
            ToolStep::Reply(r) => ToolStepView::Reply(r@),
            ToolStep::Act(run, effect) => ToolStepView::Act(run@, effect@),
        }
    }
}

/// Encloses a result in the tags in which it is handed to the model.
fn wrap(result: &str) -> (r: String)
    ensures
        r@ == wrapped(result@),
{
    let mut r = "<tool_result>".to_owned();
    r.append(result);
    r.append("</tool_result>");
    r
}

/// A text up to the first line feed, and what follows it.
fn split_top_line<'a>(body: &'a str) -> (r: (&'a str, Option<&'a str>))
    ensures
        r.0@ == top_line(body@).0,
        match r.1 {
            Some(t) => top_line(body@).1 == Some(t@),
            None => top_line(body@).1 is None,
        },
{
    match split_once(body, "\n") {
        Some((line, rest)) => (line, Some(rest)),
        None => (body, None),
    }
}

/// The text that was read, empty where it could not be.
pub fn text_or_empty(r: Result<String, String>) -> (t: String)
    ensures
        t@ == or_empty(crate::effect::result_view(r)),
{
    match r {
        Ok(t) => t,
        Err(_) => String::new(),
    }
}

/// What a command that ran, or could not, looks like.
fn show_shell(out: &Result<Output, String>) -> (r: String)
    ensures
        r@ == shell_text(output_view(*out)),
{
    let all = match out {
        Ok(o) => {
            let code: i32 = match o.code {
                Some(c) => c,
                None => -1,
            };
            let mut t = "exit=".to_owned();
            t.append(show_signed(code).as_str());
            t.append("\n");
            t.append(o.stdout.as_str());
            t.append(o.stderr.as_str());
            t
        },
        Err(e) => {
            let mut t = "error: ".to_owned();
            t.append(e.as_str());
            t
        },
    };
    first_chars(all.as_str(), OUTPUT_LIMIT).to_owned()
}

/// What a build printed, or why it could not run.
fn show_build(out: &Result<Output, String>) -> (r: String)
    ensures
        r@ == build_text(output_view(*out)),
{
    match out {
        Ok(o) => {
            let mut t = o.stdout.clone();
            t.append(o.stderr.as_str());
            t
        },
        Err(e) => e.clone(),
    }
}

/// The view of an optional text that is borrowed.
pub open spec fn str_view(o: Option<&str>) -> Option<Seq<char>> {
    match o {
        Some(s) => Some(s@),
        None => None,
    }
}

/// Begins the first tool call in `text`, if it calls a tool that can be run. While the agent
/// evolves, `evolve_mode` names the guide.
pub fn run_tool(text: &str, evolve_mode: Option<&str>, out_dir: Option<&str>) -> (r: Option<
    ToolStep,
>)
    ensures
        match r {
            Some(step) => tool_start(text@, str_view(evolve_mode), str_view(out_dir)) == Some(
                step@,
            ),
            None => tool_start(text@, str_view(evolve_mode), str_view(out_dir)) is None,
        },
{
    proof {
        reveal_strlit("");
    }
    let (name, body) = match extract_tool(text) {
        Some(call) => call,
        None => return None,
    };
    if same(name, "bash") {
        Some(
            ToolStep::Act(
                ToolRun::begin(ToolStage::Shell, "", None, ""),
                Effect::Shell { command: body.to_owned() },
            ),
        )
    } else if same(name, "write_file") {
        Some(begin_write(body, evolve_mode))
    } else if same(name, "delete_file") {
        match evolve_mode {
            Some(_) => Some(begin_delete(body)),
            None => None,
        }
    } else if same(name, "read_file") {
        let (path, range) = parse_path_range(trim(body));
        Some(
            ToolStep::Act(
                ToolRun::begin(ToolStage::Reading, path, range, ""),
                Effect::ReadText { path: path.to_owned() },
            ),
        )
    } else if same(name, "spawn_agent") {
        match out_dir {
            Some(dir) => Some(begin_spawn(body, dir)),
            None => None,
        }
    } else if same(name, "wait_agent") {
        match out_dir {
            Some(_) => {
                let id = trim(body);
                Some(
                    ToolStep::Act(
                        ToolRun::begin(ToolStage::Waiting, id, None, ""),
                        Effect::PollAgent { agent_id: id.to_owned() },
                    ),
                )
            },
            None => None,
        }
    } else {
        None
    }
}

/// Begins a write.
fn begin_write(body: &str, evolve_mode: Option<&str>) -> (r: ToolStep)
    ensures
        r@ == write_start(body@, str_view(evolve_mode)),
{
    proof {
        reveal_strlit("");
    }
    let (line, rest) = split_top_line(body);
    let (path, range) = parse_path_range(trim(line));
    let content = match rest {
        Some(t) => t,
        None => "",
    };
    assert(""@ =~= Seq::<char>::empty());
    let allowed = match evolve_mode {
        Some(guide) => is_evolvable(path, guide),
        None => true,
    };
    if !allowed {
        let mut reply = "<tool_result>REJECTED (not an evolvable path: ".to_owned();
        reply.append(path);
        reply.append(")</tool_result>");
        ToolStep::Reply(reply)
    } else if evolve_mode.is_some() && has_backup_name(path) {
        ToolStep::Act(
            ToolRun::begin(ToolStage::Keeping, path, range, content),
            Effect::Backup { path: path.to_owned() },
        )
    } else {
        ToolStep::Act(
            ToolRun::begin(ToolStage::Folder, path, range, content),
            Effect::MakeParent { path: path.to_owned() },
        )
    }
}

/// Begins a deletion.
fn begin_delete(body: &str) -> (r: ToolStep)
    ensures
        r@ == delete_start(body@),
{
    proof {
        reveal_strlit("");
    }
    let path = trim(body);
    if is_deletable(path) {
        ToolStep::Act(
            ToolRun::begin(ToolStage::Deleting, path, None, ""),
            Effect::DeleteFile { path: path.to_owned() },
        )
    } else {
        let mut reply = "<tool_result>REJECTED (not a deletable path: ".to_owned();
        reply.append(path);
        reply.append(")</tool_result>");
        ToolStep::Reply(reply)
    }
}

/// Begins the start of a sub-agent.
fn begin_spawn(body: &str, out_dir: &str) -> (r: ToolStep)
    ensures
        r@ == spawn_start(body@, out_dir@),
{
    proof {
        reveal_strlit("");
    }
    let (line, rest) = split_top_line(body);
    let task = match rest {
        Some(t) => trim(t),
        None => trim(body),
    };
    let mut out_path = out_dir.to_owned();
    out_path.append("/");
    out_path.append(trim(line));
    ToolStep::Act(
        ToolRun::begin(ToolStage::Spawning, out_path.as_str(), None, ""),
        Effect::StartAgent { task: task.to_owned(), out_path },
    )
}

impl ToolRun {
    /// A tool call at its first stage.
    fn begin(stage: ToolStage, path: &str, range: Option<(usize, usize)>, content: &str) -> (r:
        ToolRun)
        ensures
            r@ == (ToolState {
                range: range_view(range),
                content: content@,
                ..at(stage, path@)
            }),
            content@.len() == 0 && range is None ==> r@ == at(stage, path@),
    {
        ToolRun {
            stage,
            path: path.to_owned(),
            range,
            content: content.to_owned(),
            saved: String::new(),
            reply: String::new(),
        }
    }

    /// Logs the outcome, then replies with `result`.
    fn conclude(self, fields: Fields, result: &str) -> (r: ToolStep)
        ensures
            r@ == concluded(self@, fields@, result@),
    {
        let mut run = self;
        run.stage = ToolStage::Logged;
        run.reply = wrap(result);
        ToolStep::Act(
            run,
            Effect::Log { kind: "tool_result".to_owned(), data: LogData::Fields(fields) },
        )
    }

    /// Goes on to a stage.
    fn moved(self, stage: ToolStage) -> (r: ToolRun)
        ensures
            r@ == (ToolState { stage, ..self@ }),
    {
        let mut run = self;
        run.stage = stage;
        run
    }

    /// The new content of the file is known: goes on to write it.
    fn settle(self) -> (r: ToolStep)
        ensures
            r@ == settled(self@),
    {
        let path = self.path.clone();
        if same(self.path.as_str(), SELF_PATH) {
            if self.content.as_str().unicode_len() == 0 {
                ToolStep::Reply("<tool_result>REJECTED (empty content)</tool_result>".to_owned())
            } else {
                ToolStep::Act(self.moved(ToolStage::Saving), Effect::ReadText { path })
            }
        } else {
            let text = self.content.clone();
            ToolStep::Act(self.moved(ToolStage::Plain), Effect::WriteText { path, text })
        }
    }

    /// The kind of answer that the call waits for.
    pub fn awaits(&self) -> (k: Kind)
        ensures
            k == self@.stage.awaits(),
    {
        match self.stage {
            ToolStage::Shell => Kind::Output,
            ToolStage::Keeping => Kind::Done,
            ToolStage::Folder => Kind::Done,
            ToolStage::Patch => Kind::Text,
            ToolStage::Saving => Kind::Text,
            ToolStage::Trying => Kind::Done,
            ToolStage::Building => Kind::Output,
            ToolStage::Restoring => Kind::Done,
            ToolStage::Plain => Kind::Done,
            ToolStage::Reading => Kind::Text,
            ToolStage::Deleting => Kind::Removed,
            ToolStage::Spawning => Kind::Started,
            ToolStage::Waiting => Kind::Polled,
            ToolStage::Resting => Kind::Done,
            ToolStage::Logged => Kind::Done,
        }
    }

    /// Goes on with the answer to the last effect.
    pub fn step(self, event: Event) -> (r: ToolStep)
        requires
            event@.kind() == self@.stage.awaits(),
        ensures
            r@ == tool_next(self@, event@),
    {
        match self.stage {
            ToolStage::Shell => {
                if let Event::Output(out) = &event {
                    let text = show_shell(out);
                    let fields = Fields::new().text("tool", "bash").text("result", text.as_str());
                    return self.conclude(fields, text.as_str());
                }
            },
            ToolStage::Keeping => {
                let path = self.path.clone();
                return ToolStep::Act(self.moved(ToolStage::Folder), Effect::MakeParent { path });
            },
            ToolStage::Folder => {
                return match self.range {
                    Some(_) => {
                        let path = self.path.clone();
                        ToolStep::Act(self.moved(ToolStage::Patch), Effect::ReadText { path })
                    },
                    None => self.settle(),
                };
            },
            ToolStage::Patch => {
                if let Event::Text(read) = event {
                    return self.patch_file(text_or_empty(read));
                }
            },
            ToolStage::Saving => {
                if let Event::Text(read) = event {
                    let path = self.path.clone();
                    let text = self.content.clone();
                    let mut run = self.moved(ToolStage::Trying);
                    run.saved = text_or_empty(read);
                    return ToolStep::Act(run, Effect::WriteText { path, text });
                }
            },
            ToolStage::Trying => {
                return ToolStep::Act(self.moved(ToolStage::Building), Effect::Build);
            },
            ToolStage::Building => {
                if let Event::Output(out) = &event {
                    return self.judge_build(out);
                }
            },
            ToolStage::Restoring => {
                let note = self.content.clone();
                let fields = Fields::new().text("tool", "write_file").text(
                    "path",
                    self.path.as_str(),
                ).text("result", note.as_str());
                return self.conclude(fields, note.as_str());
            },
            ToolStage::Plain => {
                let fields = Fields::new().text("tool", "write_file").text(
                    "path",
                    self.path.as_str(),
                );
                let mut result = "written ".to_owned();
                result.append(self.path.as_str());
                return self.conclude(fields, result.as_str());
            },
            ToolStage::Reading => {
                if let Event::Text(read) = event {
                    return self.show_file(read);
                }
            },
            ToolStage::Deleting => {
                if let Event::Removed(removed) = event {
                    return self.tell_deleted(removed);
                }
            },
            ToolStage::Spawning => {
                if let Event::Started(id) = event {
                    let fields = Fields::new().text("tool", "spawn_agent").text(
                        "agent_id",
                        id.as_str(),
                    );
                    let mut result = "spawned ".to_owned();
                    result.append(id.as_str());
                    result.append(" → ");
                    result.append(self.path.as_str());
                    result.append("\nUse <tool name=\"wait_agent\">");
                    result.append(id.as_str());
                    result.append("</tool> to block.");
                    return self.conclude(fields, result.as_str());
                }
            },
            ToolStage::Waiting => {
                if let Event::Polled(found) = event {
                    return self.look(found);
                }
            },
            ToolStage::Resting => {
                let agent_id = self.path.clone();
                return ToolStep::Act(
                    self.moved(ToolStage::Waiting),
                    Effect::PollAgent { agent_id },
                );
            },
            ToolStage::Logged => {},
        }
        ToolStep::Reply(self.reply)
    }

    /// Replaces the given range of what the file holds.
    fn patch_file(self, existing: String) -> (r: ToolStep)
        ensures
            r@ == settled(patched_state(self@, existing@)),
    {
        let mut run = self;
        if let Some(range) = run.range {
            run.content = patch(existing.as_str(), range, run.content.as_str());
        }
        run.settle()
    }

    /// Keeps a build that succeeded and takes back one that failed.
    fn judge_build(self, out: &Result<Output, String>) -> (r: ToolStep)
        requires
            self@.stage == ToolStage::Building,
        ensures
            r@ == tool_next(self@, EventView::Output(output_view(*out))),
    {
        let printed = show_build(out);
        let ended_well = match out {
            Ok(o) => is_success(o),
            Err(_) => false,
        };
        if !ended_well || has(printed.as_str(), "error[") || has(printed.as_str(), "error: ") {
            let path = self.path.clone();
            let text = self.saved.clone();
            let mut note = "REJECTED (build failed, reverted):\n".to_owned();
            note.append(first_chars(printed.as_str(), BUILD_LIMIT));
            let mut run = self.moved(ToolStage::Restoring);
            run.content = note;
            ToolStep::Act(run, Effect::WriteText { path, text })
        } else {
            let fields = Fields::new().text("tool", "write_file").text(
                "path",
                self.path.as_str(),
            ).text("result", "written and verified OK");
            self.conclude(fields, "written and verified OK")
        }
    }

    /// Shows what was read of a file.
    fn show_file(self, read: Result<String, String>) -> (r: ToolStep)
        requires
            self@.stage == ToolStage::Reading,
        ensures
            r@ == tool_next(self@, EventView::Text(crate::effect::result_view(read))),
    {
        match read {
            Ok(text) => {
                let (start, end) = shown_range(self.range, text.as_str().unicode_len());
                let mut range = show(start as u64);
                range.append("..");
                range.append(show(end as u64).as_str());
                let fields = Fields::new().text("tool", "read_file").text(
                    "path",
                    self.path.as_str(),
                ).text("range", range.as_str());
                let result = show_excerpt(self.path.as_str(), text.as_str(), self.range);
                self.conclude(fields, result.as_str())
            },
            Err(e) => {
                let mut result = "ERROR reading ".to_owned();
                result.append(self.path.as_str());
                result.append(": ");
                result.append(e.as_str());
                ToolStep::Reply(wrap(result.as_str()))
            },
        }
    }

    /// Tells whether the file was deleted.
    fn tell_deleted(self, removed: Result<(), String>) -> (r: ToolStep)
        requires
            self@.stage == ToolStage::Deleting,
        ensures
            r@ == tool_next(self@, EventView::Removed(unit_view(removed))),
    {
        match removed {
            Ok(_) => {
                let fields = Fields::new().text("tool", "delete_file").text(
                    "path",
                    self.path.as_str(),
                );
                let mut result = "deleted ".to_owned();
                result.append(self.path.as_str());
                self.conclude(fields, result.as_str())
            },
            Err(e) => {
                let mut result = "ERROR deleting ".to_owned();
                result.append(self.path.as_str());
                result.append(": ");
                result.append(e.as_str());
                ToolStep::Reply(wrap(result.as_str()))
            },
        }
    }

    /// Reports a sub-agent that has finished, and waits for one that has not.
    fn look(self, found: Option<String>) -> (r: ToolStep)
        requires
            self@.stage == ToolStage::Waiting,
        ensures
            r@ == tool_next(self@, EventView::Polled(crate::agents::option_view(found))),
    {
        match found {
            Some(result) => {
                let fields = Fields::new().text("tool", "wait_agent").text(
                    "agent_id",
                    self.path.as_str(),
                ).text("result", result.as_str());
                let mut reply = "agent ".to_owned();
                reply.append(self.path.as_str());
                reply.append(" finished: ");
                reply.append(result.as_str());
                self.conclude(fields, reply.as_str())
            },
            None => {
                ToolStep::Act(
                    self.moved(ToolStage::Resting),
                    Effect::Pause { millis: POLL_MILLIS },
                )
            },
        }
    }
}

} // verus!
