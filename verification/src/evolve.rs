//! Evolution: the agent proposes changes to itself, has them checked, and brings its documents up
//! to date. What each step is, and what holds of all of them.

use crate::effect::{
    following, preview, succeeded, EffectView, EventView, Kind, OutputView, Said,
};
use crate::json::Tree;
use crate::memory::index;
use crate::number::decimal;
use crate::paths::{deletable, evolvable, prompt_path, SELF_PATH};
use crate::reflect::{
    lemma_looks_forward, lemma_reflection_fits, looks_forward, reflect_next, reflect_start,
    ReflectState, ReflectStepView, WATERMARK_PATH,
};
use crate::run::{
    fits, keeps_confined, law_tool_answers_fit, lemma_goes_on_confined, lemma_starts_confined,
    lemma_works_without_agents, on_agents, or_empty, stays_in, tool_next, tool_start,
    works_without_agents, ToolState, ToolStepView, OUTPUT_LIMIT,
};
use crate::text::{contains, first_line, head, joined, lines, says};
use vstd::prelude::*;
use vstd::string::*;

verus! {

/// How many characters of a change's summary are kept.
pub const CHANGE_LIMIT: usize = 200;

/// Where evolution stands.
#[derive(PartialEq, Eq, Structural, Clone, Copy, Debug)]
pub enum EvolveStage {
    /// The folder of the memos is made.
    Folder,
    /// The system prompt is read.
    System,
    /// The start is logged.
    Started,
    /// The start of an iteration is logged.
    IterStarted,
    /// The model looks back on past sessions.
    Reflecting,
    /// The files that may change are read.
    Sources,
    /// The memory notes are read.
    Memory,
    /// The memo of this run is read.
    Memo,
    /// The model is asked for a change.
    Asking,
    /// The user is told that the model could not be asked.
    AskFailed,
    /// The reply is logged.
    Replied,
    /// It is logged that the model wants no change.
    SkipLogged,
    /// The user is told that the model wants no change.
    SkipTold,
    /// A tool call of the change is under way.
    Tool,
    /// The end of an iteration is logged.
    IterEnded,
    /// The change is entered in the memo.
    Noted,
    /// The user is told of the change.
    NoteTold,
    /// The end of the iterations is logged.
    Ended,
    /// The user is told that the check begins.
    CheckTold,
    /// The linter runs.
    Lint,
    /// The tests run.
    Test,
    /// The user is told of issues.
    IssuesTold,
    /// The model is asked to fix the issues.
    RefineAsking,
    /// The user is told that the model could not be asked.
    RefineFailed,
    /// A tool call of the fix is under way.
    RefineTool,
    /// The user is told that the last check begins.
    FinalTold,
    /// The linter runs for the last time.
    FinalLint,
    /// The tests run for the last time.
    FinalTest,
    /// The outcome of the linter is logged.
    LintLogged,
    /// The outcome of the tests is logged.
    TestLogged,
    /// The user is told the outcome of the linter.
    LintTold,
    /// The user is told the outcome of the tests.
    TestTold,
    /// The user is warned.
    Warned,
    /// The changed files are listed.
    Changed,
    /// It is checked whether a changed file is there.
    Checking,
    /// A changed file is backed up.
    BackingUp,
    /// The documents are read.
    DocSources,
    /// The system prompt for the documents is read.
    DocSystem,
    /// The model is asked to update the documents.
    DocAsking,
    /// The user is told that the model could not be asked.
    DocFailed,
    /// A tool call of the update is under way.
    DocTool,
    /// The user is told where the memo is.
    MemoTold,
}

/// What a check found: whether all is well, and what it printed.
pub struct Verdict {
    pub ok: bool,
    pub out: Seq<char>,
}

/// The state of evolution.
#[verifier::ext_equal]
pub struct EvolveState {
    pub stage: EvolveStage,
    /// The document that tells coding agents how to work on the project.
    pub guide: Seq<char>,
    pub memo_path: Seq<char>,
    pub system: Seq<char>,
    pub iter: u64,
    pub turn: u64,
    pub talk: Seq<Said>,
    pub reply: Seq<char>,
    /// A change was written in this iteration.
    pub improved: bool,
    /// The model wants no further change.
    pub done: bool,
    /// What the change of this iteration is about.
    pub summary: Seq<char>,
    /// The agent's own source.
    pub src: Seq<char>,
    /// Two more of the documents that a prompt shows.
    pub first_doc: Seq<char>,
    pub second_doc: Seq<char>,
    /// The index of the memory notes.
    pub memory: Seq<char>,
    pub lint: Verdict,
    pub test: Verdict,
    /// The files that changed.
    pub changed: Seq<Seq<char>>,
    /// The position of the changed file that comes next.
    pub at: nat,
    pub tool: Option<ToolState>,
    pub reflection: Option<ReflectState>,
}

impl EvolveState {
    /// While a changed file is looked at, there is one.
    pub open spec fn ready(self) -> bool {
        self.stage == EvolveStage::Checking || self.stage == EvolveStage::BackingUp ==> self.at
            < self.changed.len()
    }
}

/// What comes next in evolution: it is over, or takes an effect.
#[verifier::ext_equal]
pub enum EvolveStepView {
    Over,
    Act(EvolveState, EffectView),
}

/// The text at position `i`, empty where there is none.
pub open spec fn text_at(read: Seq<Option<Seq<char>>>, i: int) -> Seq<char> {
    if 0 <= i < read.len() {
        match read[i] {
            Some(t) => t,
            None => seq![],
        }
    } else {
        seq![]
    }
}

/// The name of each prompt file.
pub open spec fn prompt_names() -> Seq<Seq<char>> {
    seq!["chat_system.txt"@, "reflect_system.txt"@, "evolve_system.txt"@, "doc_system.txt"@]
}

/// The files that an iteration reads.
pub open spec fn source_paths() -> Seq<Seq<char>> {
    seq![SELF_PATH@, "src/AGENTS.md"@] + prompt_names().map_values(
        |name: Seq<char>| prompt_path(name),
    )
}

/// A prompt file under its heading.
pub open spec fn prompt_entry(name: Seq<char>, content: Seq<char>) -> Seq<char> {
    "=== src/prompts/"@ + name + " ===\n"@ + content
}

/// The prompt files under their headings.
pub open spec fn prompts_section(read: Seq<Option<Seq<char>>>) -> Seq<char> {
    joined(
        Seq::new(
            prompt_names().len(),
            |i: int| prompt_entry(prompt_names()[i], text_at(read, i + 2)),
        ),
        "\n\n"@,
    )
}

/// What the model is shown when it is asked for a change.
pub open spec fn proposal(
    changelog: Seq<char>,
    prompts: Seq<char>,
    agents: Seq<char>,
    memory: Seq<char>,
    src: Seq<char>,
) -> Seq<char> {
    "Changes already made this run (do not repeat):\n"@ + changelog + "\n\nPrompt files:\n"@
        + prompts + "\n\nsrc/AGENTS.md:\n"@ + agents
        + "\n\nsrc/memory/ (filepath — description):\n"@ + memory + "\n\nsrc/main.rs:\n```rust\n"@
        + src
        + "\n```\n\nPropose one improvement not in the changelog. Priority: prompts > AGENTS.md > memory/*.md > main.rs. Reply SKIP if nothing is worth changing."@
}

/// A truth value, written out.
pub open spec fn truth(b: bool) -> Seq<char> {
    if b {
        "true"@
    } else {
        "false"@
    }
}

/// What the model is told when a check found issues.
pub open spec fn issues(lint: Verdict, test: Verdict) -> Seq<char> {
    "Post-evolution check found issues. Fix them using write_file. Reply SKIP if nothing to fix.\n\nClippy (ok="@
        + truth(lint.ok) + "):\n"@ + lint.out + "\n\nTests (ok="@ + truth(test.ok) + "):\n"@
        + test.out
}

/// What the model is shown when it is asked to update the documents.
pub open spec fn doc_question(
    src: Seq<char>,
    guide: Seq<char>,
    guidance: Seq<char>,
    readme: Seq<char>,
) -> Seq<char> {
    "Current src/main.rs:\n```rust\n"@ + src + "\n```\n\nCurrent "@ + guide + ":\n"@ + guidance
        + "\n\nCurrent README.md:\n"@ + readme
        + "\n\nUpdate both docs to match the implementation."@
}

/// A line of the linter that tells something.
pub open spec fn is_telling(line: Seq<char>) -> bool {
    contains(line, "warning"@) || contains(line, "error"@)
}

/// The lines that tell something.
pub open spec fn telling(ls: Seq<Seq<char>>) -> Seq<Seq<char>> {
    ls.filter(|line: Seq<char>| is_telling(line))
}

/// What the linter found: only the lines that tell something, where there are any.
pub open spec fn lint_verdict(out: Result<OutputView, Seq<char>>) -> Verdict {
    match out {
        Ok(o) => {
            let combined = o.stdout + o.stderr;
            let relevant = joined(telling(lines(combined)), "\n"@);
            Verdict {
                ok: succeeded(o),
                out: head(
                    if relevant.len() == 0 {
                        combined
                    } else {
                        relevant
                    },
                    OUTPUT_LIMIT as int,
                ),
            }
        },
        Err(e) => Verdict { ok: false, out: e },
    }
}

/// What the tests found.
pub open spec fn test_verdict(out: Result<OutputView, Seq<char>>) -> Verdict {
    match out {
        Ok(o) => Verdict {
            ok: succeeded(o),
            out: head(o.stdout + o.stderr, OUTPUT_LIMIT as int),
        },
        Err(e) => Verdict { ok: false, out: e },
    }
}

/// A tool's answer tells that a change was written.
pub open spec fn tells_change(answer: Seq<char>) -> bool {
    contains(answer, "verified OK"@) || contains(answer, "written "@)
}

/// What the first reply of an iteration says about the change.
pub open spec fn change_summary(reply: Seq<char>) -> Seq<char> {
    head(first_line(reply), CHANGE_LIMIT as int)
}

/// The line that enters a change in the memo.
pub open spec fn memo_line(iter: u64, summary: Seq<char>) -> Seq<char> {
    "- iter "@ + decimal(iter as nat) + ": "@ + summary + "\n"@
}

/// Where the memo of a run that began at `ts` lies.
pub open spec fn memo_path(ts: u64) -> Seq<char> {
    ".evo/memos/"@ + decimal(ts as nat) + ".md"@
}

/// The state in which evolution starts.
pub open spec fn evolve_start(ts: u64, guide: Seq<char>) -> EvolveState {
    EvolveState {
        stage: EvolveStage::Folder,
        guide,
        memo_path: memo_path(ts),
        system: seq![],
        iter: 0,
        turn: 0,
        talk: seq![],
        reply: seq![],
        improved: false,
        done: false,
        summary: seq![],
        src: seq![],
        first_doc: seq![],
        second_doc: seq![],
        memory: seq![],
        lint: Verdict { ok: false, out: seq![] },
        test: Verdict { ok: false, out: seq![] },
        changed: seq![],
        at: 0,
        tool: None,
        reflection: None,
    }
}

/// Evolution takes an effect at the given stage.
pub open spec fn evolve_at(s: EvolveState, stage: EvolveStage, effect: EffectView) -> EvolveStepView {
    EvolveStepView::Act(EvolveState { stage, ..s }, effect)
}

/// Evolution logs an entry at the given stage.
pub open spec fn evolve_logs(
    s: EvolveState,
    stage: EvolveStage,
    kind: Seq<char>,
    fields: Map<Seq<char>, Tree>,
) -> EvolveStepView {
    evolve_at(s, stage, EffectView::Log { kind, data: Tree::Fields(fields) })
}

/// Evolution tells the user something at the given stage.
pub open spec fn evolve_tells(s: EvolveState, stage: EvolveStage, text: Seq<char>) -> EvolveStepView {
    evolve_at(s, stage, EffectView::Notify { text })
}

/// The field that counts the iterations.
pub open spec fn iter_field(s: EvolveState) -> Map<Seq<char>, Tree> {
    Map::empty().insert("iter"@, Tree::Count(s.iter as nat))
}

/// An iteration begins.
pub open spec fn begin_iter(s: EvolveState) -> EvolveStepView {
    let begun = EvolveState {
        iter: following(s.iter),
        turn: 0,
        improved: false,
        done: false,
        summary: seq![],
        ..s
    };
    evolve_logs(begun, EvolveStage::IterStarted, "iter_start"@, iter_field(begun))
}

/// Reflection goes on or is over.
pub open spec fn evolve_reflects(s: EvolveState, step: ReflectStepView) -> EvolveStepView {
    match step {
        ReflectStepView::Act(run, effect) => EvolveStepView::Act(
            EvolveState { stage: EvolveStage::Reflecting, reflection: Some(run), ..s },
            effect,
        ),
        ReflectStepView::Over => EvolveStepView::Act(
            EvolveState { stage: EvolveStage::Sources, reflection: None, ..s },
            EffectView::ReadTexts { paths: source_paths() },
        ),
    }
}

/// The model is asked at the given stage.
pub open spec fn evolve_asks(s: EvolveState, stage: EvolveStage) -> EvolveStepView {
    EvolveStepView::Act(
        EvolveState { stage, turn: following(s.turn), ..s },
        EffectView::Ask { talk: s.talk, system: s.system },
    )
}

/// An iteration ends.
pub open spec fn end_iter(s: EvolveState) -> EvolveStepView {
    evolve_logs(
        s,
        EvolveStage::IterEnded,
        "iter_end"@,
        iter_field(s).insert("improved"@, Tree::Bool(s.improved)),
    )
}

/// After an iteration comes the next, unless the model wants no further change.
pub open spec fn after_iter(s: EvolveState) -> EvolveStepView {
    if s.done {
        evolve_logs(s, EvolveStage::Ended, "evolve_end"@, Map::empty())
    } else {
        begin_iter(s)
    }
}

/// A tool has answered.
pub open spec fn evolve_hears(s: EvolveState, answer: Seq<char>) -> EvolveStepView {
    let told = EvolveState { talk: s.talk.push(Said { role: "user"@, content: answer }), ..s };
    match s.stage {
        EvolveStage::RefineTool => evolve_asks(told, EvolveStage::RefineAsking),
        EvolveStage::DocTool => evolve_asks(told, EvolveStage::DocAsking),
        _ => if tells_change(answer) {
            end_iter(EvolveState { improved: true, ..told })
        } else {
            evolve_asks(told, EvolveStage::Asking)
        },
    }
}

/// A tool call goes on or has ended.
pub open spec fn evolve_tool(s: EvolveState, stage: EvolveStage, step: ToolStepView) -> EvolveStepView {
    match step {
        ToolStepView::Act(run, effect) => EvolveStepView::Act(
            EvolveState { stage, tool: Some(run), ..s },
            effect,
        ),
        ToolStepView::Reply(answer) => evolve_hears(
            EvolveState { stage, tool: None, ..s },
            answer,
        ),
    }
}

/// The model's reply is taken into the talk.
pub open spec fn taken(s: EvolveState, reply: Seq<char>) -> EvolveState {
    EvolveState { talk: s.talk.push(Said { role: "assistant"@, content: reply }), ..s }
}

/// The last check begins.
pub open spec fn begin_final(s: EvolveState) -> EvolveStepView {
    evolve_tells(s, EvolveStage::FinalTold, "Running final lint and tests..."@)
}

/// Evolution comes to its end.
pub open spec fn finish(s: EvolveState) -> EvolveStepView {
    evolve_tells(s, EvolveStage::MemoTold, "Evolution memo: "@ + s.memo_path)
}

/// The last check found that all is well.
pub open spec fn passed(s: EvolveState) -> bool {
    s.lint.ok && s.test.ok
}

/// The next changed file has its turn. When none is left, the documents have, but only where the
/// last check found that all is well.
pub open spec fn next_backup(s: EvolveState) -> EvolveStepView {
    if s.at < s.changed.len() {
        evolve_at(
            s,
            EvolveStage::Checking,
            EffectView::Exists { path: s.changed[s.at as int] },
        )
    } else if passed(s) {
        evolve_at(
            s,
            EvolveStage::DocSources,
            EffectView::ReadTexts { paths: seq![SELF_PATH@, s.guide, "README.md"@] },
        )
    } else {
        finish(s)
    }
}

/// What is said of a check at the end.
pub open spec fn verdict_note(what: Seq<char>, v: Verdict) -> Seq<char> {
    if v.ok {
        what + ": PASS"@
    } else {
        what + ": FAIL\n"@ + v.out
    }
}

/// The fields that log a check.
pub open spec fn verdict_fields(v: Verdict) -> Map<Seq<char>, Tree> {
    Map::empty().insert("ok"@, Tree::Bool(v.ok)).insert("output"@, Tree::Text(v.out))
}

/// The kind of answer that evolution waits for.
pub open spec fn evolve_awaits(s: EvolveState) -> Kind {
    match s.stage {
        EvolveStage::System | EvolveStage::Memo | EvolveStage::DocSystem => Kind::Text,
        EvolveStage::Reflecting => match s.reflection {
            Some(run) => run.stage.awaits(),
            None => Kind::Nothing,
        },
        EvolveStage::Sources | EvolveStage::DocSources => Kind::Texts,
        EvolveStage::Memory => Kind::Memory,
        EvolveStage::Asking | EvolveStage::RefineAsking | EvolveStage::DocAsking => Kind::Reply,
        EvolveStage::Tool | EvolveStage::RefineTool | EvolveStage::DocTool => match s.tool {
            Some(run) => run.stage.awaits(),
            None => Kind::Nothing,
        },
        EvolveStage::Lint | EvolveStage::Test | EvolveStage::FinalLint | EvolveStage::FinalTest
        | EvolveStage::Changed => Kind::Output,
        EvolveStage::Checking => Kind::Flag,
        _ => Kind::Done,
    }
}

/// A reply to the question for a change, once it is logged.
pub open spec fn proposed(s: EvolveState) -> EvolveStepView {
    if says(s.reply, "SKIP"@) {
        evolve_logs(
            EvolveState { done: true, ..s },
            EvolveStage::SkipLogged,
            "iter_skip"@,
            iter_field(s).insert("reason"@, Tree::Text("LLM chose not to evolve"@)),
        )
    } else {
        let noted = EvolveState {
            summary: if s.summary.len() == 0 {
                change_summary(s.reply)
            } else {
                s.summary
            },
            ..taken(s, s.reply)
        };
        match tool_start(s.reply, Some(s.guide), None) {
            Some(step) => evolve_tool(noted, EvolveStage::Tool, step),
            None => end_iter(noted),
        }
    }
}

/// A reply to the question for fixes.
pub open spec fn refined(s: EvolveState, reply: Result<Seq<char>, Seq<char>>) -> EvolveStepView {
    match reply {
        Ok(reply) => if says(reply, "SKIP"@) {
            begin_final(taken(s, reply))
        } else {
            match tool_start(reply, Some(s.guide), None) {
                Some(step) => evolve_tool(taken(s, reply), EvolveStage::RefineTool, step),
                None => begin_final(taken(s, reply)),
            }
        },
        Err(e) => evolve_tells(s, EvolveStage::RefineFailed, "Refine LLM error: "@ + e),
    }
}

/// A reply to the question for documents.
pub open spec fn documented(s: EvolveState, reply: Result<Seq<char>, Seq<char>>) -> EvolveStepView {
    match reply {
        Ok(reply) => match tool_start(reply, Some(s.guide), None) {
            Some(step) => evolve_tool(taken(s, reply), EvolveStage::DocTool, step),
            None => finish(taken(s, reply)),
        },
        Err(e) => evolve_tells(s, EvolveStage::DocFailed, "Doc update LLM error: "@ + e),
    }
}

/// What comes next in the iterations.
pub open spec fn iterate_next(s: EvolveState, event: EventView) -> EvolveStepView {
    match s.stage {
        EvolveStage::Folder => evolve_at(
            s,
            EvolveStage::System,
            EffectView::ReadText { path: prompt_path("evolve_system.txt"@) },
        ),
        EvolveStage::System => evolve_logs(
            EvolveState { system: or_empty(event->Text_0), ..s },
            EvolveStage::Started,
            "evolve_start"@,
            Map::empty(),
        ),
        EvolveStage::Started => begin_iter(s),
        EvolveStage::IterStarted => evolve_reflects(
            s,
            ReflectStepView::Act(reflect_start(), EffectView::ReadText { path: WATERMARK_PATH@ }),
        ),
        EvolveStage::Reflecting => evolve_reflects(s, reflect_next(s.reflection->0, event)),
        EvolveStage::Sources => evolve_at(
            EvolveState {
                src: text_at(event->Texts_0, 0),
                first_doc: text_at(event->Texts_0, 1),
                second_doc: prompts_section(event->Texts_0),
                ..s
            },
            EvolveStage::Memory,
            EffectView::ReadMemory,
        ),
        EvolveStage::Memory => evolve_at(
            EvolveState { memory: index(event->Memory_0), ..s },
            EvolveStage::Memo,
            EffectView::ReadText { path: s.memo_path },
        ),
        EvolveStage::Memo => {
            let changelog = match event->Text_0 {
                Ok(text) => text,
                Err(_) => "(none yet this run)"@,
            };
            let content = proposal(changelog, s.second_doc, s.first_doc, s.memory, s.src);
            evolve_asks(
                EvolveState { talk: seq![Said { role: "user"@, content }], ..s },
                EvolveStage::Asking,
            )
        },
        EvolveStage::Asking => match event->Reply_0 {
            Ok(reply) => evolve_logs(
                EvolveState { reply, ..s },
                EvolveStage::Replied,
                "llm_response"@,
                iter_field(s).insert("turn"@, Tree::Count(s.turn as nat)).insert(
                    "preview"@,
                    Tree::Text(preview(reply)),
                ),
            ),
            Err(e) => evolve_tells(s, EvolveStage::AskFailed, "LLM error: "@ + e),
        },
        EvolveStage::AskFailed => end_iter(s),
        EvolveStage::Replied => proposed(s),
        EvolveStage::SkipLogged => evolve_tells(
            s,
            EvolveStage::SkipTold,
            "Iter "@ + decimal(s.iter as nat) + ": SKIP — evolution complete."@,
        ),
        EvolveStage::SkipTold => end_iter(s),
        EvolveStage::Tool => evolve_tool(s, EvolveStage::Tool, tool_next(s.tool->0, event)),
        EvolveStage::IterEnded => if s.improved {
            evolve_at(
                s,
                EvolveStage::Noted,
                EffectView::AppendText { path: s.memo_path, text: memo_line(s.iter, s.summary) },
            )
        } else {
            after_iter(s)
        },
        EvolveStage::Noted => evolve_tells(
            s,
            EvolveStage::NoteTold,
            "Iter "@ + decimal(s.iter as nat) + ": improved."@,
        ),
        _ => after_iter(s),
    }
}

/// What comes next while the changes are checked.
pub open spec fn check_next(s: EvolveState, event: EventView) -> EvolveStepView {
    match s.stage {
        EvolveStage::Ended => evolve_tells(
            s,
            EvolveStage::CheckTold,
            "Refine: running lint and tests..."@,
        ),
        EvolveStage::CheckTold => evolve_at(s, EvolveStage::Lint, EffectView::Lint),
        EvolveStage::Lint => evolve_at(
            EvolveState { lint: lint_verdict(event->Output_0), ..s },
            EvolveStage::Test,
            EffectView::Test,
        ),
        EvolveStage::Test => {
            let tested = EvolveState { test: test_verdict(event->Output_0), ..s };
            if passed(tested) {
                begin_final(tested)
            } else {
                evolve_tells(
                    tested,
                    EvolveStage::IssuesTold,
                    "Refine: issues found, asking LLM to fix..."@,
                )
            }
        },
        EvolveStage::IssuesTold => evolve_asks(
            EvolveState {
                talk: seq![Said { role: "user"@, content: issues(s.lint, s.test) }],
                ..s
            },
            EvolveStage::RefineAsking,
        ),
        EvolveStage::RefineAsking => refined(s, event->Reply_0),
        EvolveStage::RefineFailed => begin_final(s),
        EvolveStage::RefineTool => evolve_tool(
            s,
            EvolveStage::RefineTool,
            tool_next(s.tool->0, event),
        ),
        EvolveStage::FinalTold => evolve_at(s, EvolveStage::FinalLint, EffectView::Lint),
        EvolveStage::FinalLint => evolve_at(
            EvolveState { lint: lint_verdict(event->Output_0), ..s },
            EvolveStage::FinalTest,
            EffectView::Test,
        ),
        EvolveStage::FinalTest => evolve_logs(
            EvolveState { test: test_verdict(event->Output_0), ..s },
            EvolveStage::LintLogged,
            "lint_result"@,
            verdict_fields(s.lint),
        ),
        EvolveStage::LintLogged => evolve_logs(
            s,
            EvolveStage::TestLogged,
            "test_result"@,
            verdict_fields(s.test),
        ),
        EvolveStage::TestLogged => evolve_tells(
            s,
            EvolveStage::LintTold,
            verdict_note("Lint"@, s.lint),
        ),
        EvolveStage::LintTold => evolve_tells(
            s,
            EvolveStage::TestTold,
            verdict_note("Tests"@, s.test),
        ),
        EvolveStage::TestTold => if passed(s) {
            evolve_at(s, EvolveStage::Changed, EffectView::ListChanged)
        } else {
            evolve_tells(
                s,
                EvolveStage::Warned,
                "WARNING: evolved binary still has lint/test failures after refine."@,
            )
        },
        _ => evolve_at(s, EvolveStage::Changed, EffectView::ListChanged),
    }
}

/// What comes next while changed files are backed up and the documents updated.
pub open spec fn close_next(s: EvolveState, event: EventView) -> EvolveStepView {
    match s.stage {
        EvolveStage::Changed => next_backup(
            EvolveState {
                changed: match event->Output_0 {
                    Ok(o) => lines(o.stdout),
                    Err(_) => seq![],
                },
                at: 0,
                ..s
            },
        ),
        EvolveStage::Checking => if event->Flag_0 {
            evolve_at(
                s,
                EvolveStage::BackingUp,
                EffectView::Backup { path: s.changed[s.at as int] },
            )
        } else {
            next_backup(EvolveState { at: s.at + 1, ..s })
        },
        EvolveStage::BackingUp => next_backup(EvolveState { at: s.at + 1, ..s }),
        EvolveStage::DocSources => evolve_at(
            EvolveState {
                src: text_at(event->Texts_0, 0),
                first_doc: text_at(event->Texts_0, 1),
                second_doc: text_at(event->Texts_0, 2),
                ..s
            },
            EvolveStage::DocSystem,
            EffectView::ReadText { path: prompt_path("doc_system.txt"@) },
        ),
        EvolveStage::DocSystem => evolve_asks(
            EvolveState {
                system: or_empty(event->Text_0),
                talk: seq![
                    Said {
                        role: "user"@,
                        content: doc_question(s.src, s.guide, s.first_doc, s.second_doc),
                    },
                ],
                ..s
            },
            EvolveStage::DocAsking,
        ),
        EvolveStage::DocAsking => documented(s, event->Reply_0),
        EvolveStage::DocFailed => finish(s),
        EvolveStage::DocTool => evolve_tool(s, EvolveStage::DocTool, tool_next(s.tool->0, event)),
        _ => EvolveStepView::Over,
    }
}

/// What a stage belongs to.
#[derive(PartialEq, Eq, Structural, Clone, Copy, Debug)]
pub enum Phase {
    Iterate,
    Check,
    Close,
}

impl EvolveStage {
    /// The phase of a stage.
    pub open spec fn phase(self) -> Phase {
        match self {
            EvolveStage::Folder | EvolveStage::System | EvolveStage::Started
            | EvolveStage::IterStarted | EvolveStage::Reflecting | EvolveStage::Sources
            | EvolveStage::Memory | EvolveStage::Memo | EvolveStage::Asking
            | EvolveStage::AskFailed | EvolveStage::Replied | EvolveStage::SkipLogged
            | EvolveStage::SkipTold | EvolveStage::Tool | EvolveStage::IterEnded
            | EvolveStage::Noted | EvolveStage::NoteTold => Phase::Iterate,
            EvolveStage::Ended | EvolveStage::CheckTold | EvolveStage::Lint | EvolveStage::Test
            | EvolveStage::IssuesTold | EvolveStage::RefineAsking | EvolveStage::RefineFailed
            | EvolveStage::RefineTool | EvolveStage::FinalTold | EvolveStage::FinalLint
            | EvolveStage::FinalTest | EvolveStage::LintLogged | EvolveStage::TestLogged
            | EvolveStage::LintTold | EvolveStage::TestTold | EvolveStage::Warned => Phase::Check,
            _ => Phase::Close,
        }
    }
}

/// What comes next once the outside has answered.
#[verifier::opaque]
pub open spec fn evolve_next(s: EvolveState, event: EventView) -> EvolveStepView {
    match s.stage.phase() {
        Phase::Iterate => iterate_next(s, event),
        Phase::Check => check_next(s, event),
        Phase::Close => close_next(s, event),
    }
}

/// Where evolution that began at `ts` stands after the outside has answered with `events`.
pub open spec fn evolve_after(
    ts: u64,
    guide: Seq<char>,
    events: Seq<EventView>,
) -> EvolveStepView
    decreases events.len(),
{
    if events.len() == 0 {
        EvolveStepView::Act(evolve_start(ts, guide), EffectView::MakeDir { path: ".evo/memos"@ })
    } else {
        match evolve_after(ts, guide, events.drop_last()) {
            EvolveStepView::Over => EvolveStepView::Over,
            EvolveStepView::Act(s, _) => evolve_next(s, events.last()),
        }
    }
}

/// The answer that evolution waits for is the one that its last effect gets.
pub open spec fn evolve_fits(step: EvolveStepView) -> bool {
    match step {
        EvolveStepView::Over => true,
        EvolveStepView::Act(s, effect) => evolve_awaits(s) == effect.answer(),
    }
}

proof fn lemma_tool_fits(s: EvolveState, stage: EvolveStage, step: ToolStepView)
    requires
        stage == EvolveStage::Tool || stage == EvolveStage::RefineTool || stage
            == EvolveStage::DocTool,
        fits(step),
    ensures
        evolve_fits(evolve_tool(s, stage, step)),
{
}

proof fn lemma_reply_fits(s: EvolveState, stage: EvolveStage, reply: Seq<char>)
    requires
        stage == EvolveStage::Tool || stage == EvolveStage::RefineTool || stage
            == EvolveStage::DocTool,
    ensures
        tool_start(reply, Some(s.guide), None) matches Some(step) ==> evolve_fits(
            evolve_tool(s, stage, step),
        ),
{
    if let Some(step) = tool_start(reply, Some(s.guide), None) {
        law_tool_answers_fit(reply, Some(s.guide), None, arbitrary(), EventView::Done);
        lemma_tool_fits(s, stage, step);
    }
}

proof fn lemma_iterate_fits(s: EvolveState, event: EventView)
    ensures
        evolve_fits(iterate_next(s, event)),
{
    match s.stage {
        EvolveStage::Reflecting => {
            lemma_reflection_fits(s.reflection->0, event);
        },
        EvolveStage::Tool => {
            law_tool_answers_fit(seq![], None, None, s.tool->0, event);
            lemma_tool_fits(s, EvolveStage::Tool, tool_next(s.tool->0, event));
        },
        EvolveStage::Replied => {
            if let Some(step) = tool_start(s.reply, Some(s.guide), None) {
                law_tool_answers_fit(s.reply, Some(s.guide), None, arbitrary(), EventView::Done);
            }
        },
        _ => {},
    }
}

proof fn lemma_check_fits(s: EvolveState, event: EventView)
    ensures
        evolve_fits(check_next(s, event)),
{
    match s.stage {
        EvolveStage::RefineTool => {
            law_tool_answers_fit(seq![], None, None, s.tool->0, event);
            lemma_tool_fits(s, EvolveStage::RefineTool, tool_next(s.tool->0, event));
        },
        EvolveStage::RefineAsking => {
            if let Ok(reply) = event->Reply_0 {
                lemma_reply_fits(taken(s, reply), EvolveStage::RefineTool, reply);
            }
        },
        _ => {},
    }
}

proof fn lemma_close_fits(s: EvolveState, event: EventView)
    ensures
        evolve_fits(close_next(s, event)),
{
    match s.stage {
        EvolveStage::DocTool => {
            law_tool_answers_fit(seq![], None, None, s.tool->0, event);
            lemma_tool_fits(s, EvolveStage::DocTool, tool_next(s.tool->0, event));
        },
        EvolveStage::DocAsking => {
            if let Ok(reply) = event->Reply_0 {
                lemma_reply_fits(taken(s, reply), EvolveStage::DocTool, reply);
            }
        },
        _ => {},
    }
}

/// The answer that evolution waits for after a step is the one that its effect gets.
pub proof fn lemma_evolution_fits(s: EvolveState, event: EventView)
    ensures
        evolve_fits(evolve_next(s, event)),
{
    reveal(evolve_next);
    lemma_iterate_fits(s, event);
    lemma_check_fits(s, event);
    lemma_close_fits(s, event);
}

/// A step leads to a state that is ready for the next.
pub open spec fn evolve_ready(step: EvolveStepView) -> bool {
    match step {
        EvolveStepView::Over => true,
        EvolveStepView::Act(s, _) => s.ready(),
    }
}

/// A step from a state that is ready leads to one that is.
pub proof fn lemma_ready(s: EvolveState, event: EventView)
    requires
        s.ready(),
    ensures
        evolve_ready(evolve_next(s, event)),
{
    reveal(evolve_next);
    match s.stage.phase() {
        Phase::Iterate => {
            assert(evolve_ready(iterate_next(s, event)));
        },
        Phase::Check => {
            assert(evolve_ready(check_next(s, event)));
        },
        Phase::Close => {
            assert(evolve_ready(close_next(s, event)));
        },
    }
}

/// Whoever carries out each effect of evolution and hands back its answer can always go on.
pub proof fn law_evolution_answers_fit(ts: u64, guide: Seq<char>, events: Seq<EventView>)
    ensures
        match evolve_after(ts, guide, events) {
            EvolveStepView::Over => true,
            EvolveStepView::Act(s, effect) => evolve_awaits(s) == effect.answer(),
        },
{
    if events.len() > 0 {
        if let EvolveStepView::Act(s, _) = evolve_after(ts, guide, events.drop_last()) {
            lemma_evolution_fits(s, events.last());
        }
    }
}

/// An effect that evolution may take: it changes no file but those that may evolve and the
/// agent's own records, and has nothing to do with sub-agents or the user's input. What a shell
/// command does is up to the command.
pub open spec fn in_bounds(effect: EffectView, memo: Seq<char>, guide: Seq<char>) -> bool {
    match effect {
        EffectView::WriteText { path, .. } => evolvable(path, guide) || path == WATERMARK_PATH@,
        EffectView::DeleteFile { path } => deletable(path),
        EffectView::AppendText { path, .. } => path == memo,
        EffectView::MakeDir { path } => path == ".evo/memos"@ || path == ".evo"@,
        EffectView::MakeParent { path } => evolvable(path, guide),
        EffectView::StartAgent { .. } | EffectView::PollAgent { .. } | EffectView::Say { .. }
        | EffectView::Time | EffectView::NextInput | EffectView::Quit | EffectView::Relaunch
        | EffectView::Stop => false,
        _ => true,
    }
}

/// What evolution has under way stays in bounds.
pub open spec fn orderly(s: EvolveState) -> bool {
    match s.stage {
        EvolveStage::Tool | EvolveStage::RefineTool | EvolveStage::DocTool => match s.tool {
            Some(run) => stays_in(run, s.guide) && !on_agents(run.stage),
            None => false,
        },
        EvolveStage::Reflecting => match s.reflection {
            Some(run) => looks_forward(run),
            None => false,
        },
        _ => true,
    }
}

/// A step that stays in bounds.
pub open spec fn evolve_orderly(
    step: EvolveStepView,
    memo: Seq<char>,
    guide: Seq<char>,
) -> bool {
    match step {
        EvolveStepView::Over => true,
        EvolveStepView::Act(s, effect) => {
            &&& orderly(s)
            &&& s.memo_path == memo
            &&& s.guide == guide
            &&& in_bounds(effect, memo, guide)
        },
    }
}

proof fn lemma_tool_orderly(s: EvolveState, stage: EvolveStage, step: ToolStepView)
    requires
        stage == EvolveStage::Tool || stage == EvolveStage::RefineTool || stage
            == EvolveStage::DocTool,
        keeps_confined(step, s.guide),
        works_without_agents(step),
        match step {
            ToolStepView::Reply(_) => true,
            ToolStepView::Act(_, effect) => in_bounds(effect, s.memo_path, s.guide),
        },
    ensures
        evolve_orderly(evolve_tool(s, stage, step), s.memo_path, s.guide),
{
}

/// A tool call that the agent makes while it evolves stays in bounds.
proof fn lemma_tool_in_bounds(
    reply: Seq<char>,
    s: ToolState,
    event: EventView,
    memo: Seq<char>,
    guide: Seq<char>,
)
    ensures
        tool_start(reply, Some(guide), None) matches Some(ToolStepView::Act(_, effect))
            ==> in_bounds(effect, memo, guide),
        stays_in(s, guide) && !on_agents(s.stage) ==> (tool_next(s, event)
            matches ToolStepView::Act(_, effect) ==> in_bounds(effect, memo, guide)),
{
}

proof fn lemma_begins_orderly(s: EvolveState, stage: EvolveStage, reply: Seq<char>)
    requires
        stage == EvolveStage::Tool || stage == EvolveStage::RefineTool || stage
            == EvolveStage::DocTool,
    ensures
        tool_start(reply, Some(s.guide), None) matches Some(step) ==> evolve_orderly(
            evolve_tool(s, stage, step),
            s.memo_path,
            s.guide,
        ),
{
    if let Some(step) = tool_start(reply, Some(s.guide), None) {
        lemma_starts_confined(reply, s.guide, None);
        lemma_works_without_agents(reply, Some(s.guide), arbitrary(), EventView::Done);
        lemma_tool_in_bounds(reply, arbitrary(), EventView::Done, s.memo_path, s.guide);
        lemma_tool_orderly(s, stage, step);
    }
}

proof fn lemma_goes_on_orderly(s: EvolveState, stage: EvolveStage, event: EventView)
    requires
        stage == EvolveStage::Tool || stage == EvolveStage::RefineTool || stage
            == EvolveStage::DocTool,
        s.tool matches Some(run) && stays_in(run, s.guide) && !on_agents(run.stage),
    ensures
        evolve_orderly(evolve_tool(s, stage, tool_next(s.tool->0, event)), s.memo_path, s.guide),
{
    lemma_goes_on_confined(s.tool->0, event, s.guide);
    lemma_works_without_agents(seq![], None, s.tool->0, event);
    lemma_tool_in_bounds(seq![], s.tool->0, event, s.memo_path, s.guide);
    lemma_tool_orderly(s, stage, tool_next(s.tool->0, event));
}

proof fn lemma_iterate_orderly(s: EvolveState, event: EventView)
    requires
        orderly(s),
    ensures
        evolve_orderly(iterate_next(s, event), s.memo_path, s.guide),
{
    match s.stage {
        EvolveStage::Reflecting => {
            lemma_looks_forward(s.reflection->0, event);
        },
        EvolveStage::Tool => {
            lemma_goes_on_orderly(s, EvolveStage::Tool, event);
        },
        EvolveStage::Replied => {
            let noted = EvolveState {
                summary: if s.summary.len() == 0 {
                    change_summary(s.reply)
                } else {
                    s.summary
                },
                ..taken(s, s.reply)
            };
            lemma_begins_orderly(noted, EvolveStage::Tool, s.reply);
        },
        _ => {},
    }
}

proof fn lemma_check_orderly(s: EvolveState, event: EventView)
    requires
        orderly(s),
    ensures
        evolve_orderly(check_next(s, event), s.memo_path, s.guide),
{
    match s.stage {
        EvolveStage::RefineTool => {
            lemma_goes_on_orderly(s, EvolveStage::RefineTool, event);
        },
        EvolveStage::RefineAsking => {
            if let Ok(reply) = event->Reply_0 {
                lemma_begins_orderly(taken(s, reply), EvolveStage::RefineTool, reply);
            }
        },
        _ => {},
    }
}

proof fn lemma_close_orderly(s: EvolveState, event: EventView)
    requires
        orderly(s),
    ensures
        evolve_orderly(close_next(s, event), s.memo_path, s.guide),
{
    match s.stage {
        EvolveStage::DocTool => {
            lemma_goes_on_orderly(s, EvolveStage::DocTool, event);
        },
        EvolveStage::DocAsking => {
            if let Ok(reply) = event->Reply_0 {
                lemma_begins_orderly(taken(s, reply), EvolveStage::DocTool, reply);
            }
        },
        _ => {},
    }
}

/// Evolution never writes a file by itself but those that may evolve, its memo and the
/// watermark, whatever the model replies and the outside answers.
pub proof fn law_evolution_stays_in_bounds(ts: u64, guide: Seq<char>, events: Seq<EventView>)
    ensures
        evolve_orderly(evolve_after(ts, guide, events), memo_path(ts), guide),
    decreases events.len(),
{
    reveal(evolve_next);
    if events.len() > 0 {
        law_evolution_stays_in_bounds(ts, guide, events.drop_last());
        if let EvolveStepView::Act(s, _) = evolve_after(ts, guide, events.drop_last()) {
            match s.stage.phase() {
                Phase::Iterate => {
                    lemma_iterate_orderly(s, events.last());
                },
                Phase::Check => {
                    lemma_check_orderly(s, events.last());
                },
                Phase::Close => {
                    lemma_close_orderly(s, events.last());
                },
            }
        }
    }
}

/// No more of what a check printed is kept than the limit allows.
pub proof fn law_verdicts_are_bounded(o: OutputView)
    ensures
        lint_verdict(Ok(o)).out.len() <= OUTPUT_LIMIT,
        test_verdict(Ok(o)).out.len() <= OUTPUT_LIMIT,
{
}

/// The model was asked for a change, and its reply, the event at position `n`, says that nothing
/// is worth changing.
pub open spec fn skips_at(ts: u64, guide: Seq<char>, events: Seq<EventView>, n: int) -> bool {
    &&& evolve_after(ts, guide, events.take(n)) matches EvolveStepView::Act(s, _) && s.stage
        == EvolveStage::Asking
    &&& events[n] matches EventView::Reply(Ok(reply)) && says(reply, "SKIP"@)
}

/// The model said among `events`, when it was asked for a change, that nothing is worth changing.
pub open spec fn skip_heard(ts: u64, guide: Seq<char>, events: Seq<EventView>) -> bool {
    exists|n: int| 0 <= n < events.len() && #[trigger] skips_at(ts, guide, events, n)
}

/// A reply that is taken up is the last event, heard when the model was asked for a change, and
/// evolution is done only once the model has said so.
spec fn heeds(ts: u64, guide: Seq<char>, events: Seq<EventView>, s: EvolveState) -> bool {
    &&& s.stage == EvolveStage::Replied ==> {
        &&& events.len() > 0
        &&& events.last() == EventView::Reply(Ok(s.reply))
        &&& evolve_after(ts, guide, events.drop_last()) matches EvolveStepView::Act(asked, _)
            && asked.stage == EvolveStage::Asking
    }
    &&& s.done || s.stage.phase() != Phase::Iterate ==> skip_heard(ts, guide, events)
}

/// What was heard stays heard.
proof fn lemma_heard(ts: u64, guide: Seq<char>, events: Seq<EventView>)
    requires
        events.len() > 0,
    ensures
        skip_heard(ts, guide, events.drop_last()) ==> skip_heard(ts, guide, events),
{
    let before = events.drop_last();
    if skip_heard(ts, guide, before) {
        let n = choose|n: int| 0 <= n < before.len() && #[trigger] skips_at(ts, guide, before, n);
        assert(before.take(n) =~= events.take(n));
        assert(skips_at(ts, guide, events, n));
    }
}

proof fn lemma_proposed_heeds(
    ts: u64,
    guide: Seq<char>,
    events: Seq<EventView>,
    s: EvolveState,
)
    requires
        events.len() > 0,
        s.stage == EvolveStage::Replied,
        heeds(ts, guide, events.drop_last(), s),
    ensures
        match proposed(s) {
            EvolveStepView::Over => false,
            EvolveStepView::Act(next, _) => heeds(ts, guide, events, next),
        },
{
    lemma_heard(ts, guide, events);
    if says(s.reply, "SKIP"@) {
        let before = events.drop_last();
        let n = before.len() - 1;
        assert(events.take(n) =~= before.drop_last());
        assert(events[n] == before.last());
        assert(skips_at(ts, guide, events, n));
    }
}

proof fn lemma_iterate_heeds(ts: u64, guide: Seq<char>, events: Seq<EventView>, s: EvolveState)
    requires
        events.len() > 0,
        evolve_after(ts, guide, events.drop_last()) matches EvolveStepView::Act(now, _) && now == s,
        s.stage.phase() == Phase::Iterate,
        heeds(ts, guide, events.drop_last(), s),
        events.last().kind() == evolve_awaits(s),
    ensures
        match iterate_next(s, events.last()) {
            EvolveStepView::Over => false,
            EvolveStepView::Act(next, _) => heeds(ts, guide, events, next),
        },
{
    lemma_heard(ts, guide, events);
    if s.stage == EvolveStage::Replied {
        lemma_proposed_heeds(ts, guide, events, s);
    }
}

proof fn lemma_later_phase(s: EvolveState, event: EventView)
    requires
        s.stage.phase() != Phase::Iterate,
    ensures
        match evolve_next(s, event) {
            EvolveStepView::Over => true,
            EvolveStepView::Act(next, _) => next.stage.phase() != Phase::Iterate,
        },
{
    reveal(evolve_next);
    match s.stage.phase() {
        Phase::Check => {
            assert(match check_next(s, event) {
                EvolveStepView::Over => true,
                EvolveStepView::Act(next, _) => next.stage.phase() != Phase::Iterate,
            });
        },
        _ => {
            assert(match close_next(s, event) {
                EvolveStepView::Over => true,
                EvolveStepView::Act(next, _) => next.stage.phase() != Phase::Iterate,
            });
        },
    }
}

/// The events answer each effect with its kind.
pub open spec fn answers_fit(ts: u64, guide: Seq<char>, events: Seq<EventView>) -> bool {
    forall|n: int|
        0 <= n < events.len() ==> (#[trigger] evolve_after(ts, guide, events.take(n))
            matches EvolveStepView::Act(s, _) ==> events[n].kind() == evolve_awaits(s))
}

/// The iterations go on until the model, asked for a change, says that nothing is worth changing:
/// no check begins, and evolution does not end, before it has said so.
pub proof fn law_only_skip_ends_evolution(ts: u64, guide: Seq<char>, events: Seq<EventView>)
    requires
        answers_fit(ts, guide, events),
    ensures
        match evolve_after(ts, guide, events) {
            EvolveStepView::Over => skip_heard(ts, guide, events),
            EvolveStepView::Act(s, _) => s.done || s.stage.phase() != Phase::Iterate ==> skip_heard(
                ts,
                guide,
                events,
            ),
        },
{
    lemma_evolution_heeds(ts, guide, events);
}

proof fn lemma_evolution_heeds(ts: u64, guide: Seq<char>, events: Seq<EventView>)
    requires
        answers_fit(ts, guide, events),
    ensures
        match evolve_after(ts, guide, events) {
            EvolveStepView::Over => skip_heard(ts, guide, events),
            EvolveStepView::Act(s, _) => heeds(ts, guide, events, s),
        },
    decreases events.len(),
{
    reveal(evolve_next);
    if events.len() > 0 {
        let before = events.drop_last();
        let last = events.len() - 1;
        assert forall|n: int| 0 <= n < before.len() implies (#[trigger] evolve_after(
            ts,
            guide,
            before.take(n),
        ) matches EvolveStepView::Act(s, _) ==> before[n].kind() == evolve_awaits(s)) by {
            assert(before.take(n) =~= events.take(n));
        }
        lemma_evolution_heeds(ts, guide, before);
        assert(events.take(last) =~= before);
        lemma_heard(ts, guide, events);
        if let EvolveStepView::Act(s, _) = evolve_after(ts, guide, before) {
            assert(events[last].kind() == evolve_awaits(s));
            if s.stage.phase() == Phase::Iterate {
                lemma_iterate_heeds(ts, guide, events, s);
            } else {
                lemma_later_phase(s, events.last());
            }
        }
    }
}

/// A stage at which the documents are updated.
pub open spec fn documents(stage: EvolveStage) -> bool {
    stage == EvolveStage::DocSources || stage == EvolveStage::DocSystem || stage
        == EvolveStage::DocAsking || stage == EvolveStage::DocFailed || stage
        == EvolveStage::DocTool
}

/// A stage that comes after the last check, before the documents.
pub open spec fn judged(stage: EvolveStage) -> bool {
    stage == EvolveStage::LintLogged || stage == EvolveStage::TestLogged || stage
        == EvolveStage::LintTold || stage == EvolveStage::TestTold || stage == EvolveStage::Warned
        || stage == EvolveStage::Changed || stage == EvolveStage::Checking || stage
        == EvolveStage::BackingUp || stage == EvolveStage::MemoTold
}

/// Where evolution stands when it goes on from `s` and the outside answers with `events`.
pub open spec fn evolve_from(s: EvolveState, events: Seq<EventView>) -> Option<EvolveState>
    decreases events.len(),
{
    if events.len() == 0 {
        Some(s)
    } else {
        match evolve_from(s, events.drop_last()) {
            Some(now) => match evolve_next(now, events.last()) {
                EvolveStepView::Over => None,
                EvolveStepView::Act(next, _) => Some(next),
            },
            None => None,
        }
    }
}

proof fn lemma_gate(s: EvolveState, event: EventView)
    requires
        judged(s.stage),
    ensures
        match evolve_next(s, event) {
            EvolveStepView::Over => true,
            EvolveStepView::Act(next, effect) => {
                &&& next.lint == s.lint && next.test == s.test
                &&& judged(next.stage) || passed(s)
                &&& !passed(s) ==> !(effect is Ask) && !(effect is WriteText)
            },
        },
{
    reveal(evolve_next);
    if s.stage.phase() == Phase::Check {
        assert(evolve_next(s, event) == check_next(s, event));
    } else {
        assert(evolve_next(s, event) == close_next(s, event));
    }
}

/// The last check is a gate: from a state in which it has failed, the model is not asked to
/// update the documents, nor for anything else, and no file is written, whatever the outside
/// answers.
pub proof fn law_failed_check_shuts_the_gate(s: EvolveState, events: Seq<EventView>)
    requires
        judged(s.stage),
        !passed(s),
    ensures
        evolve_from(s, events) matches Some(now) ==> {
            &&& !documents(now.stage)
            &&& judged(now.stage)
            &&& !passed(now)
            &&& forall|event: EventView|
                (#[trigger] evolve_next(now, event)) matches EvolveStepView::Act(_, effect)
                    ==> !(effect is Ask) && !(effect is WriteText)
        },
    decreases events.len(),
{
    if events.len() > 0 {
        law_failed_check_shuts_the_gate(s, events.drop_last());
        if let Some(now) = evolve_from(s, events.drop_last()) {
            lemma_gate(now, events.last());
        }
    }
    if let Some(now) = evolve_from(s, events) {
        assert forall|event: EventView| (#[trigger] evolve_next(now, event)) matches EvolveStepView::Act(
            _,
            effect,
        ) ==> !(effect is Ask) && !(effect is WriteText) by {
            lemma_gate(now, event);
        }
    }
}

proof fn lemma_documents_step(s: EvolveState, event: EventView)
    requires
        documents(s.stage) ==> passed(s),
    ensures
        match evolve_next(s, event) {
            EvolveStepView::Over => true,
            EvolveStepView::Act(next, _) => documents(next.stage) ==> passed(next),
        },
{
    reveal(evolve_next);
    match s.stage.phase() {
        Phase::Iterate => {
            assert(match iterate_next(s, event) {
                EvolveStepView::Over => true,
                EvolveStepView::Act(next, _) => !documents(next.stage),
            });
        },
        Phase::Check => {
            assert(match check_next(s, event) {
                EvolveStepView::Over => true,
                EvolveStepView::Act(next, _) => !documents(next.stage),
            });
        },
        Phase::Close => {
            assert(match close_next(s, event) {
                EvolveStepView::Over => true,
                EvolveStepView::Act(next, _) => documents(next.stage) ==> passed(next),
            });
        },
    }
}

/// The documents are updated only from a state that the last lint and the last tests have found
/// to be well.
pub proof fn law_documents_follow_a_passed_check(ts: u64, guide: Seq<char>, events: Seq<EventView>)
    ensures
        evolve_after(ts, guide, events) matches EvolveStepView::Act(s, _) ==> (documents(s.stage)
            ==> passed(s)),
    decreases events.len(),
{
    if events.len() > 0 {
        law_documents_follow_a_passed_check(ts, guide, events.drop_last());
        if let EvolveStepView::Act(s, _) = evolve_after(ts, guide, events.drop_last()) {
            lemma_documents_step(s, events.last());
        }
    }
}

/// The files that are backed up from a state on, when those are there of which `there` holds.
pub open spec fn backups(s: EvolveState, there: spec_fn(Seq<char>) -> bool, fuel: nat) -> Seq<
    Seq<char>,
>
    decreases fuel,
{
    if fuel == 0 || s.stage != EvolveStage::Checking {
        seq![]
    } else {
        match evolve_next(s, EventView::Flag(there(s.changed[s.at as int]))) {
            EvolveStepView::Over => seq![],
            EvolveStepView::Act(next, effect) => match effect {
                EffectView::Backup { path } => match evolve_next(next, EventView::Done) {
                    EvolveStepView::Over => seq![path],
                    EvolveStepView::Act(after, _) => seq![path] + backups(
                        after,
                        there,
                        (fuel - 1) as nat,
                    ),
                },
                _ => backups(next, there, (fuel - 1) as nat),
            },
        }
    }
}

proof fn lemma_filter_first(s: Seq<Seq<char>>, p: spec_fn(Seq<char>) -> bool)
    requires
        s.len() > 0,
    ensures
        s.filter(p) == if p(s[0]) {
            seq![s[0]] + s.skip(1).filter(p)
        } else {
            s.skip(1).filter(p)
        },
    decreases s.len(),
{
    reveal(Seq::filter);
    if s.len() > 1 {
        let t = s.drop_last();
        lemma_filter_first(t, p);
        assert(s.skip(1).drop_last() =~= t.skip(1));
        assert(s.skip(1).last() == s.last());
        if p(s.last()) {
            assert(s.filter(p) =~= if p(s[0]) {
                seq![s[0]] + s.skip(1).filter(p)
            } else {
                s.skip(1).filter(p)
            });
        }
    } else {
        assert(s.skip(1) =~= seq![]);
        assert(s.drop_last() =~= seq![]);
        assert(s.filter(p) =~= if p(s[0]) {
            seq![s[0]] + s.skip(1).filter(p)
        } else {
            s.skip(1).filter(p)
        });
    }
}

/// A changed file that is there is backed up, and then the next has its turn.
proof fn lemma_backup_steps(s: EvolveState, there: bool)
    requires
        s.stage == EvolveStage::Checking,
    ensures
        evolve_next(s, EventView::Flag(there)) == if there {
            evolve_at(
                s,
                EvolveStage::BackingUp,
                EffectView::Backup { path: s.changed[s.at as int] },
            )
        } else {
            next_backup(EvolveState { at: s.at + 1, ..s })
        },
        evolve_next(EvolveState { stage: EvolveStage::BackingUp, ..s }, EventView::Done)
            == next_backup(EvolveState { stage: EvolveStage::BackingUp, at: s.at + 1, ..s }),
{
    reveal(evolve_next);
}

proof fn lemma_backups(s: EvolveState, there: spec_fn(Seq<char>) -> bool)
    requires
        s.at <= s.changed.len(),
    ensures
        match next_backup(s) {
            EvolveStepView::Over => false,
            EvolveStepView::Act(next, _) => backups(
                next,
                there,
                (s.changed.len() - s.at) as nat,
            ) == s.changed.skip(s.at as int).filter(there),
        },
    decreases s.changed.len() - s.at,
{
    let rest = s.changed.skip(s.at as int);
    if s.at < s.changed.len() {
        let more = EvolveState { at: s.at + 1, ..s };
        lemma_backups(more, there);
        lemma_backups(EvolveState { stage: EvolveStage::Checking, ..more }, there);
        lemma_backups(EvolveState { stage: EvolveStage::BackingUp, ..more }, there);
        lemma_backup_steps(
            EvolveState { stage: EvolveStage::Checking, ..s },
            there(s.changed[s.at as int]),
        );
        lemma_filter_first(rest, there);
        assert(rest.skip(1) =~= s.changed.skip(s.at as int + 1));
    } else {
        reveal(Seq::filter);
        assert(rest =~= seq![]);
    }
}

/// Every file that the listing names and that is there is backed up, each in its turn.
pub proof fn law_changed_files_are_backed_up(
    s: EvolveState,
    listing: OutputView,
    there: spec_fn(Seq<char>) -> bool,
)
    requires
        s.stage == EvolveStage::Changed,
    ensures
        match evolve_next(s, EventView::Output(Ok(listing))) {
            EvolveStepView::Over => false,
            EvolveStepView::Act(next, _) => backups(
                next,
                there,
                lines(listing.stdout).len(),
            ) == lines(listing.stdout).filter(there),
        },
{
    reveal(evolve_next);
    let listed = EvolveState { changed: lines(listing.stdout), at: 0, ..s };
    lemma_backups(listed, there);
    assert(listed.changed.skip(0) =~= listed.changed);
}

} // verus!
