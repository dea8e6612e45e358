//! Evolution under way: the steps of evolution, carried out.

use crate::agents::option_view;
use crate::effect::{
    is_success, next_count, output_view, preview_of, result_view, Effect, EffectView, Event,
    EventView, Fields, Kind, LogData, Output, Talk,
};
use crate::evolve::{
    after_iter, begin_final, begin_iter, check_next, close_next, doc_question, documented,
    end_iter, evolve_asks, evolve_at, evolve_awaits, evolve_hears, evolve_logs, evolve_next,
    evolve_ready, evolve_reflects, evolve_start, evolve_tells, evolve_tool, finish, is_telling,
    issues, iter_field, iterate_next, lemma_ready, lint_verdict, memo_line, next_backup, passed,
    prompt_entry, prompt_names, prompts_section, proposal, proposed, refined,
    source_paths, telling, test_verdict, text_at, truth, verdict_note,
    EvolveStage, EvolveState, EvolveStepView, Phase, Verdict, CHANGE_LIMIT,
};
use crate::memory::memory_index;
use crate::number::show;
use crate::paths::{prompt_file, SELF_PATH};
use crate::reflect::{reflect, ReflectState, ReflectStep, Reflection};
use crate::run::{run_tool, text_or_empty, tool_next, ToolRun, ToolStep, OUTPUT_LIMIT};
use crate::subagent::tool_view;
use crate::text::{
    first_chars, has, join, lemma_texts_push, line_one, lines, lines_of, reply_says, texts,
};
use vstd::prelude::*;
use vstd::string::*;

verus! {

/// What a check found.
pub struct Finding {
    pub ok: bool,
    pub out: String,
}

impl View for Finding {
    type V = Verdict;

    open spec fn view(&self) -> Verdict {
        Verdict { ok: self.ok, out: self.out@ }
    }
}

/// The view of texts, where each could be read.
pub open spec fn options_view(v: Seq<Option<String>>) -> Seq<Option<Seq<char>>> {
    Seq::new(v.len(), |i: int| option_view(v[i]))
}

/// The view of reflection, where it is under way.
pub open spec fn reflection_view(o: Option<Reflection>) -> Option<ReflectState> {
    match o {
        Some(run) => Some(run@),
        None => None,
    }
}

/// A line more adds itself where it tells something.
proof fn lemma_telling_push(ls: Seq<Seq<char>>, line: Seq<char>)
    ensures
        telling(ls.push(line)) == if is_telling(line) {
            telling(ls).push(line)
        } else {
            telling(ls)
        },
{
    reveal(Seq::filter);
    assert(ls.push(line).drop_last() =~= ls);
}

/// The lines that tell something.
fn telling_lines(ls: &Vec<String>) -> (r: Vec<String>)
    ensures
        texts(r@) == telling(texts(ls@)),
{
    let mut r: Vec<String> = Vec::new();
    let mut i: usize = 0;
    proof {
        reveal(Seq::filter);
        assert(texts(ls@).take(0) =~= Seq::<Seq<char>>::empty());
        assert(texts(r@) =~= Seq::<Seq<char>>::empty());
    }
    while i < ls.len()
        invariant
            0 <= i <= ls.len(),
            texts(r@) == telling(texts(ls@).take(i as int)),
        decreases ls.len() - i,
    {
        let line = ls[i].clone();
        proof {
            lemma_telling_push(texts(ls@).take(i as int), line@);
            assert(texts(ls@).take(i as int).push(line@) =~= texts(ls@).take(i + 1));
            lemma_texts_push(r@, line);
        }
        if has(line.as_str(), "warning") || has(line.as_str(), "error") {
            r.push(line);
        }
        i = i + 1;
    }
    assert(texts(ls@).take(ls.len() as int) =~= texts(ls@));
    r
}

/// What the linter found.
pub fn judge_lint(out: &Result<Output, String>) -> (r: Finding)
    ensures
        r@ == lint_verdict(output_view(*out)),
{
    match out {
        Ok(o) => {
            let mut combined = o.stdout.clone();
            combined.append(o.stderr.as_str());
            let relevant = join(&telling_lines(&lines_of(combined.as_str())), "\n");
            let shown = if relevant.as_str().unicode_len() == 0 {
                combined.as_str()
            } else {
                relevant.as_str()
            };
            Finding { ok: is_success(o), out: first_chars(shown, OUTPUT_LIMIT).to_owned() }
        },
        Err(e) => Finding { ok: false, out: e.clone() },
    }
}

/// What the tests found.
pub fn judge_tests(out: &Result<Output, String>) -> (r: Finding)
    ensures
        r@ == test_verdict(output_view(*out)),
{
    match out {
        Ok(o) => {
            let mut combined = o.stdout.clone();
            combined.append(o.stderr.as_str());
            Finding {
                ok: is_success(o),
                out: first_chars(combined.as_str(), OUTPUT_LIMIT).to_owned(),
            }
        },
        Err(e) => Finding { ok: false, out: e.clone() },
    }
}

/// The text at position `i`, empty where there is none.
fn text_of(read: &Vec<Option<String>>, i: usize) -> (r: String)
    ensures
        r@ == text_at(options_view(read@), i as int),
{
    if i < read.len() {
        match &read[i] {
            Some(t) => t.clone(),
            None => String::new(),
        }
    } else {
        String::new()
    }
}

/// The files that an iteration reads.
fn sources() -> (r: Vec<String>)
    ensures
        texts(r@) == source_paths(),
{
    let mut r: Vec<String> = Vec::new();
    r.push(SELF_PATH.to_owned());
    r.push("src/AGENTS.md".to_owned());
    r.push(prompt_file("chat_system.txt"));
    r.push(prompt_file("reflect_system.txt"));
    r.push(prompt_file("evolve_system.txt"));
    r.push(prompt_file("doc_system.txt"));
    assert(texts(r@) =~= source_paths());
    r
}

/// A prompt file under its heading.
fn show_prompt(name: &str, content: &str) -> (r: String)
    ensures
        r@ == prompt_entry(name@, content@),
{
    let mut r = "=== src/prompts/".to_owned();
    r.append(name);
    r.append(" ===\n");
    r.append(content);
    r
}

/// The prompt files under their headings.
fn show_prompts(read: &Vec<Option<String>>) -> (r: String)
    ensures
        r@ == prompts_section(options_view(read@)),
{
    let mut parts: Vec<String> = Vec::new();
    parts.push(show_prompt("chat_system.txt", text_of(read, 2).as_str()));
    parts.push(show_prompt("reflect_system.txt", text_of(read, 3).as_str()));
    parts.push(show_prompt("evolve_system.txt", text_of(read, 4).as_str()));
    parts.push(show_prompt("doc_system.txt", text_of(read, 5).as_str()));
    assert(texts(parts@) =~= Seq::new(
        prompt_names().len(),
        |i: int| prompt_entry(prompt_names()[i], text_at(options_view(read@), i + 2)),
    ));
    join(&parts, "\n\n")
}

/// What the model is shown when it is asked for a change.
fn show_proposal(changelog: &str, prompts: &str, agents: &str, memory: &str, src: &str) -> (r:
    String)
    ensures
        r@ == proposal(changelog@, prompts@, agents@, memory@, src@),
{
    let mut r = "Changes already made this run (do not repeat):\n".to_owned();
    r.append(changelog);
    r.append("\n\nPrompt files:\n");
    r.append(prompts);
    r.append("\n\nsrc/AGENTS.md:\n");
    r.append(agents);
    r.append("\n\nsrc/memory/ (filepath — description):\n");
    r.append(memory);
    r.append("\n\nsrc/main.rs:\n```rust\n");
    r.append(src);
    r.append(
        "\n```\n\nPropose one improvement not in the changelog. Priority: prompts > AGENTS.md > memory/*.md > main.rs. Reply SKIP if nothing is worth changing.",
    );
    r
}

/// A truth value, written out.
fn show_truth(b: bool) -> (r: &'static str)
    ensures
        r@ == truth(b),
{
    if b {
        "true"
    } else {
        "false"
    }
}

/// What the model is told when a check found issues.
fn show_issues(lint: &Finding, test: &Finding) -> (r: String)
    ensures
        r@ == issues(lint@, test@),
{
    let mut r =
        "Post-evolution check found issues. Fix them using write_file. Reply SKIP if nothing to fix.\n\nClippy (ok=".to_owned();
    r.append(show_truth(lint.ok));
    r.append("):\n");
    r.append(lint.out.as_str());
    r.append("\n\nTests (ok=");
    r.append(show_truth(test.ok));
    r.append("):\n");
    r.append(test.out.as_str());
    r
}

/// What the model is shown when it is asked to update the documents.
fn show_documents(src: &str, guide: &str, guidance: &str, readme: &str) -> (r: String)
    ensures
        r@ == doc_question(src@, guide@, guidance@, readme@),
{
    let mut r = "Current src/main.rs:\n```rust\n".to_owned();
    r.append(src);
    r.append("\n```\n\nCurrent ");
    r.append(guide);
    r.append(":\n");
    r.append(guidance);
    r.append("\n\nCurrent README.md:\n");
    r.append(readme);
    r.append("\n\nUpdate both docs to match the implementation.");
    r
}

/// What is said of a check at the end.
fn show_verdict(what: &str, v: &Finding) -> (r: String)
    ensures
        r@ == verdict_note(what@, v@),
{
    let mut r = what.to_owned();
    if v.ok {
        r.append(": PASS");
    } else {
        r.append(": FAIL\n");
        r.append(v.out.as_str());
    }
    r
}

/// The line that enters a change in the memo.
pub fn memo_entry(iter: u64, summary: &str) -> (r: String)
    ensures
        r@ == memo_line(iter, summary@),
{
    let mut r = "- iter ".to_owned();
    r.append(show(iter).as_str());
    r.append(": ");
    r.append(summary);
    r.append("\n");
    r
}

/// The files that changed, as their listing names them.
pub fn changed_files(listing: &Result<Output, String>) -> (r: Vec<String>)
    ensures
        texts(r@) == match output_view(*listing) {
            Ok(o) => lines(o.stdout),
            Err(_) => seq![],
        },
{
    match listing {
        Ok(o) => lines_of(o.stdout.as_str()),
        Err(_) => {
            let r: Vec<String> = Vec::new();
            assert(texts(r@) =~= Seq::<Seq<char>>::empty());
            r
        },
    }
}

/// Evolution under way.
pub struct Evolution {
    stage: EvolveStage,
    guide: String,
    memo_path: String,
    system: String,
    iter: u64,
    turn: u64,
    talk: Talk,
    reply: String,
    improved: bool,
    done: bool,
    summary: String,
    src: String,
    first_doc: String,
    second_doc: String,
    memory: String,
    lint: Finding,
    test: Finding,
    changed: Vec<String>,
    at: usize,
    tool: Option<ToolRun>,
    reflection: Option<Reflection>,
}

impl View for Evolution {
    type V = EvolveState;

    closed spec fn view(&self) -> EvolveState {
        EvolveState {
            stage: self.stage,
            guide: self.guide@,
            memo_path: self.memo_path@,
            system: self.system@,
            iter: self.iter,
            turn: self.turn,
            talk: self.talk@,
            reply: self.reply@,
            improved: self.improved,
            done: self.done,
            summary: self.summary@,
            src: self.src@,
            first_doc: self.first_doc@,
            second_doc: self.second_doc@,
            memory: self.memory@,
            lint: self.lint@,
            test: self.test@,
            changed: texts(self.changed@),
            at: self.at as nat,
            tool: tool_view(self.tool),
            reflection: reflection_view(self.reflection),
        }
    }
}

/// What comes next in evolution.
pub enum EvolveStep {
    /// It is over.
    Over,
    /// It takes an effect, whose answer is handed to `step`.
    Act(Evolution, Effect),
}

impl View for EvolveStep {
    type V = EvolveStepView;

    open spec fn view(&self) -> EvolveStepView {
        match self {
            EvolveStep::Over => EvolveStepView::Over,
            EvolveStep::Act(run, effect) => EvolveStepView::Act(run@, effect@),
        }
    }
}

/// Begins to evolve at the time `ts`, with the document that guides coding agents.
pub fn evolve_mode(ts: u64, guide: &str) -> (r: (Evolution, Effect))
    ensures
        r.0@ == evolve_start(ts, guide@),
        r.1@ == (EffectView::MakeDir { path: ".evo/memos"@ }),
{
    let mut memo_path = ".evo/memos/".to_owned();
    memo_path.append(show(ts).as_str());
    memo_path.append(".md");
    let run = Evolution {
        stage: EvolveStage::Folder,
        guide: guide.to_owned(),
        memo_path,
        system: String::new(),
        iter: 0,
        turn: 0,
        talk: Talk::new(),
        reply: String::new(),
        improved: false,
        done: false,
        summary: String::new(),
        src: String::new(),
        first_doc: String::new(),
        second_doc: String::new(),
        memory: String::new(),
        lint: Finding { ok: false, out: String::new() },
        test: Finding { ok: false, out: String::new() },
        changed: Vec::new(),
        at: 0,
        tool: None,
        reflection: None,
    };
    assert(texts(run.changed@) =~= Seq::<Seq<char>>::empty());
    (run, Effect::MakeDir { path: ".evo/memos".to_owned() })
}

impl Evolution {
    /// Takes an effect at the given stage.
    fn act(self, stage: EvolveStage, effect: Effect) -> (r: EvolveStep)
        ensures
            r@ == evolve_at(self@, stage, effect@),
    {
        let mut run = self;
        run.stage = stage;
        EvolveStep::Act(run, effect)
    }

    /// Logs an entry at the given stage.
    fn log(self, stage: EvolveStage, kind: &str, fields: Fields) -> (r: EvolveStep)
        ensures
            r@ == evolve_logs(self@, stage, kind@, fields@),
    {
        self.act(stage, Effect::Log { kind: kind.to_owned(), data: LogData::Fields(fields) })
    }

    /// Tells the user something at the given stage.
    fn tell(self, stage: EvolveStage, text: String) -> (r: EvolveStep)
        ensures
            r@ == evolve_tells(self@, stage, text@),
    {
        self.act(stage, Effect::Notify { text })
    }

    /// The field that counts the iterations.
    fn iter_fields(&self) -> (r: Fields)
        ensures
            r@ == iter_field(self@),
    {
        Fields::new().count("iter", self.iter)
    }

    /// Begins an iteration.
    fn begin_iteration(self) -> (r: EvolveStep)
        ensures
            r@ == begin_iter(self@),
    {
        let mut run = self;
        run.iter = next_count(run.iter);
        run.turn = 0;
        run.improved = false;
        run.done = false;
        run.summary = String::new();
        let fields = run.iter_fields();
        run.log(EvolveStage::IterStarted, "iter_start", fields)
    }

    /// Goes on with reflection.
    fn look_back(self, step: ReflectStep) -> (r: EvolveStep)
        ensures
            r@ == evolve_reflects(self@, step@),
    {
        let mut run = self;
        match step {
            ReflectStep::Act(reflection, effect) => {
                run.stage = EvolveStage::Reflecting;
                run.reflection = Some(reflection);
                EvolveStep::Act(run, effect)
            },
            ReflectStep::Over => {
                run.stage = EvolveStage::Sources;
                run.reflection = None;
                EvolveStep::Act(run, Effect::ReadTexts { paths: sources() })
            },
        }
    }

    /// Asks the model at the given stage.
    fn ask(self, stage: EvolveStage) -> (r: EvolveStep)
        ensures
            r@ == evolve_asks(self@, stage),
    {
        let mut run = self;
        let effect = Effect::Ask { talk: run.talk.copy(), system: run.system.clone() };
        run.stage = stage;
        run.turn = next_count(run.turn);
        EvolveStep::Act(run, effect)
    }

    /// Ends an iteration.
    fn end_iteration(self) -> (r: EvolveStep)
        ensures
            r@ == end_iter(self@),
    {
        let fields = self.iter_fields().flag("improved", self.improved);
        self.log(EvolveStage::IterEnded, "iter_end", fields)
    }

    /// Goes on after an iteration.
    fn after_iteration(self) -> (r: EvolveStep)
        ensures
            r@ == after_iter(self@),
    {
        if self.done {
            self.log(EvolveStage::Ended, "evolve_end", Fields::new())
        } else {
            self.begin_iteration()
        }
    }

    /// Goes on after a tool has answered.
    fn hear(self, answer: String) -> (r: EvolveStep)
        ensures
            r@ == evolve_hears(self@, answer@),
    {
        let mut run = self;
        run.talk.say("user", answer.as_str());
        match run.stage {
            EvolveStage::RefineTool => run.ask(EvolveStage::RefineAsking),
            EvolveStage::DocTool => run.ask(EvolveStage::DocAsking),
            _ => {
                if has(answer.as_str(), "verified OK") || has(answer.as_str(), "written ") {
                    run.improved = true;
                    run.end_iteration()
                } else {
                    run.ask(EvolveStage::Asking)
                }
            },
        }
    }

    /// Goes on with a tool call.
    fn use_tool(self, stage: EvolveStage, step: ToolStep) -> (r: EvolveStep)
        ensures
            r@ == evolve_tool(self@, stage, step@),
    {
        let mut run = self;
        run.stage = stage;
        match step {
            ToolStep::Act(tool, effect) => {
                run.tool = Some(tool);
                EvolveStep::Act(run, effect)
            },
            ToolStep::Reply(answer) => {
                run.tool = None;
                run.hear(answer)
            },
        }
    }

    /// Goes on with the tool call that is under way.
    fn go_on(self, stage: EvolveStage, event: Event) -> (r: EvolveStep)
        requires
            self@.tool matches Some(tool) && event@.kind() == tool.stage.awaits(),
        ensures
            r@ == evolve_tool(self@, stage, tool_next(self@.tool->0, event@)),
    {
        let mut run = self;
        match run.tool.take() {
            Some(tool) => run.use_tool(stage, tool.step(event)),
            None => EvolveStep::Over,
        }
    }

    /// Begins the last check.
    fn begin_last_check(self) -> (r: EvolveStep)
        ensures
            r@ == begin_final(self@),
    {
        self.tell(EvolveStage::FinalTold, "Running final lint and tests...".to_owned())
    }

    /// Comes to the end.
    fn end(self) -> (r: EvolveStep)
        ensures
            r@ == finish(self@),
    {
        let mut text = "Evolution memo: ".to_owned();
        text.append(self.memo_path.as_str());
        self.tell(EvolveStage::MemoTold, text)
    }

    /// The last check found that all is well.
    fn has_passed(&self) -> (r: bool)
        ensures
            r == passed(self@),
    {
        self.lint.ok && self.test.ok
    }

    /// Goes on to the next changed file, or to the documents, or to the end.
    fn next_changed(self) -> (r: EvolveStep)
        ensures
            r@ == next_backup(self@),
    {
        if self.at < self.changed.len() {
            let path = self.changed[self.at].clone();
            self.act(EvolveStage::Checking, Effect::Exists { path })
        } else if self.has_passed() {
            let mut paths: Vec<String> = Vec::new();
            paths.push(SELF_PATH.to_owned());
            paths.push(self.guide.clone());
            paths.push("README.md".to_owned());
            assert(texts(paths@) =~= seq![SELF_PATH@, self@.guide, "README.md"@]);
            self.act(EvolveStage::DocSources, Effect::ReadTexts { paths })
        } else {
            self.end()
        }
    }

    /// Goes on after the reply to the question for a change was logged.
    fn propose(self) -> (r: EvolveStep)
        ensures
            r@ == proposed(self@),
    {
        let mut run = self;
        if reply_says(run.reply.as_str(), "SKIP") {
            run.done = true;
            let fields = run.iter_fields().text("reason", "LLM chose not to evolve");
            return run.log(EvolveStage::SkipLogged, "iter_skip", fields);
        }
        if run.summary.as_str().unicode_len() == 0 {
            let line = line_one(run.reply.as_str());
            run.summary = first_chars(line.as_str(), CHANGE_LIMIT).to_owned();
        }
        let reply = run.reply.clone();
        run.talk.say("assistant", reply.as_str());
        let guide = run.guide.clone();
        match run_tool(reply.as_str(), Some(guide.as_str()), None) {
            Some(step) => run.use_tool(EvolveStage::Tool, step),
            None => run.end_iteration(),
        }
    }

    /// Goes on after the model was asked for a change.
    fn answered(self, reply: Result<String, String>) -> (r: EvolveStep)
        requires
            self@.stage == EvolveStage::Asking,
        ensures
            r@ == iterate_next(self@, EventView::Reply(result_view(reply))),
    {
        let mut run = self;
        match reply {
            Ok(reply) => {
                let fields = run.iter_fields().count("turn", run.turn).text(
                    "preview",
                    preview_of(reply.as_str()),
                );
                run.reply = reply;
                run.log(EvolveStage::Replied, "llm_response", fields)
            },
            Err(e) => {
                let mut text = "LLM error: ".to_owned();
                text.append(e.as_str());
                run.tell(EvolveStage::AskFailed, text)
            },
        }
    }

    /// Goes on after the model was asked for fixes.
    fn refine(self, reply: Result<String, String>) -> (r: EvolveStep)
        ensures
            r@ == refined(self@, result_view(reply)),
    {
        let mut run = self;
        match reply {
            Ok(reply) => {
                run.talk.say("assistant", reply.as_str());
                if reply_says(reply.as_str(), "SKIP") {
                    return run.begin_last_check();
                }
                let guide = run.guide.clone();
                match run_tool(reply.as_str(), Some(guide.as_str()), None) {
                    Some(step) => run.use_tool(EvolveStage::RefineTool, step),
                    None => run.begin_last_check(),
                }
            },
            Err(e) => {
                let mut text = "Refine LLM error: ".to_owned();
                text.append(e.as_str());
                run.tell(EvolveStage::RefineFailed, text)
            },
        }
    }

    /// Goes on after the model was asked to update the documents.
    fn document(self, reply: Result<String, String>) -> (r: EvolveStep)
        ensures
            r@ == documented(self@, result_view(reply)),
    {
        let mut run = self;
        match reply {
            Ok(reply) => {
                run.talk.say("assistant", reply.as_str());
                let guide = run.guide.clone();
                match run_tool(reply.as_str(), Some(guide.as_str()), None) {
                    Some(step) => run.use_tool(EvolveStage::DocTool, step),
                    None => run.end(),
                }
            },
            Err(e) => {
                let mut text = "Doc update LLM error: ".to_owned();
                text.append(e.as_str());
                run.tell(EvolveStage::DocFailed, text)
            },
        }
    }

    /// Asks for a change, once the memo was read.
    fn ask_change(self, read: Result<String, String>) -> (r: EvolveStep)
        requires
            self@.stage == EvolveStage::Memo,
        ensures
            r@ == iterate_next(self@, EventView::Text(result_view(read))),
    {
        let mut run = self;
        let changelog = match read {
            Ok(text) => text,
            Err(_) => "(none yet this run)".to_owned(),
        };
        let content = show_proposal(
            changelog.as_str(),
            run.second_doc.as_str(),
            run.first_doc.as_str(),
            run.memory.as_str(),
            run.src.as_str(),
        );
        run.talk = Talk::opening(content.as_str());
        run.ask(EvolveStage::Asking)
    }

    /// Goes on with the iterations.
    fn iterate(self, event: Event) -> (r: EvolveStep)
        requires
            event@.kind() == evolve_awaits(self@),
            self@.stage.phase() == Phase::Iterate,
        ensures
            r@ == iterate_next(self@, event@),
    {
        let mut run = self;
        match run.stage {
            EvolveStage::Folder => run.act(
                EvolveStage::System,
                Effect::ReadText { path: prompt_file("evolve_system.txt") },
            ),
            EvolveStage::System => {
                if let Event::Text(read) = event {
                    run.system = text_or_empty(read);
                }
                run.log(EvolveStage::Started, "evolve_start", Fields::new())
            },
            EvolveStage::Started => run.begin_iteration(),
            EvolveStage::IterStarted => {
                let (reflection, effect) = reflect();
                run.look_back(ReflectStep::Act(reflection, effect))
            },
            EvolveStage::Reflecting => {
                match run.reflection.take() {
                    Some(reflection) => run.look_back(reflection.step(event)),
                    None => EvolveStep::Over,
                }
            },
            EvolveStage::Sources => {
                if let Event::Texts(read) = event {
                    run.src = text_of(&read, 0);
                    run.first_doc = text_of(&read, 1);
                    run.second_doc = show_prompts(&read);
                }
                run.act(EvolveStage::Memory, Effect::ReadMemory)
            },
            EvolveStage::Memory => {
                if let Event::Memory(files) = event {
                    run.memory = memory_index(&files);
                }
                let path = run.memo_path.clone();
                run.act(EvolveStage::Memo, Effect::ReadText { path })
            },
            EvolveStage::Memo => {
                match event {
                    Event::Text(read) => run.ask_change(read),
                    _ => EvolveStep::Over,
                }
            },
            EvolveStage::Asking => {
                match event {
                    Event::Reply(reply) => run.answered(reply),
                    _ => EvolveStep::Over,
                }
            },
            EvolveStage::AskFailed => run.end_iteration(),
            EvolveStage::Replied => run.propose(),
            EvolveStage::SkipLogged => {
                let mut text = "Iter ".to_owned();
                text.append(show(run.iter).as_str());
                text.append(": SKIP — evolution complete.");
                run.tell(EvolveStage::SkipTold, text)
            },
            EvolveStage::SkipTold => run.end_iteration(),
            EvolveStage::Tool => run.go_on(EvolveStage::Tool, event),
            EvolveStage::IterEnded => {
                if run.improved {
                    let path = run.memo_path.clone();
                    let text = memo_entry(run.iter, run.summary.as_str());
                    run.act(EvolveStage::Noted, Effect::AppendText { path, text })
                } else {
                    run.after_iteration()
                }
            },
            EvolveStage::Noted => {
                let mut text = "Iter ".to_owned();
                text.append(show(run.iter).as_str());
                text.append(": improved.");
                run.tell(EvolveStage::NoteTold, text)
            },
            _ => run.after_iteration(),
        }
    }

    /// Goes on while the changes are checked.
    fn check(self, event: Event) -> (r: EvolveStep)
        requires
            event@.kind() == evolve_awaits(self@),
            self@.stage.phase() == Phase::Check,
        ensures
            r@ == check_next(self@, event@),
    {
        let mut run = self;
        match run.stage {
            EvolveStage::Ended => run.tell(
                EvolveStage::CheckTold,
                "Refine: running lint and tests...".to_owned(),
            ),
            EvolveStage::CheckTold => run.act(EvolveStage::Lint, Effect::Lint),
            EvolveStage::Lint => {
                if let Event::Output(out) = event {
                    run.lint = judge_lint(&out);
                }
                run.act(EvolveStage::Test, Effect::Test)
            },
            EvolveStage::Test => {
                if let Event::Output(out) = event {
                    run.test = judge_tests(&out);
                }
                if run.has_passed() {
                    run.begin_last_check()
                } else {
                    run.tell(
                        EvolveStage::IssuesTold,
                        "Refine: issues found, asking LLM to fix...".to_owned(),
                    )
                }
            },
            EvolveStage::IssuesTold => {
                let content = show_issues(&run.lint, &run.test);
                run.talk = Talk::opening(content.as_str());
                run.ask(EvolveStage::RefineAsking)
            },
            EvolveStage::RefineAsking => {
                match event {
                    Event::Reply(reply) => run.refine(reply),
                    _ => EvolveStep::Over,
                }
            },
            EvolveStage::RefineFailed => run.begin_last_check(),
            EvolveStage::RefineTool => run.go_on(EvolveStage::RefineTool, event),
            EvolveStage::FinalTold => run.act(EvolveStage::FinalLint, Effect::Lint),
            EvolveStage::FinalLint => {
                if let Event::Output(out) = event {
                    run.lint = judge_lint(&out);
                }
                run.act(EvolveStage::FinalTest, Effect::Test)
            },
            EvolveStage::FinalTest => {
                if let Event::Output(out) = event {
                    run.test = judge_tests(&out);
                }
                let fields = Fields::new().flag("ok", run.lint.ok).text(
                    "output",
                    run.lint.out.as_str(),
                );
                run.log(EvolveStage::LintLogged, "lint_result", fields)
            },
            EvolveStage::LintLogged => {
                let fields = Fields::new().flag("ok", run.test.ok).text(
                    "output",
                    run.test.out.as_str(),
                );
                run.log(EvolveStage::TestLogged, "test_result", fields)
            },
            EvolveStage::TestLogged => {
                let text = show_verdict("Lint", &run.lint);
                run.tell(EvolveStage::LintTold, text)
            },
            EvolveStage::LintTold => {
                let text = show_verdict("Tests", &run.test);
                run.tell(EvolveStage::TestTold, text)
            },
            EvolveStage::TestTold => {
                if run.has_passed() {
                    run.act(EvolveStage::Changed, Effect::ListChanged)
                } else {
                    run.tell(
                        EvolveStage::Warned,
                        "WARNING: evolved binary still has lint/test failures after refine.".to_owned(),
                    )
                }
            },
            _ => run.act(EvolveStage::Changed, Effect::ListChanged),
        }
    }

    /// Goes on while changed files are backed up and the documents updated.
    fn close(self, event: Event) -> (r: EvolveStep)
        requires
            event@.kind() == evolve_awaits(self@),
            self@.stage.phase() == Phase::Close,
            self@.ready(),
        ensures
            r@ == close_next(self@, event@),
    {
        let mut run = self;
        assert(texts(run.changed@).len() == run.changed.len());
        match run.stage {
            EvolveStage::Changed => {
                if let Event::Output(listing) = event {
                    run.changed = changed_files(&listing);
                }
                run.at = 0;
                run.next_changed()
            },
            EvolveStage::Checking => {
                if let Event::Flag(there) = event {
                    if there {
                        let path = run.changed[run.at].clone();
                        return run.act(EvolveStage::BackingUp, Effect::Backup { path });
                    }
                }
                run.at = run.at + 1;
                run.next_changed()
            },
            EvolveStage::BackingUp => {
                run.at = run.at + 1;
                run.next_changed()
            },
            EvolveStage::DocSources => {
                if let Event::Texts(read) = event {
                    run.src = text_of(&read, 0);
                    run.first_doc = text_of(&read, 1);
                    run.second_doc = text_of(&read, 2);
                }
                run.act(
                    EvolveStage::DocSystem,
                    Effect::ReadText { path: prompt_file("doc_system.txt") },
                )
            },
            EvolveStage::DocSystem => {
                if let Event::Text(read) = event {
                    run.system = text_or_empty(read);
                }
                let content = show_documents(
                    run.src.as_str(),
                    run.guide.as_str(),
                    run.first_doc.as_str(),
                    run.second_doc.as_str(),
                );
                run.talk = Talk::opening(content.as_str());
                run.ask(EvolveStage::DocAsking)
            },
            EvolveStage::DocAsking => {
                match event {
                    Event::Reply(reply) => run.document(reply),
                    _ => EvolveStep::Over,
                }
            },
            EvolveStage::DocFailed => run.end(),
            EvolveStage::DocTool => run.go_on(EvolveStage::DocTool, event),
            _ => EvolveStep::Over,
        }
    }
}

impl Evolution {
    /// The kind of answer that evolution waits for.
    pub fn awaits(&self) -> (k: Kind)
        ensures
            k == evolve_awaits(self@),
    {
        match self.stage {
            EvolveStage::System | EvolveStage::Memo | EvolveStage::DocSystem => Kind::Text,
            EvolveStage::Reflecting => match &self.reflection {
                Some(run) => run.awaits(),
                None => Kind::Nothing,
            },
            EvolveStage::Sources | EvolveStage::DocSources => Kind::Texts,
            EvolveStage::Memory => Kind::Memory,
            EvolveStage::Asking | EvolveStage::RefineAsking | EvolveStage::DocAsking => Kind::Reply,
            EvolveStage::Tool | EvolveStage::RefineTool | EvolveStage::DocTool => match &self.tool {
                Some(run) => run.awaits(),
                None => Kind::Nothing,
            },
            EvolveStage::Lint | EvolveStage::Test | EvolveStage::FinalLint
            | EvolveStage::FinalTest | EvolveStage::Changed => Kind::Output,
            EvolveStage::Checking => Kind::Flag,
            _ => Kind::Done,
        }
    }

    /// The phase of the stage.
    fn phase(&self) -> (r: Phase)
        ensures
            r == self@.stage.phase(),
    {
        match self.stage {
            EvolveStage::Folder | EvolveStage::System | EvolveStage::Started
            | EvolveStage::IterStarted | EvolveStage::Reflecting | EvolveStage::Sources
            | EvolveStage::Memory | EvolveStage::Memo | EvolveStage::Asking
            | EvolveStage::AskFailed | EvolveStage::Replied | EvolveStage::SkipLogged
            | EvolveStage::SkipTold | EvolveStage::Tool | EvolveStage::IterEnded
            | EvolveStage::Noted | EvolveStage::NoteTold => Phase::Iterate,
            EvolveStage::Ended | EvolveStage::CheckTold | EvolveStage::Lint | EvolveStage::Test
            | EvolveStage::IssuesTold | EvolveStage::RefineAsking | EvolveStage::RefineFailed
            | EvolveStage::RefineTool | EvolveStage::FinalTold | EvolveStage::FinalLint
            | EvolveStage::FinalTest | EvolveStage::LintLogged | EvolveStage::TestLogged
            | EvolveStage::LintTold | EvolveStage::TestTold | EvolveStage::Warned => Phase::Check,
            _ => Phase::Close,
        }
    }

    /// Goes on with the answer to the last effect.
    pub fn step(self, event: Event) -> (r: EvolveStep)
        requires
            self@.ready(),
            event@.kind() == evolve_awaits(self@),
        ensures
            r@ == evolve_next(self@, event@),
            evolve_ready(r@),
    {
        proof {
            lemma_ready(self@, event@);
            reveal(evolve_next);
        }
        match self.phase() {
            Phase::Iterate => self.iterate(event),
            Phase::Check => self.check(event),
            Phase::Close => self.close(event),
        }
    }
}

} // verus!
