//! Reflection: the model looks back on the sessions that it has not looked back on yet.

use crate::effect::{result_view, Effect, EffectView, Event, EventView, Kind, LogData, Said, Talk};
use crate::json::Tree;
use crate::number::{
    decimal, law_decimal_reads_back, lemma_all_digits, number, read_u64, show,
};
use crate::paths::{prompt_file, log_path, prompt_path, session_log, SESSIONS_PATH};
use crate::run::{or_empty, text_or_empty, wrapped};
use crate::text::{lemma_texts_push, same, texts, trim, trimmed};
use crate::tool::{
    excerpt, extract_tool, parse_path_range, path_range, range_view, show_excerpt, tool_call,
};
use crate::trajectory::{summarize, summary};
use vstd::prelude::*;
use vstd::string::*;

verus! {

/// The file that tells which session was looked back on last.
pub const WATERMARK_PATH: &'static str = ".evo/learned_until.txt";

/// Where reflection stands.
#[derive(PartialEq, Eq, Structural, Clone, Copy, Debug)]
pub enum ReflectStage {
    /// The watermark is read.
    Watermark,
    /// The sessions are listed.
    Listing,
    /// The user is told that there is nothing new.
    Nothing,
    /// The system prompt is read.
    Prompt,
    /// The log of a session is read.
    Session,
    /// The model is asked.
    Asking,
    /// A file that the model wants to see is read.
    Reading,
    /// The user is told that the model could not be asked.
    Failed,
    /// The user is told what the model suggests.
    Telling,
    /// The suggestion is logged.
    Logging,
    /// The folder of the watermark is made.
    Folder,
    /// The watermark is written.
    Marking,
}

/// The state of reflection.
#[verifier::ext_equal]
pub struct ReflectState {
    pub stage: ReflectStage,
    pub watermark: u64,
    pub system: Seq<char>,
    /// The sessions to look back on, by the names of their folders.
    pub sessions: Seq<Seq<char>>,
    /// The position of the session that comes next.
    pub at: nat,
    /// The time of the session under way.
    pub ts: u64,
    pub talk: Seq<Said>,
    /// The file that the model wants to see, and the range of it.
    pub path: Seq<char>,
    pub range: Option<(nat, nat)>,
    pub suggestion: Seq<char>,
}

/// What comes next in reflection: it is over, or takes an effect.
#[verifier::ext_equal]
pub enum ReflectStepView {
    Over,
    Act(ReflectState, EffectView),
}

/// The time at which a session began, by the name of its folder.
pub open spec fn session_time(name: Seq<char>) -> Option<nat> {
    number(name, u64::MAX as nat)
}

/// The time that the watermark tells, zero where it tells none.
pub open spec fn watermark_of(read: Result<Seq<char>, Seq<char>>) -> u64 {
    match read {
        Ok(text) => match number(trimmed(text), u64::MAX as nat) {
            Some(n) => n as u64,
            None => 0,
        },
        Err(_) => 0,
    }
}

/// A session that began after the watermark.
pub open spec fn is_new(name: Seq<char>, watermark: u64) -> bool {
    session_time(name) matches Some(t) && t > watermark
}

/// The sessions among `names` that began after the watermark.
pub open spec fn unseen(names: Seq<Seq<char>>, watermark: u64) -> Seq<Seq<char>> {
    names.filter(|name: Seq<char>| is_new(name, watermark))
}

/// What the model is asked about a session.
pub open spec fn question(ts: u64, raw: Seq<char>, path: Seq<char>) -> Seq<char> {
    "Session "@ + decimal(ts as nat) + " summary (stripped):\n"@ + summary(raw)
        + "\n\nFull traj at: "@ + path + "\nUse <tool name=\"read_file\">"@ + path
        + "</tool> if you need more detail.\n\nWhat is the single most important improvement?"@
}

/// The state in which reflection starts.
pub open spec fn reflect_start() -> ReflectState {
    ReflectState {
        stage: ReflectStage::Watermark,
        watermark: 0,
        system: seq![],
        sessions: seq![],
        at: 0,
        ts: 0,
        talk: seq![],
        path: seq![],
        range: None,
        suggestion: seq![],
    }
}

/// Reflection takes an effect at the given stage.
pub open spec fn reflect_at(s: ReflectState, stage: ReflectStage, effect: EffectView) -> ReflectStepView {
    ReflectStepView::Act(ReflectState { stage, ..s }, effect)
}

/// The next session has its turn, or none is left.
pub open spec fn next_session(s: ReflectState) -> ReflectStepView {
    if s.at < s.sessions.len() {
        let name = s.sessions[s.at as int];
        ReflectStepView::Act(
            ReflectState {
                stage: ReflectStage::Session,
                at: s.at + 1,
                ts: match session_time(name) {
                    Some(t) => t as u64,
                    None => 0,
                },
                path: log_path(name),
                ..s
            },
            EffectView::ReadText { path: log_path(name) },
        )
    } else {
        ReflectStepView::Over
    }
}

/// The model is asked.
pub open spec fn reflect_asks(s: ReflectState) -> ReflectStepView {
    reflect_at(s, ReflectStage::Asking, EffectView::Ask { talk: s.talk, system: s.system })
}

/// The model has replied: it wants to see a file, suggests something, or says nothing.
pub open spec fn reflect_hears(s: ReflectState, reply: Seq<char>) -> ReflectStepView {
    let told = ReflectState {
        talk: s.talk.push(Said { role: "assistant"@, content: reply }),
        ..s
    };
    match tool_call(reply) {
        Some((name, body)) if name == "read_file"@ => {
            let (path, range) = path_range(trimmed(body));
            reflect_at(
                ReflectState { path, range, ..told },
                ReflectStage::Reading,
                EffectView::ReadText { path: trimmed(path) },
            )
        },
        _ => if reply.len() == 0 {
            next_session(told)
        } else {
            reflect_at(
                ReflectState { suggestion: reply, ..told },
                ReflectStage::Telling,
                EffectView::Notify {
                    text: "Reflection ["@ + decimal(s.ts as nat) + "]: "@ + reply,
                },
            )
        },
    }
}

/// What the model gets to see of a file.
pub open spec fn seen(path: Seq<char>, range: Option<(nat, nat)>, read: Result<Seq<char>, Seq<char>>) -> Seq<char> {
    wrapped(
        match read {
            Ok(text) => excerpt(path, text, range),
            Err(e) => "ERROR: "@ + e,
        },
    )
}

impl ReflectStage {
    /// The kind of answer that a stage waits for.
    pub open spec fn awaits(self) -> Kind {
        match self {
            ReflectStage::Watermark => Kind::Text,
            ReflectStage::Listing => Kind::Names,
            ReflectStage::Nothing => Kind::Done,
            ReflectStage::Prompt => Kind::Text,
            ReflectStage::Session => Kind::Text,
            ReflectStage::Asking => Kind::Reply,
            ReflectStage::Reading => Kind::Text,
            ReflectStage::Failed => Kind::Done,
            ReflectStage::Telling => Kind::Done,
            ReflectStage::Logging => Kind::Done,
            ReflectStage::Folder => Kind::Done,
            ReflectStage::Marking => Kind::Done,
        }
    }
}

/// What comes next once the outside has answered.
pub open spec fn reflect_next(s: ReflectState, event: EventView) -> ReflectStepView {
    match s.stage {
        ReflectStage::Watermark => reflect_at(
            ReflectState { watermark: watermark_of(event->Text_0), ..s },
            ReflectStage::Listing,
            EffectView::ListDir { path: SESSIONS_PATH@ },
        ),
        ReflectStage::Listing => {
            let sessions = unseen(event->Names_0, s.watermark);
            if sessions.len() == 0 {
                reflect_at(
                    s,
                    ReflectStage::Nothing,
                    EffectView::Notify { text: "No new sessions to reflect on."@ },
                )
            } else {
                reflect_at(
                    ReflectState { sessions, at: 0, ..s },
                    ReflectStage::Prompt,
                    EffectView::ReadText { path: prompt_path("reflect_system.txt"@) },
                )
            }
        },
        ReflectStage::Nothing => ReflectStepView::Over,
        ReflectStage::Prompt => next_session(
            ReflectState { system: or_empty(event->Text_0), ..s },
        ),
        ReflectStage::Session => reflect_asks(
            ReflectState {
                talk: seq![
                    Said {
                        role: "user"@,
                        content: question(s.ts, or_empty(event->Text_0), s.path),
                    },
                ],
                ..s
            },
        ),
        ReflectStage::Asking => match event->Reply_0 {
            Ok(reply) => reflect_hears(s, reply),
            Err(e) => reflect_at(
                s,
                ReflectStage::Failed,
                EffectView::Notify {
                    text: "Reflection LLM error ["@ + decimal(s.ts as nat) + "]: "@ + e,
                },
            ),
        },
        ReflectStage::Reading => reflect_asks(
            ReflectState {
                talk: s.talk.push(
                    Said { role: "user"@, content: seen(s.path, s.range, event->Text_0) },
                ),
                ..s
            },
        ),
        ReflectStage::Failed => next_session(s),
        ReflectStage::Telling => reflect_at(
            s,
            ReflectStage::Logging,
            EffectView::Log { kind: "reflect_result"@, data: Tree::Text(s.suggestion) },
        ),
        ReflectStage::Logging => reflect_at(
            s,
            ReflectStage::Folder,
            EffectView::MakeDir { path: ".evo"@ },
        ),
        ReflectStage::Folder => reflect_at(
            s,
            ReflectStage::Marking,
            EffectView::WriteText { path: WATERMARK_PATH@, text: decimal(s.ts as nat) },
        ),
        ReflectStage::Marking => next_session(s),
    }
}

/// Where reflection stands after the outside has answered with `events`.
pub open spec fn reflect_after(events: Seq<EventView>) -> ReflectStepView
    decreases events.len(),
{
    if events.len() == 0 {
        ReflectStepView::Act(reflect_start(), EffectView::ReadText { path: WATERMARK_PATH@ })
    } else {
        match reflect_after(events.drop_last()) {
            ReflectStepView::Over => ReflectStepView::Over,
            ReflectStepView::Act(s, _) => reflect_next(s, events.last()),
        }
    }
}

/// The answer that reflection waits for is the one that its last effect gets.
pub proof fn lemma_reflection_fits(s: ReflectState, event: EventView)
    ensures
        match reflect_next(s, event) {
            ReflectStepView::Over => true,
            ReflectStepView::Act(next, effect) => next.stage.awaits() == effect.answer(),
        },
{
}

/// Whoever carries out each effect of reflection and hands back its answer can always go on.
pub proof fn law_reflection_answers_fit(events: Seq<EventView>)
    ensures
        match reflect_after(events) {
            ReflectStepView::Over => true,
            ReflectStepView::Act(s, effect) => s.stage.awaits() == effect.answer(),
        },
{
}

/// Everything that reflection has still to look back on began after the watermark.
pub open spec fn looks_forward(s: ReflectState) -> bool {
    &&& forall|i: int| 0 <= i < s.sessions.len() ==> is_new(#[trigger] s.sessions[i], s.watermark)
    &&& match s.stage {
        ReflectStage::Watermark => s.sessions.len() == 0,
        ReflectStage::Listing | ReflectStage::Nothing | ReflectStage::Prompt => true,
        _ => s.ts > s.watermark,
    }
}

/// An effect that changes nothing but the watermark, which it moves beyond `watermark`.
pub open spec fn marks_beyond(effect: EffectView, watermark: u64) -> bool {
    match effect {
        EffectView::WriteText { path, text } => path == WATERMARK_PATH@ && exists|ts: u64|
            ts > watermark && text == #[trigger] decimal(ts as nat),
        EffectView::MakeDir { path } => path == ".evo"@,
        EffectView::Log { .. } => true,
        EffectView::ReadText { .. } => true,
        EffectView::ListDir { .. } => true,
        EffectView::Ask { .. } => true,
        EffectView::Notify { .. } => true,
        _ => false,
    }
}

/// What `unseen` picks began after the watermark.
proof fn lemma_unseen(names: Seq<Seq<char>>, watermark: u64)
    ensures
        forall|i: int|
            0 <= i < unseen(names, watermark).len() ==> is_new(
                #[trigger] unseen(names, watermark)[i],
                watermark,
            ),
    decreases names.len(),
{
    reveal(Seq::filter);
    if names.len() > 0 {
        lemma_unseen(names.drop_last(), watermark);
    }
}

/// A name more adds itself where it is that of a new session.
proof fn lemma_unseen_push(names: Seq<Seq<char>>, name: Seq<char>, watermark: u64)
    ensures
        unseen(names.push(name), watermark) == if is_new(name, watermark) {
            unseen(names, watermark).push(name)
        } else {
            unseen(names, watermark)
        },
{
    reveal(Seq::filter);
    assert(names.push(name).drop_last() =~= names);
}

/// One step of reflection keeps to what lies beyond the watermark.
pub proof fn lemma_looks_forward(s: ReflectState, event: EventView)
    requires
        looks_forward(s),
    ensures
        match reflect_next(s, event) {
            ReflectStepView::Over => true,
            ReflectStepView::Act(next, effect) => looks_forward(next) && marks_beyond(
                effect,
                next.watermark,
            ) && (s.stage != ReflectStage::Watermark ==> next.watermark == s.watermark),
        },
{
    match s.stage {
        ReflectStage::Listing => {
            lemma_unseen(event->Names_0, s.watermark);
        },
        _ => {},
    }
    if s.at < s.sessions.len() {
        assert(is_new(s.sessions[s.at as int], s.watermark));
    }
}

proof fn lemma_reflection_marks(events: Seq<EventView>)
    ensures
        match reflect_after(events) {
            ReflectStepView::Over => true,
            ReflectStepView::Act(s, effect) => {
                &&& looks_forward(s)
                &&& marks_beyond(effect, s.watermark)
                &&& events.len() == 0 <==> s.stage == ReflectStage::Watermark
                &&& events.len() > 0 ==> s.watermark == watermark_of(events[0]->Text_0)
            },
        },
    decreases events.len(),
{
    if events.len() > 0 {
        let before = events.drop_last();
        lemma_reflection_marks(before);
        match reflect_after(before) {
            ReflectStepView::Over => {},
            ReflectStepView::Act(s, _) => {
                lemma_looks_forward(s, events.last());
                if before.len() > 0 {
                    assert(before[0] == events[0]);
                }
            },
        }
    }
}

/// Reflection changes no file but the watermark, and each watermark that it writes lies beyond
/// the one that it read, whatever the outside answers.
pub proof fn law_watermark_moves_on(events: Seq<EventView>)
    requires
        events.len() > 0,
    ensures
        match reflect_after(events) {
            ReflectStepView::Over => true,
            ReflectStepView::Act(s, effect) => marks_beyond(
                effect,
                watermark_of(events[0]->Text_0),
            ),
        },
{
    lemma_reflection_marks(events);
}

/// A watermark that is written is read back as the same time.
pub proof fn law_watermark_reads_back(ts: u64)
    ensures
        watermark_of(Ok(decimal(ts as nat))) == ts,
{
    lemma_all_digits(ts as nat);
    law_decimal_reads_back(ts as nat, u64::MAX as nat);
    assert(trimmed(decimal(ts as nat)) == decimal(ts as nat));
}

/// A session that was looked back on is not looked back on again: once its time is the
/// watermark, no list of sessions brings it back.
pub proof fn law_reflected_sessions_stay_reflected(names: Seq<Seq<char>>, name: Seq<char>, ts: u64)
    requires
        session_time(name) == Some(ts as nat),
    ensures
        !unseen(names, watermark_of(Ok(decimal(ts as nat)))).contains(name),
{
    law_watermark_reads_back(ts);
    lemma_unseen(names, ts);
}

/// A session that began after the watermark is found by the name that its time gives it.
pub proof fn law_new_sessions_are_found(names: Seq<Seq<char>>, ts: u64, watermark: u64)
    requires
        names.contains(decimal(ts as nat)),
        ts > watermark,
    ensures
        session_time(decimal(ts as nat)) == Some(ts as nat),
        unseen(names, watermark).contains(decimal(ts as nat)),
{
    law_decimal_reads_back(ts as nat, u64::MAX as nat);
    let name = decimal(ts as nat);
    let p = |name: Seq<char>| is_new(name, watermark);
    let i = choose|i: int| 0 <= i < names.len() && names[i] == name;
    assert(unseen(names, watermark) == names.filter(p));
    names.lemma_filter_contains(p, i);
}

/// Reflection under way.
pub struct Reflection {
    stage: ReflectStage,
    watermark: u64,
    system: String,
    sessions: Vec<String>,
    at: usize,
    ts: u64,
    talk: Talk,
    path: String,
    range: Option<(usize, usize)>,
    suggestion: String,
}

impl View for Reflection {
    type V = ReflectState;

    closed spec fn view(&self) -> ReflectState {
        ReflectState {
            stage: self.stage,
            watermark: self.watermark,
            system: self.system@,
            sessions: texts(self.sessions@),
            at: self.at as nat,
            ts: self.ts,
            talk: self.talk@,
            path: self.path@,
            range: range_view(self.range),
            suggestion: self.suggestion@,
        }
    }
}

/// What comes next in reflection.
pub enum ReflectStep {
    /// It is over.
    Over,
    /// It takes an effect, whose answer is handed to `step`.
    Act(Reflection, Effect),
}

impl View for ReflectStep {
    type V = ReflectStepView;

    open spec fn view(&self) -> ReflectStepView {
        match self {
            ReflectStep::Over => ReflectStepView::Over,
            ReflectStep::Act(run, effect) => ReflectStepView::Act(run@, effect@),
        }
    }
}

/// The time that the watermark tells.
pub fn read_watermark(read: &Result<String, String>) -> (r: u64)
    ensures
        r == watermark_of(result_view(*read)),
{
    match read {
        Ok(text) => match read_u64(trim(text.as_str())) {
            Some(n) => n,
            None => 0,
        },
        Err(_) => 0,
    }
}

/// The sessions among `names` that began after the watermark.
pub fn new_sessions(names: Vec<String>, watermark: u64) -> (r: Vec<String>)
    ensures
        texts(r@) == unseen(texts(names@), watermark),
{
    let mut r: Vec<String> = Vec::new();
    let mut i: usize = 0;
    proof {
        reveal(Seq::filter);
        assert(texts(names@).take(0) =~= Seq::<Seq<char>>::empty());
        assert(texts(r@) =~= Seq::<Seq<char>>::empty());
    }
    while i < names.len()
        invariant
            0 <= i <= names.len(),
            texts(r@) == unseen(texts(names@).take(i as int), watermark),
        decreases names.len() - i,
    {
        let name = names[i].clone();
        proof {
            lemma_unseen_push(texts(names@).take(i as int), name@, watermark);
            assert(texts(names@).take(i as int).push(name@) =~= texts(names@).take(i + 1));
            lemma_texts_push(r@, name);
        }
        if let Some(ts) = read_u64(name.as_str()) {
            if ts > watermark {
                r.push(name);
            }
        }
        i = i + 1;
    }
    assert(texts(names@).take(names.len() as int) =~= texts(names@));
    r
}

/// Begins to look back on the sessions that are new.
pub fn reflect() -> (r: (Reflection, Effect))
    ensures
        r.0@ == reflect_start(),
        r.1@ == (EffectView::ReadText { path: WATERMARK_PATH@ }),
{
    let run = Reflection {
        stage: ReflectStage::Watermark,
        watermark: 0,
        system: String::new(),
        sessions: Vec::new(),
        at: 0,
        ts: 0,
        talk: Talk::new(),
        path: String::new(),
        range: None,
        suggestion: String::new(),
    };
    assert(texts(run.sessions@) =~= Seq::<Seq<char>>::empty());
    (run, Effect::ReadText { path: WATERMARK_PATH.to_owned() })
}

/// What the model is asked about a session.
pub fn ask_about(ts: u64, raw: &str, path: &str) -> (r: String)
    ensures
        r@ == question(ts, raw@, path@),
{
    let mut r = "Session ".to_owned();
    r.append(show(ts).as_str());
    r.append(" summary (stripped):\n");
    r.append(summarize(raw).as_str());
    r.append("\n\nFull traj at: ");
    r.append(path);
    r.append("\nUse <tool name=\"read_file\">");
    r.append(path);
    r.append(
        "</tool> if you need more detail.\n\nWhat is the single most important improvement?",
    );
    r
}

impl Reflection {
    /// Takes an effect at the given stage.
    fn act(self, stage: ReflectStage, effect: Effect) -> (r: ReflectStep)
        ensures
            r@ == reflect_at(self@, stage, effect@),
    {
        let mut run = self;
        run.stage = stage;
        ReflectStep::Act(run, effect)
    }

    /// Goes on to the next session, if one is left.
    fn next(self) -> (r: ReflectStep)
        ensures
            r@ == next_session(self@),
    {
        if self.at < self.sessions.len() {
            let name = self.sessions[self.at].as_str();
            assert(name@ == texts(self.sessions@)[self.at as int]);
            let path = session_log(name);
            let ts: u64 = match read_u64(name) {
                Some(t) => t,
                None => 0,
            };
            let mut run = self;
            run.stage = ReflectStage::Session;
            run.at = run.at + 1;
            run.ts = ts;
            run.path = path.clone();
            ReflectStep::Act(run, Effect::ReadText { path })
        } else {
            ReflectStep::Over
        }
    }

    /// Asks the model.
    fn ask(self) -> (r: ReflectStep)
        ensures
            r@ == reflect_asks(self@),
    {
        let effect = Effect::Ask { talk: self.talk.copy(), system: self.system.clone() };
        self.act(ReflectStage::Asking, effect)
    }

    /// Goes on after the model has replied.
    fn hear(self, reply: String) -> (r: ReflectStep)
        ensures
            r@ == reflect_hears(self@, reply@),
    {
        let mut run = self;
        run.talk.say("assistant", reply.as_str());
        if let Some((name, body)) = extract_tool(reply.as_str()) {
            if same(name, "read_file") {
                let (path, range) = parse_path_range(trim(body));
                run.path = path.to_owned();
                run.range = range;
                return run.act(
                    ReflectStage::Reading,
                    Effect::ReadText { path: trim(path).to_owned() },
                );
            }
        }
        if reply.as_str().unicode_len() == 0 {
            run.next()
        } else {
            let mut text = "Reflection [".to_owned();
            text.append(show(run.ts).as_str());
            text.append("]: ");
            text.append(reply.as_str());
            run.suggestion = reply;
            run.act(ReflectStage::Telling, Effect::Notify { text })
        }
    }

    /// Shows the model what was read of a file.
    fn show(self, read: Result<String, String>) -> (r: ReflectStep)
        requires
            self@.stage == ReflectStage::Reading,
        ensures
            r@ == reflect_next(self@, EventView::Text(result_view(read))),
    {
        let mut run = self;
        let mut content = "<tool_result>".to_owned();
        match read {
            Ok(text) => {
                let shown = show_excerpt(run.path.as_str(), text.as_str(), run.range);
                content.append(shown.as_str());
            },
            Err(e) => {
                let mut shown = "ERROR: ".to_owned();
                shown.append(e.as_str());
                content.append(shown.as_str());
            },
        }
        content.append("</tool_result>");
        run.talk.say("user", content.as_str());
        run.ask()
    }

    /// Picks the sessions that are new.
    fn pick(self, names: Vec<String>) -> (r: ReflectStep)
        requires
            self@.stage == ReflectStage::Listing,
        ensures
            r@ == reflect_next(self@, EventView::Names(texts(names@))),
    {
        let mut run = self;
        let sessions = new_sessions(names, run.watermark);
        if sessions.len() == 0 {
            assert(texts(sessions@).len() == 0);
            run.act(
                ReflectStage::Nothing,
                Effect::Notify { text: "No new sessions to reflect on.".to_owned() },
            )
        } else {
            run.sessions = sessions;
            run.at = 0;
            run.act(
                ReflectStage::Prompt,
                Effect::ReadText { path: prompt_file("reflect_system.txt") },
            )
        }
    }

    /// The kind of answer that reflection waits for.
    pub fn awaits(&self) -> (k: Kind)
        ensures
            k == self@.stage.awaits(),
    {
        match self.stage {
            ReflectStage::Watermark => Kind::Text,
            ReflectStage::Listing => Kind::Names,
            ReflectStage::Nothing => Kind::Done,
            ReflectStage::Prompt => Kind::Text,
            ReflectStage::Session => Kind::Text,
            ReflectStage::Asking => Kind::Reply,
            ReflectStage::Reading => Kind::Text,
            ReflectStage::Failed => Kind::Done,
            ReflectStage::Telling => Kind::Done,
            ReflectStage::Logging => Kind::Done,
            ReflectStage::Folder => Kind::Done,
            ReflectStage::Marking => Kind::Done,
        }
    }

    /// Goes on with the answer to the last effect.
    pub fn step(self, event: Event) -> (r: ReflectStep)
        requires
            event@.kind() == self@.stage.awaits(),
        ensures
            r@ == reflect_next(self@, event@),
    {
        let mut run = self;
        match run.stage {
            ReflectStage::Watermark => {
                if let Event::Text(read) = event {
                    run.watermark = read_watermark(&read);
                    return run.act(
                        ReflectStage::Listing,
                        Effect::ListDir { path: SESSIONS_PATH.to_owned() },
                    );
                }
            },
            ReflectStage::Listing => {
                if let Event::Names(names) = event {
                    return run.pick(names);
                }
            },
            ReflectStage::Nothing => {},
            ReflectStage::Prompt => {
                if let Event::Text(read) = event {
                    run.system = text_or_empty(read);
                    return run.next();
                }
            },
            ReflectStage::Session => {
                if let Event::Text(read) = event {
                    let raw = text_or_empty(read);
                    let told = ask_about(run.ts, raw.as_str(), run.path.as_str());
                    run.talk = Talk::opening(told.as_str());
                    return run.ask();
                }
            },
            ReflectStage::Asking => {
                if let Event::Reply(reply) = event {
                    match reply {
                        Ok(reply) => {
                            return run.hear(reply);
                        },
                        Err(e) => {
                            let mut text = "Reflection LLM error [".to_owned();
                            text.append(show(run.ts).as_str());
                            text.append("]: ");
                            text.append(e.as_str());
                            return run.act(ReflectStage::Failed, Effect::Notify { text });
                        },
                    }
                }
            },
            ReflectStage::Reading => {
                if let Event::Text(read) = event {
                    return run.show(read);
                }
            },
            ReflectStage::Failed => {
                return run.next();
            },
            ReflectStage::Telling => {
                let data = LogData::Text(run.suggestion.clone());
                return run.act(
                    ReflectStage::Logging,
                    Effect::Log { kind: "reflect_result".to_owned(), data },
                );
            },
            ReflectStage::Logging => {
                return run.act(
                    ReflectStage::Folder,
                    Effect::MakeDir { path: ".evo".to_owned() },
                );
            },
            ReflectStage::Folder => {
                let text = show(run.ts);
                return run.act(
                    ReflectStage::Marking,
                    Effect::WriteText { path: WATERMARK_PATH.to_owned(), text },
                );
            },
            ReflectStage::Marking => {
                return run.next();
            },
        }
        ReflectStep::Over
    }
}

} // verus!
