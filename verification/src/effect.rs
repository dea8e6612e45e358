//! What the agent asks of the outside, what the outside answers, and the conversations it keeps.

use crate::agents::option_view;
use crate::json::Tree;
use crate::text::{first_chars, head, texts};
use vstd::prelude::*;
use vstd::string::*;

verus! {

/// A message as a conversation holds it.
#[verifier::ext_equal]
pub struct Said {
    pub role: Seq<char>,
    pub content: Seq<char>,
}

/// A message: who speaks, and what is said.
pub struct Msg {
    pub role: String,
    pub content: String,
}

impl View for Msg {
    type V = Said;

    open spec fn view(&self) -> Said {
        Said { role: self.role@, content: self.content@ }
    }
}

/// The last `n` messages, or all of them.
pub open spec fn latest(talk: Seq<Said>, n: int) -> Seq<Said> {
    if talk.len() <= n {
        talk
    } else {
        talk.skip(talk.len() - n)
    }
}

/// A conversation: messages in the order in which they were said.
pub struct Talk {
    msgs: Vec<Msg>,
}

impl View for Talk {
    type V = Seq<Said>;

    closed spec fn view(&self) -> Seq<Said> {
        Seq::new(self.msgs@.len(), |i: int| self.msgs@[i]@)
    }
}

impl Talk {
    /// A conversation in which nothing was said.
    pub fn new() -> (r: Talk)
        ensures
            r@ == Seq::<Said>::empty(),
    {
        let r = Talk { msgs: Vec::new() };
        assert(r@ =~= Seq::<Said>::empty());
        r
    }

    /// A conversation that the user opens.
    pub fn opening(content: &str) -> (r: Talk)
        ensures
            r@ == seq![Said { role: "user"@, content: content@ }],
    {
        let mut r = Talk::new();
        r.say("user", content);
        assert(r@ =~= seq![Said { role: "user"@, content: content@ }]);
        r
    }

    /// Adds a message at the end.
    pub fn say(&mut self, role: &str, content: &str)
        ensures
            final(self)@ == old(self)@.push(Said { role: role@, content: content@ }),
    {
        self.msgs.push(Msg { role: role.to_owned(), content: content.to_owned() });
        assert(self@ =~= old(self)@.push(Said { role: role@, content: content@ }));
    }

    /// The number of messages.
    pub fn len(&self) -> (n: usize)
        ensures
            n == self@.len(),
    {
        self.msgs.len()
    }

    /// The message at position `i`.
    pub fn get(&self, i: usize) -> (m: &Msg)
        requires
            i < self@.len(),
        ensures
            m@ == self@[i as int],
    {
        &self.msgs[i]
    }

    /// The last `n` messages, copied.
    pub fn recent(&self, n: usize) -> (r: Talk)
        ensures
            r@ == latest(self@, n as int),
    {
        let total = self.msgs.len();
        let start: usize = if total <= n {
            0
        } else {
            total - n
        };
        let mut r = Talk::new();
        let mut i: usize = start;
        while i < total
            invariant
                start <= i <= total,
                total == self.msgs.len(),
                r@ == self@.subrange(start as int, i as int),
            decreases total - i,
        {
            let m = &self.msgs[i];
            assert(m@ == self@[i as int]);
            r.say(m.role.as_str(), m.content.as_str());
            assert(self@.subrange(start as int, i as int).push(self@[i as int]) =~= self@.subrange(
                start as int,
                i + 1,
            ));
            i = i + 1;
        }
        assert(r@ =~= latest(self@, n as int));
        r
    }

    /// The whole conversation, copied.
    pub fn copy(&self) -> (r: Talk)
        ensures
            r@ == self@,
    {
        self.recent(self.msgs.len())
    }
}

/// A value that a log entry holds.
pub enum LogValue {
    Text(String),
    Count(u64),
    Flag(bool),
}

impl View for LogValue {
    type V = Tree;

    open spec fn view(&self) -> Tree {
        match self {
            LogValue::Text(s) => Tree::Text(s@),
            LogValue::Count(n) => Tree::Count(*n as nat),
            LogValue::Flag(b) => Tree::Bool(*b),
        }
    }
}

/// A named value of a log entry.
pub struct LogField {
    pub name: String,
    pub value: LogValue,
}

/// What named values make when each is entered in turn.
pub open spec fn entered(items: Seq<LogField>) -> Map<Seq<char>, Tree>
    decreases items.len(),
{
    if items.len() == 0 {
        Map::empty()
    } else {
        entered(items.drop_last()).insert(items.last().name@, items.last().value@)
    }
}

/// Named values.
pub struct Fields {
    pub items: Vec<LogField>,
}

impl View for Fields {
    type V = Map<Seq<char>, Tree>;

    open spec fn view(&self) -> Map<Seq<char>, Tree> {
        entered(self.items@)
    }
}

impl Fields {
    /// No values.
    pub fn new() -> (r: Fields)
        ensures
            r@ == Map::<Seq<char>, Tree>::empty(),
    {
        Fields { items: Vec::new() }
    }

    /// With a value more.
    pub fn with(self, name: &str, value: LogValue) -> (r: Fields)
        ensures
            r@ == self@.insert(name@, value@),
    {
        let mut items = self.items;
        items.push(LogField { name: name.to_owned(), value });
        assert(items@.drop_last() =~= self.items@);
        Fields { items }
    }

    /// With a text more.
    pub fn text(self, name: &str, value: &str) -> (r: Fields)
        ensures
            r@ == self@.insert(name@, Tree::Text(value@)),
    {
        self.with(name, LogValue::Text(value.to_owned()))
    }

    /// With a count more.
    pub fn count(self, name: &str, value: u64) -> (r: Fields)
        ensures
            r@ == self@.insert(name@, Tree::Count(value as nat)),
    {
        self.with(name, LogValue::Count(value))
    }

    /// With a truth value more.
    pub fn flag(self, name: &str, value: bool) -> (r: Fields)
        ensures
            r@ == self@.insert(name@, Tree::Bool(value)),
    {
        self.with(name, LogValue::Flag(value))
    }
}

/// What a log entry tells.
pub enum LogData {
    Fields(Fields),
    Text(String),
}

impl View for LogData {
    type V = Tree;

    open spec fn view(&self) -> Tree {
        match self {
            LogData::Fields(f) => Tree::Fields(f@),
            LogData::Text(s) => Tree::Text(s@),
        }
    }
}

/// What a command that ran left behind.
pub struct Output {
    pub code: Option<i32>,
    pub stdout: String,
    pub stderr: String,
}

/// The view of an `Output`.
pub struct OutputView {
    pub code: Option<i32>,
    pub stdout: Seq<char>,
    pub stderr: Seq<char>,
}

impl View for Output {
    type V = OutputView;

    open spec fn view(&self) -> OutputView {
        OutputView { code: self.code, stdout: self.stdout@, stderr: self.stderr@ }
    }
}

/// The view of what a command left behind, or why it could not run.
pub open spec fn output_view(out: Result<Output, String>) -> Result<OutputView, Seq<char>> {
    match out {
        Ok(o) => Ok(o@),
        Err(e) => Err(e@),
    }
}

/// A command that ended well.
pub open spec fn succeeded(o: OutputView) -> bool {
    o.code == Some(0i32)
}

/// A command that ended well.
pub fn is_success(o: &Output) -> (r: bool)
    ensures
        r == succeeded(o@),
{
    match o.code {
        Some(c) => c == 0,
        None => false,
    }
}

/// A note in the memory folder: the file's name, and what it holds.
pub struct Note {
    pub name: String,
    pub text: String,
}

/// The view of a `Note`.
pub struct NoteView {
    pub name: Seq<char>,
    pub text: Seq<char>,
}

impl View for Note {
    type V = NoteView;

    open spec fn view(&self) -> NoteView {
        NoteView { name: self.name@, text: self.text@ }
    }
}

/// Something that the outside does for the agent.
pub enum Effect {
    /// Append an entry to the session's log.
    Log { kind: String, data: LogData },
    /// Read a file as text.
    ReadText { path: String },
    /// Read several files as text.
    ReadTexts { paths: Vec<String> },
    /// Replace what a file holds.
    WriteText { path: String, text: String },
    /// Remove a file.
    DeleteFile { path: String },
    /// Add to the end of a file.
    AppendText { path: String, text: String },
    /// Create a folder and those above it.
    MakeDir { path: String },
    /// Create the folder in which a file lies.
    MakeParent { path: String },
    /// See whether a path exists.
    Exists { path: String },
    /// Run a command with the shell.
    Shell { command: String },
    /// Build the release binary.
    Build,
    /// Run the linter.
    Lint,
    /// Run the tests.
    Test,
    /// List the files that differ from the last commit.
    ListChanged,
    /// Copy a file, where it is there, to its backup name.
    Backup { path: String },
    /// List the names in a folder.
    ListDir { path: String },
    /// Read the notes in the memory folder.
    ReadMemory,
    /// Ask the model for the next message of a conversation.
    Ask { talk: Talk, system: String },
    /// Show a text to the user.
    Say { text: String },
    /// Tell the user how things stand.
    Notify { text: String },
    /// Start a sub-agent.
    StartAgent { task: String, out_path: String },
    /// Look up a sub-agent.
    PollAgent { agent_id: String },
    /// Wait.
    Pause { millis: u64 },
    /// Tell the time.
    Time,
    /// Take the next line that the user typed.
    NextInput,
    /// End the program.
    Quit,
    /// Replace the program by its new build.
    Relaunch,
    /// Nothing is left to do.
    Stop,
}

/// The view of an `Effect`.
#[verifier::ext_equal]
pub enum EffectView {
    Log { kind: Seq<char>, data: Tree },
    ReadText { path: Seq<char> },
    ReadTexts { paths: Seq<Seq<char>> },
    WriteText { path: Seq<char>, text: Seq<char> },
    DeleteFile { path: Seq<char> },
    AppendText { path: Seq<char>, text: Seq<char> },
    MakeDir { path: Seq<char> },
    MakeParent { path: Seq<char> },
    Exists { path: Seq<char> },
    Shell { command: Seq<char> },
    Build,
    Lint,
    Test,
    ListChanged,
    Backup { path: Seq<char> },
    ListDir { path: Seq<char> },
    ReadMemory,
    Ask { talk: Seq<Said>, system: Seq<char> },
    Say { text: Seq<char> },
    Notify { text: Seq<char> },
    StartAgent { task: Seq<char>, out_path: Seq<char> },
    PollAgent { agent_id: Seq<char> },
    Pause { millis: u64 },
    Time,
    NextInput,
    Quit,
    Relaunch,
    Stop,
}

impl View for Effect {
    type V = EffectView;

    open spec fn view(&self) -> EffectView {
        match self {
            Effect::Log { kind, data } => EffectView::Log { kind: kind@, data: data@ },
            Effect::ReadText { path } => EffectView::ReadText { path: path@ },
            Effect::ReadTexts { paths } => EffectView::ReadTexts { paths: texts(paths@) },
            Effect::WriteText { path, text } => EffectView::WriteText {
                path: path@,
                text: text@,
            },
            Effect::DeleteFile { path } => EffectView::DeleteFile { path: path@ },
            Effect::AppendText { path, text } => EffectView::AppendText {
                path: path@,
                text: text@,
            },
            Effect::MakeDir { path } => EffectView::MakeDir { path: path@ },
            Effect::MakeParent { path } => EffectView::MakeParent { path: path@ },
            Effect::Exists { path } => EffectView::Exists { path: path@ },
            Effect::Shell { command } => EffectView::Shell { command: command@ },
            Effect::Build => EffectView::Build,
            Effect::Lint => EffectView::Lint,
            Effect::Test => EffectView::Test,
            Effect::ListChanged => EffectView::ListChanged,
            Effect::Backup { path } => EffectView::Backup { path: path@ },
            Effect::ListDir { path } => EffectView::ListDir { path: path@ },
            Effect::ReadMemory => EffectView::ReadMemory,
            Effect::Ask { talk, system } => EffectView::Ask { talk: talk@, system: system@ },
            Effect::Say { text } => EffectView::Say { text: text@ },
            Effect::Notify { text } => EffectView::Notify { text: text@ },
            Effect::StartAgent { task, out_path } => EffectView::StartAgent {
                task: task@,
                out_path: out_path@,
            },
            Effect::PollAgent { agent_id } => EffectView::PollAgent { agent_id: agent_id@ },
            Effect::Pause { millis } => EffectView::Pause { millis: *millis },
            Effect::Time => EffectView::Time,
            Effect::NextInput => EffectView::NextInput,
            Effect::Quit => EffectView::Quit,
            Effect::Relaunch => EffectView::Relaunch,
            Effect::Stop => EffectView::Stop,
        }
    }
}

/// What the outside answers once it has done what was asked.
pub enum Event {
    /// It is done, whether or not it succeeded.
    Done,
    /// What a file holds, or why it could not be read.
    Text(Result<String, String>),
    /// What each file holds, where it could be read.
    Texts(Vec<Option<String>>),
    /// Whether it is so.
    Flag(bool),
    /// That a file was removed, or why it could not be.
    Removed(Result<(), String>),
    /// What a command left behind, or why it could not run.
    Output(Result<Output, String>),
    /// The names in a folder, or none where it could not be read.
    Names(Vec<String>),
    /// The notes in the memory folder, where it could be read.
    Memory(Option<Vec<Note>>),
    /// What the model said, or why it could not be asked.
    Reply(Result<String, String>),
    /// The name of the sub-agent that was started.
    Started(String),
    /// The result of a sub-agent, once it has one.
    Polled(Option<String>),
    /// The time, in seconds since 1970.
    Time(u64),
    /// A line that the user typed.
    Line(String),
    /// No line is waiting; `closed` tells whether none will come any more.
    NoLine { closed: bool },
}

/// The view of a result whose both sides are texts.
pub open spec fn result_view(r: Result<String, String>) -> Result<Seq<char>, Seq<char>> {
    match r {
        Ok(s) => Ok(s@),
        Err(e) => Err(e@),
    }
}

/// The view of a result that tells nothing but why something could not be done.
pub open spec fn unit_view(r: Result<(), String>) -> Result<(), Seq<char>> {
    match r {
        Ok(_) => Ok(()),
        Err(e) => Err(e@),
    }
}

/// The view of an `Event`.
pub enum EventView {
    Done,
    Text(Result<Seq<char>, Seq<char>>),
    Texts(Seq<Option<Seq<char>>>),
    Flag(bool),
    Removed(Result<(), Seq<char>>),
    Output(Result<OutputView, Seq<char>>),
    Names(Seq<Seq<char>>),
    Memory(Option<Seq<NoteView>>),
    Reply(Result<Seq<char>, Seq<char>>),
    Started(Seq<char>),
    Polled(Option<Seq<char>>),
    Time(u64),
    Line(Seq<char>),
    NoLine { closed: bool },
}

/// What the notes of a vector hold.
pub open spec fn notes_view(v: Seq<Note>) -> Seq<NoteView> {
    Seq::new(v.len(), |i: int| v[i]@)
}

impl View for Event {
    type V = EventView;

    open spec fn view(&self) -> EventView {
        match self {
            Event::Done => EventView::Done,
            Event::Text(r) => EventView::Text(result_view(*r)),
            Event::Texts(v) => EventView::Texts(
                Seq::new(v@.len(), |i: int| option_view(v@[i])),
            ),
            Event::Flag(b) => EventView::Flag(*b),
            Event::Removed(r) => EventView::Removed(unit_view(*r)),
            Event::Output(r) => EventView::Output(output_view(*r)),
            Event::Names(v) => EventView::Names(texts(v@)),
            Event::Memory(m) => EventView::Memory(
                match m {
                    Some(v) => Some(notes_view(v@)),
                    None => None,
                },
            ),
            Event::Reply(r) => EventView::Reply(result_view(*r)),
            Event::Started(s) => EventView::Started(s@),
            Event::Polled(o) => EventView::Polled(option_view(*o)),
            Event::Time(t) => EventView::Time(*t),
            Event::Line(s) => EventView::Line(s@),
            Event::NoLine { closed } => EventView::NoLine { closed: *closed },
        }
    }
}

/// The kinds of answers.
#[derive(PartialEq, Eq, Structural, Clone, Copy, Debug)]
pub enum Kind {
    Done,
    Text,
    Texts,
    Flag,
    Removed,
    Output,
    Names,
    Memory,
    Reply,
    Started,
    Polled,
    Time,
    Input,
    Nothing,
}

impl EventView {
    /// The kind of an answer.
    pub open spec fn kind(self) -> Kind {
        match self {
            EventView::Done => Kind::Done,
            EventView::Text(_) => Kind::Text,
            EventView::Texts(_) => Kind::Texts,
            EventView::Flag(_) => Kind::Flag,
            EventView::Removed(_) => Kind::Removed,
            EventView::Output(_) => Kind::Output,
            EventView::Names(_) => Kind::Names,
            EventView::Memory(_) => Kind::Memory,
            EventView::Reply(_) => Kind::Reply,
            EventView::Started(_) => Kind::Started,
            EventView::Polled(_) => Kind::Polled,
            EventView::Time(_) => Kind::Time,
            EventView::Line(_) => Kind::Input,
            EventView::NoLine { .. } => Kind::Input,
        }
    }
}

impl Event {
    /// The kind of an answer.
    pub fn kind(&self) -> (r: Kind)
        ensures
            r == self@.kind(),
    {
        match self {
            Event::Done => Kind::Done,
            Event::Text(_) => Kind::Text,
            Event::Texts(_) => Kind::Texts,
            Event::Flag(_) => Kind::Flag,
            Event::Removed(_) => Kind::Removed,
            Event::Output(_) => Kind::Output,
            Event::Names(_) => Kind::Names,
            Event::Memory(_) => Kind::Memory,
            Event::Reply(_) => Kind::Reply,
            Event::Started(_) => Kind::Started,
            Event::Polled(_) => Kind::Polled,
            Event::Time(_) => Kind::Time,
            Event::Line(_) => Kind::Input,
            Event::NoLine { .. } => Kind::Input,
        }
    }
}

impl EffectView {
    /// The kind of answer that an effect gets.
    pub open spec fn answer(self) -> Kind {
        match self {
            EffectView::ReadText { .. } => Kind::Text,
            EffectView::ReadTexts { .. } => Kind::Texts,
            EffectView::DeleteFile { .. } => Kind::Removed,
            EffectView::Exists { .. } => Kind::Flag,
            EffectView::Shell { .. } => Kind::Output,
            EffectView::Build => Kind::Output,
            EffectView::Lint => Kind::Output,
            EffectView::Test => Kind::Output,
            EffectView::ListChanged => Kind::Output,
            EffectView::ListDir { .. } => Kind::Names,
            EffectView::ReadMemory => Kind::Memory,
            EffectView::Ask { .. } => Kind::Reply,
            EffectView::StartAgent { .. } => Kind::Started,
            EffectView::PollAgent { .. } => Kind::Polled,
            EffectView::Time => Kind::Time,
            EffectView::NextInput => Kind::Input,
            EffectView::Quit => Kind::Nothing,
            EffectView::Relaunch => Kind::Nothing,
            EffectView::Stop => Kind::Nothing,
            _ => Kind::Done,
        }
    }
}

/// The command that an effect runs, where it runs one: the program, then its arguments.
pub open spec fn command_line(effect: EffectView) -> Option<Seq<Seq<char>>> {
    match effect {
        EffectView::Shell { command } => Some(seq!["sh"@, "-c"@, command]),
        EffectView::Build => Some(seq!["cargo"@, "build"@, "--release"@]),
        EffectView::Lint => Some(
            seq!["cargo"@, "clippy"@, "--no-deps"@, "--"@, "-D"@, "warnings"@],
        ),
        EffectView::Test => Some(seq!["cargo"@, "test"@, "--release"@]),
        EffectView::ListChanged => Some(seq!["git"@, "diff"@, "--name-only"@]),
        _ => None,
    }
}

impl Effect {
    /// The command that the effect runs, where it runs one.
    pub fn command(&self) -> (r: Option<Vec<String>>)
        ensures
            match r {
                Some(v) => command_line(self@) == Some(texts(v@)),
                None => command_line(self@) is None,
            },
    {
        let mut v: Vec<String> = Vec::new();
        match self {
            Effect::Shell { command } => {
                v.push("sh".to_owned());
                v.push("-c".to_owned());
                v.push(command.clone());
            },
            Effect::Build => {
                v.push("cargo".to_owned());
                v.push("build".to_owned());
                v.push("--release".to_owned());
            },
            Effect::Lint => {
                v.push("cargo".to_owned());
                v.push("clippy".to_owned());
                v.push("--no-deps".to_owned());
                v.push("--".to_owned());
                v.push("-D".to_owned());
                v.push("warnings".to_owned());
            },
            Effect::Test => {
                v.push("cargo".to_owned());
                v.push("test".to_owned());
                v.push("--release".to_owned());
            },
            Effect::ListChanged => {
                v.push("git".to_owned());
                v.push("diff".to_owned());
                v.push("--name-only".to_owned());
            },
            _ => {
                return None;
            },
        }
        assert(command_line(self@) matches Some(words) && texts(v@) =~= words);
        Some(v)
    }
}

/// How many characters of a reply the log shows.
pub const PREVIEW_LIMIT: usize = 200;

/// What the log shows of a reply.
pub open spec fn preview(reply: Seq<char>) -> Seq<char> {
    head(reply, PREVIEW_LIMIT as int)
}

/// What the log shows of a reply.
pub fn preview_of<'a>(reply: &'a str) -> (r: &'a str)
    ensures
        r@ == preview(reply@),
{
    first_chars(reply, PREVIEW_LIMIT)
}

/// The count after `n`; the largest is followed by zero.
pub open spec fn following(n: u64) -> u64 {
    if n == u64::MAX {
        0
    } else {
        (n + 1) as u64
    }
}

/// The count after `n`.
pub fn next_count(n: u64) -> (r: u64)
    ensures
        r == following(n),
{
    if n == u64::MAX {
        0
    } else {
        n + 1
    }
}

/// The last messages of a conversation are an end of it: as many as are asked for, or all.
pub proof fn law_latest_messages(talk: Seq<Said>, n: nat)
    ensures
        latest(talk, n as int).len() == if talk.len() < n {
            talk.len()
        } else {
            n
        },
        forall|i: int|
            0 <= i < latest(talk, n as int).len() ==> #[trigger] latest(talk, n as int)[i]
                == talk[talk.len() - latest(talk, n as int).len() + i],
{
}

/// What is run: a command of the model by the shell, whole; the build and the tests in release
/// mode; the linter with every warning an error; and the list of changed files.
pub proof fn law_commands(command: Seq<char>)
    ensures
        command_line(EffectView::Shell { command }) == Some(seq!["sh"@, "-c"@, command]),
        command_line(EffectView::Build) == Some(seq!["cargo"@, "build"@, "--release"@]),
        command_line(EffectView::Lint) == Some(
            seq!["cargo"@, "clippy"@, "--no-deps"@, "--"@, "-D"@, "warnings"@],
        ),
        command_line(EffectView::Test) == Some(seq!["cargo"@, "test"@, "--release"@]),
        command_line(EffectView::ListChanged) == Some(seq!["git"@, "diff"@, "--name-only"@]),
{
}

/// Nothing is run for an effect that is none of those that run a command.
pub proof fn law_only_commands_run(effect: EffectView)
    requires
        command_line(effect) is Some,
    ensures
        effect is Shell || effect is Build || effect is Lint || effect is Test || effect
            is ListChanged,
{
}

/// A command has succeeded just where it ended with code zero.
pub proof fn law_success_is_code_zero(o: OutputView)
    ensures
        succeeded(o) <==> o.code == Some(0i32),
{
}

} // verus!
