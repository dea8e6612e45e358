use auto_harness::agents::{poll_agent, AgentRegistry};
use auto_harness::chat::{chat_mode, is_incomplete, is_new_task, Chat};
use auto_harness::effect::{Effect, Event, Note, Output, Talk};
use auto_harness::evolution::{
    changed_files, evolve_mode, judge_lint, judge_tests, memo_entry, EvolveStep,
};
use auto_harness::number::show;
use auto_harness::reflect::{new_sessions, read_watermark, reflect, ReflectStep, WATERMARK_PATH};
use auto_harness::run::{run_tool, ToolStep};
use auto_harness::subagent::{agent_name, begin_agent, spawn_sub_agent};
use auto_harness::trajectory::log_line;
use std::collections::{BTreeMap, VecDeque};

const GUIDE: &str = "GUIDE.md";

/// An outside that lives in memory.
struct World {
    files: BTreeMap<String, String>,
    replies: VecDeque<Result<String, String>>,
    outputs: VecDeque<Result<Output, String>>,
    lines: VecDeque<String>,
    registry: AgentRegistry,
    log: Vec<String>,
    told: Vec<String>,
    said: Vec<String>,
    asked: Vec<(Vec<(String, String)>, String)>,
    commands: Vec<String>,
    folders: Vec<String>,
    backups: Vec<String>,
    copies: Vec<String>,
    pauses: Vec<u64>,
    time: u64,
    ended: String,
}

fn ok(s: &str) -> Result<String, String> {
    Ok(s.to_string())
}

fn output(code: i32, stdout: &str, stderr: &str) -> Result<Output, String> {
    Ok(Output { code: Some(code), stdout: stdout.to_string(), stderr: stderr.to_string() })
}

fn messages(talk: &Talk) -> Vec<(String, String)> {
    (0..talk.len()).map(|i| (talk.get(i).role.clone(), talk.get(i).content.clone())).collect()
}

impl World {
    fn new() -> World {
        World {
            files: BTreeMap::new(),
            replies: VecDeque::new(),
            outputs: VecDeque::new(),
            lines: VecDeque::new(),
            registry: AgentRegistry::new(),
            log: Vec::new(),
            told: Vec::new(),
            said: Vec::new(),
            asked: Vec::new(),
            commands: Vec::new(),
            folders: Vec::new(),
            backups: Vec::new(),
            copies: Vec::new(),
            pauses: Vec::new(),
            time: 1000,
            ended: String::new(),
        }
    }

    fn read(&self, path: &str) -> Result<String, String> {
        self.files.get(path).cloned().ok_or_else(|| "No such file".to_string())
    }

    fn perform(&mut self, effect: Effect) -> Event {
        if let Some(words) = effect.command() {
            self.commands.push(words.join(" "));
            let out = self.outputs.pop_front();
            return Event::Output(out.unwrap_or_else(|| Err("nothing to run".to_string())));
        }
        match effect {
            Effect::Log { kind, data } => self.log.push(log_line(0, &kind, &data)),
            Effect::ReadText { path } => return Event::Text(self.read(&path)),
            Effect::ReadTexts { paths } => {
                return Event::Texts(paths.iter().map(|p| self.read(p).ok()).collect());
            }
            Effect::WriteText { path, text } => {
                self.files.insert(path, text);
            }
            Effect::DeleteFile { path } => {
                let gone = self.files.remove(&path);
                return Event::Removed(gone.map(|_| ()).ok_or_else(|| "No such file".to_string()));
            }
            Effect::AppendText { path, text } => self.files.entry(path).or_default().push_str(&text),
            Effect::MakeDir { path } => self.folders.push(path),
            Effect::MakeParent { path } => self.folders.push(format!("parent of {path}")),
            Effect::Exists { path } => return Event::Flag(self.files.contains_key(&path)),
            Effect::Backup { path } => {
                if let Some(text) = self.files.get(&path) {
                    self.copies.push(text.clone());
                    self.backups.push(path);
                }
            }
            Effect::ListDir { path } => {
                let start = format!("{path}/");
                let mut names: Vec<String> = self
                    .files
                    .keys()
                    .filter_map(|p| p.strip_prefix(&start))
                    .filter_map(|p| p.split('/').next())
                    .map(|p| p.to_string())
                    .collect();
                names.dedup();
                return Event::Names(names);
            }
            Effect::ReadMemory => {
                let notes: Vec<Note> = self
                    .files
                    .iter()
                    .filter_map(|(p, t)| {
                        let name = p.strip_prefix("src/memory/")?;
                        Some(Note { name: name.to_string(), text: t.clone() })
                    })
                    .collect();
                return Event::Memory(Some(notes));
            }
            Effect::Ask { talk, system } => {
                self.asked.push((messages(&talk), system));
                let reply = self.replies.pop_front();
                return Event::Reply(reply.unwrap_or_else(|| Err("no reply".to_string())));
            }
            Effect::Say { text } => self.said.push(text),
            Effect::Notify { text } => self.told.push(text),
            Effect::StartAgent { task, out_path } => {
                let time = self.time;
                let (id, slot, mut agent, mut effect) =
                    begin_agent(&mut self.registry, time, &task, &out_path);
                assert_eq!(id, agent_name(time));
                assert_eq!(poll_agent(&self.registry, &id), None);
                while !matches!(effect, Effect::Stop) {
                    let event = self.perform(effect);
                    assert_eq!(event.kind(), agent.awaits());
                    effect = agent.step(event);
                }
                self.registry.finish(slot, agent.result().to_string());
                return Event::Started(id);
            }
            Effect::PollAgent { agent_id } => {
                return Event::Polled(poll_agent(&self.registry, &agent_id));
            }
            Effect::Pause { millis } => self.pauses.push(millis),
            Effect::Time => return Event::Time(self.time),
            Effect::NextInput => {
                return match self.lines.pop_front() {
                    Some(l) if l == "(wait)" => Event::NoLine { closed: false },
                    Some(l) => Event::Line(l),
                    None => Event::NoLine { closed: true },
                };
            }
            _ => unreachable!(),
        }
        Event::Done
    }

    fn run_call(&mut self, text: &str, evolve: Option<&str>, out_dir: Option<&str>) -> Option<String> {
        let mut step = run_tool(text, evolve, out_dir)?;
        loop {
            match step {
                ToolStep::Reply(r) => return Some(r),
                ToolStep::Act(run, effect) => {
                    let event = self.perform(effect);
                    assert_eq!(event.kind(), run.awaits());
                    step = run.step(event);
                }
            }
        }
    }

    fn run_agent(&mut self, id: &str, task: &str, out_path: &str) -> String {
        let (mut agent, mut effect) = spawn_sub_agent(id, task, out_path);
        while !matches!(effect, Effect::Stop) {
            let event = self.perform(effect);
            assert_eq!(event.kind(), agent.awaits());
            effect = agent.step(event);
        }
        agent.result().to_string()
    }

    fn run_reflection(&mut self) {
        let (run, effect) = reflect();
        let mut step = ReflectStep::Act(run, effect);
        while let ReflectStep::Act(run, effect) = step {
            let event = self.perform(effect);
            assert_eq!(event.kind(), run.awaits());
            step = run.step(event);
        }
    }

    fn run_evolution(&mut self) {
        let (run, effect) = evolve_mode(self.time, GUIDE);
        let mut step = EvolveStep::Act(run, effect);
        while let EvolveStep::Act(run, effect) = step {
            let event = self.perform(effect);
            assert_eq!(event.kind(), run.awaits());
            step = run.step(event);
        }
    }

    fn run_chat(&mut self) -> Chat {
        let (mut chat, mut effect) = chat_mode("77", GUIDE);
        loop {
            match effect {
                Effect::Stop => self.ended = "stop".to_string(),
                Effect::Quit => self.ended = "quit".to_string(),
                Effect::Relaunch => self.ended = "relaunch".to_string(),
                other => {
                    let event = self.perform(other);
                    assert_eq!(event.kind(), chat.awaits());
                    effect = chat.step(event);
                    continue;
                }
            }
            return chat;
        }
    }

    fn kinds(&self) -> Vec<String> {
        self.log
            .iter()
            .map(|l| {
                let v: serde_json::Value = serde_json::from_str(l).unwrap();
                v["kind"].as_str().unwrap().to_string()
            })
            .collect()
    }
}

fn call(name: &str, body: &str) -> String {
    format!("<tool name=\"{name}\">{body}</tool>")
}

#[test]
fn test_run_tool_spawn_and_wait() {
    let mut world = World::new();
    world.replies.push_back(Err("connection refused".to_string()));
    let spawn_text = "<tool name=\"spawn_agent\">sub_out.md\nWrite the word DONE to the output file.</tool>";
    let result_str = world.run_call(spawn_text, None, Some("out")).unwrap();
    assert!(result_str.contains("spawned agent_"), "got: {result_str}");
    assert_eq!(
        result_str,
        "<tool_result>spawned agent_1000 → out/sub_out.md\nUse <tool name=\"wait_agent\">agent_1000</tool> to block.</tool_result>"
    );

    let agent_id = result_str.split("spawned ").nth(1).unwrap().split_whitespace().next().unwrap().to_string();

    let wait_text = format!("<tool name=\"wait_agent\">{agent_id}</tool>");
    let wait_str = world.run_call(&wait_text, None, Some("out")).unwrap();
    assert!(wait_str.contains("finished:"), "got: {wait_str}");
    assert_eq!(
        wait_str,
        "<tool_result>agent agent_1000 finished: sub-agent agent_1000 LLM error turn 1: connection refused</tool_result>"
    );
    assert_eq!(world.kinds(), vec!["sub_agent_start", "sub_agent_end", "tool_result", "tool_result"]);
}

#[test]
fn test_spawn_sub_agent_writes_output() {
    let mut world = World::new();
    world.files.insert("out/result.md".to_string(), "test result".to_string());
    let slot = world.registry.register("agent_sim");
    world.registry.finish(slot, format!("written {}", "out/result.md"));

    let result = poll_agent(&world.registry, "agent_sim").unwrap();
    assert!(result.contains("written"));
    assert_eq!(world.read("out/result.md").unwrap(), "test result");
}

#[test]
fn waiting_goes_on_until_the_agent_has_finished() {
    let step = run_tool("<tool name=\"wait_agent\"> a1 </tool>", None, Some("out")).unwrap();
    let ToolStep::Act(run, Effect::PollAgent { agent_id }) = step else { panic!() };
    assert_eq!(agent_id, "a1");
    let ToolStep::Act(run, Effect::Pause { millis }) = run.step(Event::Polled(None)) else { panic!() };
    assert_eq!(millis, 200);
    let ToolStep::Act(run, Effect::PollAgent { agent_id }) = run.step(Event::Done) else { panic!() };
    assert_eq!(agent_id, "a1");
    let ToolStep::Act(run, Effect::Log { .. }) = run.step(Event::Polled(Some("r".to_string()))) else { panic!() };
    let ToolStep::Reply(reply) = run.step(Event::Done) else { panic!() };
    assert_eq!(reply, "<tool_result>agent a1 finished: r</tool_result>");
}

#[test]
fn commands_show_code_and_output() {
    let mut world = World::new();
    world.outputs.push_back(output(3, "out\n", "err\n"));
    assert_eq!(
        world.run_call(&call("bash", "ls -l"), None, None).unwrap(),
        "<tool_result>exit=3\nout\nerr\n</tool_result>"
    );
    assert_eq!(world.commands, vec!["sh -c ls -l"]);
    assert_eq!(
        world.log[0],
        "{\"data\":{\"result\":\"exit=3\\nout\\nerr\\n\",\"tool\":\"bash\"},\"kind\":\"tool_result\",\"ts\":0}\n"
    );
    world.outputs.push_back(Err("not found".to_string()));
    assert_eq!(
        world.run_call(&call("bash", "x"), None, None).unwrap(),
        "<tool_result>error: not found</tool_result>"
    );
    world.outputs.push_back(Ok(Output { code: None, stdout: "ä".repeat(3000), stderr: String::new() }));
    let r = world.run_call(&call("bash", "x"), None, None).unwrap();
    assert_eq!(r, format!("<tool_result>exit=-1\n{}</tool_result>", "ä".repeat(1992)));
}

#[test]
fn files_are_written_patched_and_read() {
    let mut world = World::new();
    assert_eq!(
        world.run_call(&call("write_file", "notes/a.txt\nhello\nworld"), None, None).unwrap(),
        "<tool_result>written notes/a.txt</tool_result>"
    );
    assert_eq!(world.read("notes/a.txt").unwrap(), "hello\nworld");
    assert_eq!(world.folders, vec!["parent of notes/a.txt"]);
    world.run_call(&call("write_file", "notes/a.txt 0..5\nbye"), None, None).unwrap();
    assert_eq!(world.read("notes/a.txt").unwrap(), "bye\nworld");
    world.run_call(&call("write_file", "notes/a.txt 99..2\n!"), None, None).unwrap();
    assert_eq!(world.read("notes/a.txt").unwrap(), "bye\nworld!");
    assert_eq!(
        world.run_call(&call("read_file", "notes/a.txt 1..3"), None, None).unwrap(),
        "<tool_result>ye\n[7 chars remaining — use read_file notes/a.txt 3..10]</tool_result>"
    );
    assert_eq!(
        world.run_call(&call("read_file", "notes/a.txt"), None, None).unwrap(),
        "<tool_result>bye\nworld!</tool_result>"
    );
    assert_eq!(
        world.run_call(&call("read_file", "none"), None, None).unwrap(),
        "<tool_result>ERROR reading none: No such file</tool_result>"
    );
}

#[test]
fn long_files_are_read_window_by_window() {
    let mut world = World::new();
    world.files.insert("big".to_string(), "é".repeat(20000));
    let first = world.run_call(&call("read_file", "big"), None, None).unwrap();
    assert!(first.ends_with("\n[4000 chars remaining — use read_file big 16000..20000]</tool_result>"));
    let rest = world.run_call(&call("read_file", "big 16000..20000"), None, None).unwrap();
    assert_eq!(rest, format!("<tool_result>{}</tool_result>", "é".repeat(4000)));
}

#[test]
fn the_own_source_is_kept_only_when_it_builds() {
    let mut world = World::new();
    world.files.insert("src/main.rs".to_string(), "old".to_string());
    world.outputs.push_back(output(0, "", "Finished"));
    assert_eq!(
        world.run_call(&call("write_file", "src/main.rs\nnew"), Some(GUIDE), None).unwrap(),
        "<tool_result>written and verified OK</tool_result>"
    );
    assert_eq!(world.read("src/main.rs").unwrap(), "new");
    assert_eq!(world.commands, vec!["cargo build --release"]);

    world.outputs.push_back(output(101, "", "error[E0425]: nope"));
    assert_eq!(
        world.run_call(&call("write_file", "src/main.rs\nworse"), Some(GUIDE), None).unwrap(),
        "<tool_result>REJECTED (build failed, reverted):\nerror[E0425]: nope</tool_result>"
    );
    assert_eq!(world.read("src/main.rs").unwrap(), "new");

    world.outputs.push_back(output(0, "", "error: odd"));
    world.run_call(&call("write_file", "src/main.rs 0..1\nX"), None, None).unwrap();
    assert_eq!(world.read("src/main.rs").unwrap(), "new");

    world.outputs.push_back(Err("no cargo".to_string()));
    let r = world.run_call(&call("write_file", "src/main.rs\nworse"), None, None).unwrap();
    assert_eq!(r, "<tool_result>REJECTED (build failed, reverted):\nno cargo</tool_result>");
    assert_eq!(world.read("src/main.rs").unwrap(), "new");

    world.outputs.push_back(output(1, &"x".repeat(900), ""));
    let r = world.run_call(&call("write_file", "src/main.rs\nworse"), None, None).unwrap();
    assert_eq!(r, format!("<tool_result>REJECTED (build failed, reverted):\n{}</tool_result>", "x".repeat(400)));

    assert_eq!(
        world.run_call(&call("write_file", "src/main.rs"), None, None).unwrap(),
        "<tool_result>REJECTED (empty content)</tool_result>"
    );
    assert_eq!(world.read("src/main.rs").unwrap(), "new");
}

#[test]
fn evolution_may_not_write_elsewhere() {
    let mut world = World::new();
    assert_eq!(
        world.run_call(&call("write_file", "Cargo.toml\nx"), Some(GUIDE), None).unwrap(),
        "<tool_result>REJECTED (not an evolvable path: Cargo.toml)</tool_result>"
    );
    assert_eq!(
        world.run_call(&call("write_file", "src/a.1.rs.bak\nx"), Some(GUIDE), None).unwrap(),
        "<tool_result>REJECTED (not an evolvable path: src/a.1.rs.bak)</tool_result>"
    );
    assert!(world.files.is_empty() && world.folders.is_empty());
    world.run_call(&call("write_file", "GUIDE.md\nx"), Some(GUIDE), None).unwrap();
    world.run_call(&call("write_file", "README.md\nx"), Some(GUIDE), None).unwrap();
    world.run_call(&call("write_file", "Cargo.toml\nx"), None, None).unwrap();
    assert_eq!(world.files.len(), 3);
}

#[test]
fn files_are_deleted_within_the_sources_only() {
    let mut world = World::new();
    for p in ["src/x.rs", "src/main.rs", "src/AGENTS.md", "Cargo.toml", "src/memory/a.md"] {
        world.files.insert(p.to_string(), "x".to_string());
    }
    assert_eq!(
        world.run_call(&call("delete_file", " src/x.rs\n"), Some(GUIDE), None).unwrap(),
        "<tool_result>deleted src/x.rs</tool_result>"
    );
    assert_eq!(
        world.log,
        vec!["{\"data\":{\"path\":\"src/x.rs\",\"tool\":\"delete_file\"},\"kind\":\"tool_result\",\"ts\":0}\n"]
    );
    world.run_call(&call("delete_file", "src/memory/a.md"), Some(GUIDE), None).unwrap();
    for p in ["src/main.rs", "src/AGENTS.md", "Cargo.toml", "src/../Cargo.toml", "src/./main.rs", "src//AGENTS.md"] {
        assert_eq!(
            world.run_call(&call("delete_file", p), Some(GUIDE), None).unwrap(),
            format!("<tool_result>REJECTED (not a deletable path: {p})</tool_result>")
        );
    }
    let left: Vec<&String> = world.files.keys().collect();
    assert_eq!(left, vec!["Cargo.toml", "src/AGENTS.md", "src/main.rs"]);
    assert_eq!(
        world.run_call(&call("delete_file", "src/x.rs"), Some(GUIDE), None).unwrap(),
        "<tool_result>ERROR deleting src/x.rs: No such file</tool_result>"
    );
    assert!(world.run_call(&call("delete_file", "Cargo.toml"), None, None).is_none());
    assert!(world.run_call(&call("delete_file", "src/x.rs"), None, Some("out")).is_none());
    assert_eq!(world.files.len(), 3);
}

#[test]
fn a_backup_holds_the_text_before_the_change() {
    let mut world = World::new();
    world.files.insert("src/a.md".to_string(), "old".to_string());
    world.run_call(&call("write_file", "src/a.md\nnew"), Some(GUIDE), None).unwrap();
    world.run_call(&call("write_file", "src/a.md 0..3\nnewer"), Some(GUIDE), None).unwrap();
    assert_eq!(world.copies, vec!["old", "new"]);
    assert_eq!(world.backups, vec!["src/a.md", "src/a.md"]);
    assert_eq!(world.read("src/a.md").unwrap(), "newer");
    world.run_call(&call("write_file", "src/b.md\nfirst"), Some(GUIDE), None).unwrap();
    world.run_call(&call("write_file", "src/a.md\nchat"), None, None).unwrap();
    assert_eq!(world.copies.len(), 2);
}

#[test]
fn unknown_tools_and_agents_out_of_reach_are_not_run() {
    assert!(run_tool("no call", None, None).is_none());
    assert!(run_tool(&call("move_file", "src/a.rs"), Some(GUIDE), None).is_none());
    assert!(run_tool(&call("spawn_agent", "a\nb"), None, None).is_none());
    assert!(run_tool(&call("wait_agent", "a"), None, None).is_none());
    assert!(run_tool(&call("wait_agent", "a"), None, Some("out")).is_some());
}

#[test]
fn a_sub_agent_works_until_its_output_is_written() {
    let mut world = World::new();
    world.files.insert("src/prompts/chat_system.txt".to_string(), "be brief".to_string());
    world.outputs.push_back(output(0, "hi", ""));
    world.replies.push_back(Ok(call("bash", "echo hi")));
    world.replies.push_back(Ok(call("write_file", "out/r.md\nDONE")));
    assert_eq!(world.run_agent("a1", "say hi", "out/r.md"), "written out/r.md");
    assert_eq!(world.read("out/r.md").unwrap(), "DONE");
    assert_eq!(
        world.kinds(),
        vec!["sub_agent_start", "sub_agent_turn", "tool_result", "sub_agent_turn", "tool_result", "sub_agent_end"]
    );
    let (talk, system) = &world.asked[1];
    assert_eq!(system, "be brief");
    assert_eq!(talk.len(), 3);
    assert_eq!(talk[0].0, "user");
    assert!(talk[0].1.ends_with("write the result to out/r.md.\n\nTask:\nsay hi"));
    assert_eq!(talk[2], ("user".to_string(), "<tool_result>exit=0\nhi</tool_result>".to_string()));
}

#[test]
fn a_sub_agent_that_calls_no_tool_leaves_its_reply() {
    let mut world = World::new();
    world.replies.push_back(ok("the answer"));
    assert_eq!(world.run_agent("a1", "t", "out/r.md"), "written out/r.md (from reply)");
    assert_eq!(world.read("out/r.md").unwrap(), "the answer");
    assert_eq!(world.folders, vec!["parent of out/r.md"]);

    world.replies.push_back(ok("another"));
    assert_eq!(world.run_agent("a2", "t", "out/r.md"), "sub-agent a2: no output produced");
    assert_eq!(world.read("out/r.md").unwrap(), "the answer");

    world.replies.push_back(Ok(call("spawn_agent", "x\ny")));
    world.run_agent("a3", "t", "out/s.md");
    assert_eq!(world.registry.len(), 0);
}

#[test]
fn reflection_looks_at_new_sessions_only() {
    let mut world = World::new();
    world.files.insert(WATERMARK_PATH.to_string(), " 100\n".to_string());
    world.files.insert(".evo/sessions/100/traj.jsonl".to_string(), "{}".to_string());
    world.files.insert(
        ".evo/sessions/150/traj.jsonl".to_string(),
        "{\"data\":{\"content\":\"long\",\"n\":1}}\n".to_string(),
    );
    world.files.insert(".evo/sessions/odd/traj.jsonl".to_string(), "{}".to_string());
    world.files.insert("src/prompts/reflect_system.txt".to_string(), "look back".to_string());
    world.replies.push_back(Ok(call("read_file", ".evo/sessions/150/traj.jsonl 0..6")));
    world.replies.push_back(Ok(call("read_file", "gone")));
    world.replies.push_back(ok("log less"));
    world.run_reflection();
    assert_eq!(world.told, vec!["Reflection [150]: log less"]);
    assert_eq!(world.read(WATERMARK_PATH).unwrap(), "150");
    assert_eq!(world.log, vec!["{\"data\":\"log less\",\"kind\":\"reflect_result\",\"ts\":0}\n"]);
    assert_eq!(world.folders, vec![".evo"]);
    let (talk, system) = &world.asked[2];
    assert_eq!(system, "look back");
    assert_eq!(
        talk[0].1,
        "Session 150 summary (stripped):\n{\"data\":{\"n\":1}}\n\nFull traj at: .evo/sessions/150/traj.jsonl\nUse <tool name=\"read_file\">.evo/sessions/150/traj.jsonl</tool> if you need more detail.\n\nWhat is the single most important improvement?"
    );
    assert_eq!(
        talk[2].1,
        "<tool_result>{\"data\n[28 chars remaining — use read_file .evo/sessions/150/traj.jsonl 6..34]</tool_result>"
    );
    assert_eq!(talk[4].1, "<tool_result>ERROR: No such file</tool_result>");

    world.told.clear();
    world.run_reflection();
    assert_eq!(world.told, vec!["No new sessions to reflect on."]);
}

#[test]
fn reflection_without_a_suggestion_leaves_the_watermark() {
    let mut world = World::new();
    world.files.insert(".evo/sessions/5/traj.jsonl".to_string(), String::new());
    world.files.insert(".evo/sessions/6/traj.jsonl".to_string(), String::new());
    world.replies.push_back(Err("down".to_string()));
    world.replies.push_back(ok(""));
    world.run_reflection();
    assert_eq!(world.told, vec!["Reflection LLM error [5]: down"]);
    assert!(world.read(WATERMARK_PATH).is_err());
    assert_eq!(world.asked.len(), 2);
}

#[test]
fn watermarks_are_read_back() {
    assert_eq!(read_watermark(&Ok(show(1713300000))), 1713300000);
    assert_eq!(read_watermark(&ok("x")), 0);
    assert_eq!(read_watermark(&Err("gone".to_string())), 0);
    let names = vec!["3".to_string(), "x".to_string(), "5".to_string(), "4".to_string()];
    assert_eq!(new_sessions(names, 3), vec!["5", "4"]);
}

#[test]
fn checks_are_judged_by_their_code() {
    let lint = judge_lint(&output(101, "Checking x\n", "warning: unused\n  note\nerror: aborting\n"));
    assert!(!lint.ok);
    assert_eq!(lint.out, "warning: unused\nerror: aborting");
    let lint = judge_lint(&output(0, "Checking x\n", "Finished\n"));
    assert!(lint.ok);
    assert_eq!(lint.out, "Checking x\nFinished\n");
    let test = judge_tests(&output(0, &"t".repeat(3000), ""));
    assert!(test.ok);
    assert_eq!(test.out, "t".repeat(2000));
    let test = judge_tests(&Err("no cargo".to_string()));
    assert!(!test.ok);
    assert_eq!(test.out, "no cargo");
    assert_eq!(memo_entry(2, "shorter prompts"), "- iter 2: shorter prompts\n");
    assert_eq!(changed_files(&output(0, "a\nb\n", "")), vec!["a", "b"]);
    assert!(changed_files(&Err("no git".to_string())).is_empty());
}

#[test]
fn evolution_goes_on_until_the_model_skips() {
    let mut world = World::new();
    world.files.insert("src/main.rs".to_string(), "fn main() {}".to_string());
    world.files.insert("src/AGENTS.md".to_string(), "rules".to_string());
    world.files.insert("src/prompts/evolve_system.txt".to_string(), "evolve".to_string());
    world.files.insert("src/prompts/doc_system.txt".to_string(), "document".to_string());
    world.files.insert("README.md".to_string(), "readme".to_string());
    world.files.insert("GUIDE.md".to_string(), "guide".to_string());
    world.replies.push_back(Ok(format!("Shorter prompt\n{}", call("write_file", "src/prompts/chat_system.txt\nbrief"))));
    world.replies.push_back(ok("  skip, all is well"));
    world.replies.push_back(Ok(call("write_file", "README.md\nnew readme")));
    world.replies.push_back(ok("done"));
    for _ in 0..2 {
        world.outputs.push_back(output(0, "lint fine", ""));
        world.outputs.push_back(output(0, "tests fine", ""));
    }
    world.outputs.push_back(output(0, "src/prompts/chat_system.txt\ngone.txt\n", ""));
    world.run_evolution();
    assert_eq!(
        world.kinds(),
        vec![
            "evolve_start", "iter_start", "llm_response", "tool_result", "iter_end", "iter_start",
            "llm_response", "iter_skip", "iter_end", "evolve_end", "lint_result", "test_result",
            "tool_result"
        ]
    );
    assert_eq!(world.read("src/prompts/chat_system.txt").unwrap(), "brief");
    assert_eq!(world.read(".evo/memos/1000.md").unwrap(), "- iter 1: Shorter prompt\n");
    assert_eq!(world.read("README.md").unwrap(), "new readme");
    assert_eq!(world.backups, vec!["src/prompts/chat_system.txt", "README.md"]);
    assert_eq!(world.copies, vec!["brief", "readme"]);
    assert_eq!(
        world.told,
        vec![
            "No new sessions to reflect on.",
            "Iter 1: improved.",
            "No new sessions to reflect on.",
            "Iter 2: SKIP — evolution complete.",
            "Refine: running lint and tests...",
            "Running final lint and tests...",
            "Lint: PASS",
            "Tests: PASS",
            "Evolution memo: .evo/memos/1000.md"
        ]
    );
    assert_eq!(
        world.commands,
        vec![
            "cargo clippy --no-deps -- -D warnings",
            "cargo test --release",
            "cargo clippy --no-deps -- -D warnings",
            "cargo test --release",
            "git diff --name-only"
        ]
    );
    let first = &world.asked[0].0[0].1;
    assert!(first.starts_with("Changes already made this run (do not repeat):\n(none yet this run)\n\nPrompt files:\n=== src/prompts/chat_system.txt ===\n\n\n=== src/prompts/reflect_system.txt ===\n"));
    assert!(first.contains("\n\nsrc/AGENTS.md:\nrules\n\nsrc/memory/ (filepath — description):\n(none)\n\nsrc/main.rs:\n```rust\nfn main() {}\n```\n\n"));
    assert!(world.asked[1].0[0].1.contains("- iter 1: Shorter prompt\n"));
    assert_eq!(world.asked[1].1, "evolve");
    assert_eq!(world.asked[2].1, "document");
    assert_eq!(
        world.asked[2].0[0].1,
        "Current src/main.rs:\n```rust\nfn main() {}\n```\n\nCurrent GUIDE.md:\nguide\n\nCurrent README.md:\nreadme\n\nUpdate both docs to match the implementation."
    );
}

#[test]
fn issues_are_handed_to_the_model() {
    let mut world = World::new();
    world.replies.push_back(ok("SKIP"));
    world.replies.push_back(Ok(call("write_file", "src/lib.rs\nfixed")));
    world.replies.push_back(Err("down".to_string()));
    world.replies.push_back(ok("not to be asked"));
    world.outputs.push_back(output(101, "", "error: bad\n"));
    world.outputs.push_back(output(0, "ok", ""));
    world.outputs.push_back(output(0, "clean", ""));
    world.outputs.push_back(output(101, "failed", ""));
    world.outputs.push_back(Err("no git".to_string()));
    world.run_evolution();
    assert_eq!(
        world.asked[1].0[0].1,
        "Post-evolution check found issues. Fix them using write_file. Reply SKIP if nothing to fix.\n\nClippy (ok=false):\nerror: bad\n\nTests (ok=true):\nok"
    );
    assert_eq!(world.asked[2].0.len(), 3);
    assert_eq!(world.read("src/lib.rs").unwrap(), "fixed");
    assert!(world.told.contains(&"Refine: issues found, asking LLM to fix...".to_string()));
    assert!(world.told.contains(&"Refine LLM error: down".to_string()));
    assert!(world.told.contains(&"Lint: PASS".to_string()));
    assert!(world.told.contains(&"Tests: FAIL\nfailed".to_string()));
    assert!(world.told.contains(&"WARNING: evolved binary still has lint/test failures after refine.".to_string()));
    assert_eq!(world.told.last().unwrap(), "Evolution memo: .evo/memos/1000.md");
    assert_eq!(world.asked.len(), 3);
    assert_eq!(world.replies.len(), 1);
    assert!(world.backups.is_empty());
}

#[test]
fn a_failed_update_of_the_documents_is_told() {
    let mut world = World::new();
    world.replies.push_back(ok("SKIP"));
    world.replies.push_back(Err("still down".to_string()));
    for _ in 0..4 {
        world.outputs.push_back(output(0, "fine", ""));
    }
    world.run_evolution();
    assert!(world.told.contains(&"Doc update LLM error: still down".to_string()));
    assert_eq!(world.asked.len(), 2);
}

#[test]
fn an_iteration_without_a_change_is_not_noted() {
    let mut world = World::new();
    world.replies.push_back(Err("down".to_string()));
    world.replies.push_back(ok("just thinking"));
    world.replies.push_back(ok("SKIP"));
    world.run_evolution();
    assert!(world.read(".evo/memos/1000.md").is_err());
    assert_eq!(world.told[1], "LLM error: down");
    let ends: Vec<&String> = world.log.iter().filter(|l| l.contains("iter_end")).collect();
    assert_eq!(ends.len(), 3);
    assert_eq!(ends[0], "{\"data\":{\"improved\":false,\"iter\":1},\"kind\":\"iter_end\",\"ts\":0}\n");
}

#[test]
fn a_chat_runs_tools_and_answers() {
    let mut world = World::new();
    world.files.insert("src/AGENTS.md".to_string(), "rules".to_string());
    world.files.insert("src/prompts/chat_system.txt".to_string(), "be kind".to_string());
    world.lines.push_back("  ".to_string());
    world.lines.push_back("(wait)".to_string());
    world.lines.push_back("fix the bug".to_string());
    world.lines.push_back("now another".to_string());
    world.replies.push_back(ok("NEW"));
    world.replies.push_back(Ok(call("bash", "ls")));
    world.replies.push_back(ok("fixed"));
    world.replies.push_back(ok("DONE"));
    world.replies.push_back(ok("new"));
    world.replies.push_back(Err("down".to_string()));
    world.outputs.push_back(output(0, "a", ""));
    let chat = world.run_chat();
    assert_eq!(world.ended, "stop");
    assert_eq!(chat.out_dir(), "outputs/77/task_2");
    assert_eq!(world.folders, vec!["outputs/77/task_1", "outputs/77/task_2"]);
    assert_eq!(world.pauses, vec![50]);
    assert_eq!(world.said, vec![call("bash", "ls"), "fixed".to_string()]);
    assert_eq!(
        world.kinds(),
        vec![
            "session_start", "user_input", "llm_response", "tool_result", "llm_response",
            "completion_check", "user_input", "task_boundary", "session_end"
        ]
    );
    assert_eq!(world.log[8], "{\"data\":{\"turns\":2},\"kind\":\"session_end\",\"ts\":0}\n");
    assert_eq!(
        world.told,
        vec!["Ready. /exit to quit, /evolve to evolve and relaunch.", "LLM error: down"]
    );
    assert_eq!(
        world.asked[0].1,
        "You decide if a new user message starts a NEW task or continues the current one. Reply with exactly one word: NEW or CONTINUE."
    );
    assert_eq!(world.asked[0].0, vec![("user".to_string(), "fix the bug".to_string())]);
    assert_eq!(
        world.asked[1].1,
        "be kind\n\n## Project rules (src/AGENTS.md)\nrules\n\n## Memory index (use read_file to load any entry)\n(none)"
    );
    assert_eq!(world.asked[1].0[0].1, "[output_dir: outputs/77/task_1]\nfix the bug");
    assert_eq!(world.asked[2].0[2].1, "<tool_result>exit=0\na</tool_result>");
}

#[test]
fn a_chat_keeps_its_latest_messages() {
    let mut world = World::new();
    for i in 0..15 {
        world.lines.push_back(format!("line {i}"));
        world.replies.push_back(ok("CONTINUE"));
        world.replies.push_back(Ok(format!("answer {i}")));
        world.replies.push_back(ok("DONE"));
    }
    world.run_chat();
    let (talk, _) = &world.asked[43];
    assert_eq!(talk.len(), 20);
    assert_eq!(talk[19].1, "[output_dir: outputs/77/task_1]\nline 14");
    assert_eq!(talk[18].1, "answer 13");
    let (judged, _) = &world.asked[42];
    assert_eq!(judged.len(), 7);
    assert_eq!(judged[6].1, "line 14");
    let (checked, system) = &world.asked[44];
    assert_eq!(checked.len(), 13);
    assert_eq!(checked[11].1, "answer 14");
    assert_eq!(checked[12].1, "Original user prompt:\nline 0\n\nIs it finished?");
    assert!(system.ends_with("Reply with exactly one word: DONE or CONTINUE."));
    assert!(world.asked.iter().all(|(talk, _)| talk.len() <= 20));
}

#[test]
fn tool_results_count_towards_the_history() {
    let mut world = World::new();
    world.lines.push_back("go".to_string());
    world.replies.push_back(ok("CONTINUE"));
    for _ in 0..15 {
        world.replies.push_back(Ok(call("read_file", "x")));
    }
    world.replies.push_back(ok("done"));
    world.replies.push_back(ok("DONE"));
    world.run_chat();
    assert!(world.asked.iter().all(|(talk, _)| talk.len() <= 20));
    assert_eq!(world.asked[world.asked.len() - 2].0.len(), 20);
}

#[test]
fn a_judge_that_fails_continues_the_task() {
    let mut world = World::new();
    world.lines.push_back("a".to_string());
    world.replies.push_back(Err("down".to_string()));
    world.replies.push_back(ok("done"));
    let chat = world.run_chat();
    assert_eq!(world.told[1], "Task-judge error (defaulting CONTINUE): down");
    assert_eq!(chat.out_dir(), "outputs/77/task_1");
    assert!(is_new_task(" New."));
    assert!(!is_new_task("CONTINUE"));
}

#[test]
fn an_incomplete_task_goes_on() {
    let mut world = World::new();
    world.lines.push_back("do two things".to_string());
    world.replies.push_back(ok("NEW"));
    world.replies.push_back(ok("one"));
    world.replies.push_back(ok("continue"));
    world.replies.push_back(ok("two"));
    world.replies.push_back(Err("down".to_string()));
    let chat = world.run_chat();
    assert_eq!(world.said, vec!["one", "two"]);
    assert_eq!(chat.out_dir(), "outputs/77/task_1");
    let (talk, _) = &world.asked[3];
    assert_eq!(talk.len(), 3);
    assert_eq!(talk[2].1, "[output_dir: outputs/77/task_1]\nMore is needed. Continue with the same task.");
    assert_eq!(world.told.last().unwrap(), "Completion-check error: down");
    assert_eq!(
        world.kinds(),
        vec![
            "session_start", "user_input", "llm_response", "completion_check", "llm_response",
            "completion_error", "session_end"
        ]
    );
    assert_eq!(
        world.log[3],
        "{\"data\":{\"complete\":false,\"task\":1},\"kind\":\"completion_check\",\"ts\":0}\n"
    );
    assert!(is_incomplete(" Continue."));
    assert!(!is_incomplete("DONE"));
    assert!(!is_incomplete("unsure"));
}

#[test]
fn the_user_may_leave() {
    let mut world = World::new();
    world.lines.push_back(" /exit ".to_string());
    world.run_chat();
    assert_eq!(world.ended, "quit");
    assert_eq!(world.told.last().unwrap(), "Bye.");
    assert_eq!(
        world.log.last().unwrap(),
        "{\"data\":{\"reason\":\"user /exit\",\"turns\":1},\"kind\":\"session_end\",\"ts\":0}\n"
    );
}

#[test]
fn the_user_may_have_the_agent_evolve() {
    let mut world = World::new();
    world.lines.push_back("/evolve".to_string());
    world.replies.push_back(ok("SKIP"));
    world.run_chat();
    assert_eq!(world.ended, "relaunch");
    assert_eq!(world.told[1], "Starting evolution loop...");
    assert!(world.told.contains(&"Evolution memo: .evo/memos/1000.md".to_string()));
    assert!(world.kinds().contains(&"evolve_end".to_string()));
}
