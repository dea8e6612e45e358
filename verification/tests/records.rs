use auto_harness::clock::{now_secs, seconds_passed};
use auto_harness::config::{dotenv_settings, Cfg, ConfigError};
use auto_harness::effect::{Fields, LogData, Note, Talk};
use auto_harness::llm::{authorization, chat_url, llm_reply, llm_request, pick_reply};
use auto_harness::memory::{frontmatter_description, is_memory_note, memory_index};
use auto_harness::paths::{
    bak_path, bak_path_at, extension_of, has_backup_name, is_deletable, is_evolvable, name_of,
    prompt_file, session_folder, session_log, steps_of,
};
use auto_harness::trajectory::{log_line, strip_entry, strip_line, summarize, traj_log};

const GUIDE: &str = "GUIDE.md";

#[test]
fn log_lines_are_compact_json() {
    let data = LogData::Fields(Fields::new().count("task", 1).count("turn", 2).text("preview", "a\"b\n"));
    assert_eq!(
        log_line(1713300005, "llm_response", &data),
        "{\"data\":{\"preview\":\"a\\\"b\\n\",\"task\":1,\"turn\":2},\"kind\":\"llm_response\",\"ts\":1713300005}\n"
    );
    assert_eq!(
        log_line(7, "user_input", &LogData::Text("fix the bug".to_string())),
        "{\"data\":\"fix the bug\",\"kind\":\"user_input\",\"ts\":7}\n"
    );
    assert_eq!(
        log_line(7, "iter_end", &LogData::Fields(Fields::new().flag("improved", true))),
        "{\"data\":{\"improved\":true},\"kind\":\"iter_end\",\"ts\":7}\n"
    );
}

#[test]
fn log_entries_bear_the_time() {
    let before = now_secs();
    let line = traj_log("session_start", &LogData::Fields(Fields::new()));
    let after = now_secs();
    let v: serde_json::Value = serde_json::from_str(&line).unwrap();
    let ts = v["ts"].as_u64().unwrap();
    assert!(before <= ts && ts <= after);
    assert!(ts > 1_600_000_000);
    assert_eq!(v["kind"], "session_start");
    assert_eq!(v["data"].to_string(), "{}");
}

#[test]
fn the_clock_stands_at_zero_before_the_epoch() {
    assert_eq!(seconds_passed(Some(5)), 5);
    assert_eq!(seconds_passed(None), 0);
}

#[test]
fn entries_lose_their_content_and_preview() {
    assert_eq!(
        strip_line("{\"ts\":1,\"data\":{\"content\":\"x\",\"preview\":\"y\",\"task\":3}}"),
        Some("{\"data\":{\"task\":3},\"ts\":1}".to_string())
    );
    assert_eq!(strip_line("no json"), None);
    assert_eq!(strip_line("[1,2]"), Some("[1,2]".to_string()));
    assert_eq!(strip_line("{\"data\":7.5}"), Some("{\"data\":7.5}".to_string()));
}

#[test]
fn long_texts_are_capped() {
    let mut v = serde_json::Value::from(serde_json::Map::new());
    v["data"] = serde_json::Value::from("ä".repeat(130));
    strip_entry(&mut v);
    assert_eq!(v["data"].as_str().unwrap(), "ä".repeat(120));
    strip_entry(&mut v);
    assert_eq!(v["data"].as_str().unwrap(), "ä".repeat(120));
    let short = "ä".repeat(100);
    v["data"] = serde_json::Value::from(short.clone());
    strip_entry(&mut v);
    assert_eq!(v["data"].as_str().unwrap(), short);
}

#[test]
fn summaries_keep_the_end_of_a_log() {
    let mut raw = String::new();
    for i in 0..3 {
        raw.push_str(&log_line(i, "iter_start", &LogData::Fields(Fields::new().count("iter", i))));
    }
    raw.push_str("broken\n");
    assert_eq!(
        summarize(&raw),
        "{\"data\":{\"iter\":0},\"kind\":\"iter_start\",\"ts\":0}\n{\"data\":{\"iter\":1},\"kind\":\"iter_start\",\"ts\":1}\n{\"data\":{\"iter\":2},\"kind\":\"iter_start\",\"ts\":2}"
    );
    assert_eq!(summarize(""), "");
    let mut long = String::new();
    for i in 0..500 {
        long.push_str(&log_line(i, "ü", &LogData::Text("x".to_string())));
    }
    let s = summarize(&long);
    assert_eq!(s.chars().count(), 8000);
    assert!(s.ends_with("\"ts\":499}"));
}

#[test]
fn requests_hold_the_whole_conversation() {
    let mut talk = Talk::opening("hi");
    talk.say("assistant", "hello");
    assert_eq!(
        llm_request("m", &talk, "be kind"),
        "{\"max_tokens\":4096,\"messages\":[{\"content\":\"be kind\",\"role\":\"system\"},{\"content\":\"hi\",\"role\":\"user\"},{\"content\":\"hello\",\"role\":\"assistant\"}],\"model\":\"m\"}"
    );
    assert_eq!(chat_url("http://localhost:11434/v1//"), "http://localhost:11434/v1/chat/completions");
    assert_eq!(chat_url("http://h"), "http://h/chat/completions");
    assert_eq!(authorization("k"), "Bearer k");
}

#[test]
fn answers_give_their_first_choice() {
    let body = "{\"choices\":[{\"message\":{\"content\":\"yes\"}},{\"message\":{\"content\":\"no\"}}]}";
    assert_eq!(llm_reply(body.as_bytes()), Ok("yes".to_string()));
    assert_eq!(llm_reply(b"{\"choices\": []}"), Err("bad response: {\"choices\":[]}".to_string()));
    assert_eq!(llm_reply(b"{\"error\": \"x\"}"), Err("bad response: {\"error\":\"x\"}".to_string()));
    assert_eq!(
        llm_reply(b"{\"choices\":[{\"message\":{\"content\":null}}]}"),
        Err("bad response: {\"choices\":[{\"message\":{\"content\":null}}]}".to_string())
    );
    assert_eq!(
        llm_reply(b"{"),
        Err("Failed to read JSON: EOF while parsing an object at line 1 column 1".to_string())
    );
    let broken = llm_reply(b"\"\xff\"").unwrap_err();
    assert!(broken.starts_with("Failed to read JSON: invalid unicode code point"));
    let v: serde_json::Value = serde_json::from_str(body).unwrap();
    assert_eq!(pick_reply(&v), Ok("yes".to_string()));
}

#[test]
fn notes_are_indexed_by_their_description() {
    assert_eq!(frontmatter_description("---\ndescription: how to \n---\nbody"), Some("how to"));
    assert_eq!(frontmatter_description("---\nname: x\n---\ndescription: late"), None);
    assert_eq!(frontmatter_description("description: x"), None);
    assert_eq!(frontmatter_description("---\nname: x\ndescription:y"), Some("y"));
    assert!(is_memory_note("a.md"));
    assert!(!is_memory_note("a.txt"));
    assert!(!is_memory_note(".md"));
    assert_eq!(memory_index(&None), "(none)");
    assert_eq!(memory_index(&Some(Vec::new())), "(none)");
    let notes = vec![
        Note { name: "a.md".to_string(), text: "---\ndescription: first\n---\n".to_string() },
        Note { name: "b.md".to_string(), text: format!("{}\nrest", "b".repeat(150)) },
    ];
    assert_eq!(
        memory_index(&Some(notes)),
        format!("  src/memory/a.md — first\n  src/memory/b.md — {}", "b".repeat(100))
    );
}

#[test]
fn backups_are_named_by_stem_time_and_extension() {
    assert_eq!(bak_path_at("src/main.rs", 7), "src/main.7.rs.bak");
    assert_eq!(bak_path_at("README", 7), "README.7.bak");
    assert_eq!(bak_path_at("src/.hidden", 7), "src/.hidden.7.bak");
    assert_eq!(bak_path_at("a.b/c", 7), "a.b/c.7.bak");
    assert_eq!(bak_path_at("a.tar.gz", 7), "a.tar.7.gz.bak");
    assert!(has_backup_name("src/main.rs"));
    let name = bak_path("src/main.rs");
    assert!(name.starts_with("src/main.") && name.ends_with(".rs.bak"));
    assert!(!is_evolvable(&name, GUIDE));
    assert_eq!(name_of("a/b/c.md"), Some("c.md"));
    assert_eq!(name_of("a/b/.."), None);
    assert_eq!(extension_of("x/y.rs"), Some("rs"));
    assert_eq!(extension_of("x/y"), None);
}

#[test]
fn only_sources_and_documents_may_evolve() {
    assert!(is_evolvable("src/main.rs", GUIDE));
    assert!(is_evolvable("src/prompts/chat_system.txt", GUIDE));
    assert!(is_evolvable("GUIDE.md", GUIDE));
    assert!(is_evolvable("README.md", GUIDE));
    assert!(!is_evolvable("src/main.7.rs.bak", GUIDE));
    assert!(!is_evolvable("Cargo.toml", GUIDE));
    assert!(!is_evolvable("/etc/passwd", GUIDE));
}

#[test]
fn sessions_have_a_folder_of_their_own() {
    assert_eq!(session_folder("1713300000"), ".evo/sessions/1713300000");
    assert_eq!(session_log("1713300000"), ".evo/sessions/1713300000/traj.jsonl");
    assert_eq!(prompt_file("chat_system.txt"), "src/prompts/chat_system.txt");
}

#[test]
fn configuration_needs_a_key() {
    let e = Cfg::from_env(None, None, None, "m").err();
    assert_eq!(e, Some(ConfigError::MissingKey));
    assert_eq!(ConfigError::MissingKey.message(), "Set OPENROUTER_API_KEY");
    let cfg = Cfg::from_env(Some("k".to_string()), None, None, "m").ok().unwrap();
    assert_eq!(cfg.api_key, "k");
    assert_eq!(cfg.base_url, "https://openrouter.ai/api/v1");
    assert_eq!(cfg.model, "m");
    let cfg = Cfg::from_env(
        Some("unused".to_string()),
        Some("http://localhost:11434/v1".to_string()),
        Some("llama3".to_string()),
        "m",
    )
    .ok()
    .unwrap();
    assert_eq!(cfg.base_url, "http://localhost:11434/v1");
    assert_eq!(cfg.model, "llama3");
}

#[test]
fn the_environment_wins_over_the_file() {
    let content = "# comment = no\nA = 1\nB=2=3\n\nA=4\nC=5\nnot a setting\n";
    let set = dotenv_settings(content, vec!["C".to_string()]);
    let pairs: Vec<(&str, &str)> = set.iter().map(|s| (s.name.as_str(), s.value.as_str())).collect();
    assert_eq!(pairs, vec![("A", "1"), ("B", "2=3")]);
}

#[test]
fn only_sources_may_be_deleted() {
    assert_eq!(steps_of("src//./a/b.rs/"), vec!["src", "a", "b.rs"]);
    assert!(steps_of("").is_empty());
    assert!(is_deletable("src/x.rs"));
    assert!(is_deletable("./src/x.rs"));
    assert!(is_deletable("src/prompts/main.rs"));
    assert!(!is_deletable("src/main.rs"));
    assert!(!is_deletable("src/AGENTS.md"));
    assert!(!is_deletable("src"));
    assert!(!is_deletable("src/"));
    assert!(!is_deletable("/src/x.rs"));
    assert!(!is_deletable("src/../x.rs"));
    assert!(!is_deletable("srcs/x.rs"));
    assert!(!is_deletable(""));
}
