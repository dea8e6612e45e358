use auto_harness::tool::{
    clamp_range, extract_tool, parse_path_range, patch, show_excerpt, shown_range,
};

#[test]
fn test_extract_tool_basic() {
    let text = r#"Some text <tool name="shell">echo hello</tool> more"#;
    let (name, body) = extract_tool(text).unwrap();
    assert_eq!(name, "shell");
    assert_eq!(body, "echo hello");
}

#[test]
fn test_extract_tool_write_file() {
    let text = "<tool name=\"write_file\">path/to/file.txt\nfile content here</tool>";
    let (name, body) = extract_tool(text).unwrap();
    assert_eq!(name, "write_file");
    assert!(body.starts_with("path/to/file.txt"));
}

#[test]
fn test_extract_tool_strips_fences() {
    let text = "<tool name=\"write_self\">```rust\nfn main() {}\n```</tool>";
    let (name, body) = extract_tool(text).unwrap();
    assert_eq!(name, "write_self");
    assert_eq!(body, "fn main() {}");
}

#[test]
fn test_extract_tool_none() {
    assert!(extract_tool("no tool here").is_none());
}

#[test]
fn test_extract_tool_spawn_agent() {
    let text = "<tool name=\"spawn_agent\">result.md\nAnalyse src/main.rs and summarise key functions.</tool>";
    let (name, body) = extract_tool(text).unwrap();
    assert_eq!(name, "spawn_agent");
    let mut lines = body.splitn(2, '\n');
    assert_eq!(lines.next().unwrap().trim(), "result.md");
    assert!(lines.next().unwrap().contains("Analyse"));
}

#[test]
fn test_extract_tool_wait_agent() {
    let text = "<tool name=\"wait_agent\">agent_1234567890</tool>";
    let (name, body) = extract_tool(text).unwrap();
    assert_eq!(name, "wait_agent");
    assert_eq!(body.trim(), "agent_1234567890");
}

#[test]
fn test_parse_path_range_no_range() {
    let (path, range) = parse_path_range("src/main.rs");
    assert_eq!(path, "src/main.rs");
    assert!(range.is_none());
}

#[test]
fn test_parse_path_range_with_range() {
    let (path, range) = parse_path_range("src/main.rs 100..200");
    assert_eq!(path, "src/main.rs");
    assert_eq!(range, Some((100, 200)));
}

#[test]
fn test_parse_path_range_edge_inverted() {
    let (path, range) = parse_path_range("src/main.rs 200..100");
    assert_eq!(path, "src/main.rs");
    assert_eq!(range, Some((200, 100)));
    // an inverted range collapses to an empty slice
    let total = 50usize;
    let (s, e) = clamp_range(range.unwrap(), total);
    assert_eq!(s, 50);
    assert_eq!(e, 50);
}

#[test]
fn test_parse_path_range_oob() {
    // both offsets beyond the file's length clamp to its end
    let total = 10usize;
    let (s, e) = clamp_range((9999usize, 99999usize), total);
    assert_eq!(s, 10);
    assert_eq!(e, 10);
}

#[test]
fn a_patch_touches_its_range_only() {
    assert_eq!(patch("häuser", (1, 3), "eu"), "heuser");
    assert_eq!(patch("abc", (1, 1), "-"), "a-bc");
    assert_eq!(patch("abc", (2, 1), "-"), "ab-c");
    assert_eq!(patch("abc", (9, 9), "d"), "abcd");
    assert_eq!(patch("abc", (1, 2), &"abc"[1..2]), "abc");
}

#[test]
fn a_read_tells_how_to_go_on() {
    assert_eq!(shown_range(None, 20000), (0, 16000));
    assert_eq!(shown_range(None, 10), (0, 10));
    assert_eq!(shown_range(Some((5, 99)), 10), (5, 10));
    assert_eq!(
        show_excerpt("a b", "0123456789", Some((2, 4))),
        "23\n[6 chars remaining — use read_file a b 4..10]"
    );
    let hint = "a b 4..10";
    assert_eq!(parse_path_range(hint), ("a b", Some((4, 10))));
}

#[test]
fn the_first_call_in_a_text_counts() {
    let text = "x <tool name=\"a\">1</tool> <tool name=\"b\">2</tool>";
    assert_eq!(extract_tool(text), Some(("a", "1")));
    assert!(extract_tool("<tool name=\"a\">1").is_none());
    assert!(extract_tool("<tool name=\"a").is_none());
    assert!(extract_tool("<tool name=\"a\"").is_none());
    assert_eq!(extract_tool("<tool name=\"\"> </tool>"), Some(("", "")));
    assert_eq!(extract_tool("<tool name=\"a\">```x```</tool>"), Some(("a", "```x")));
}
