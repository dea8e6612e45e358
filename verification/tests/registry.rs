use auto_harness::agents::{poll_agent, AgentRegistry};

#[test]
fn test_agent_registry_poll_unknown() {
    let registry = AgentRegistry::new();
    let result = poll_agent(&registry, "nonexistent");
    assert!(result.unwrap().contains("unknown agent_id"));
}

#[test]
fn test_agent_registry_spawn_and_poll() {
    let mut registry = AgentRegistry::new();
    let slot = registry.register("agent_test");

    assert!(poll_agent(&registry, "agent_test").is_none());

    registry.finish(slot, "written output.md".to_string());

    assert_eq!(poll_agent(&registry, "agent_test"), Some("written output.md".to_string()));
}

#[test]
fn a_result_reaches_its_own_agent_only() {
    let mut registry = AgentRegistry::new();
    let first = registry.register("agent_1");
    let second = registry.register("agent_2");
    assert_eq!(registry.len(), 2);
    registry.finish(second, "done".to_string());
    assert_eq!(poll_agent(&registry, "agent_1"), None);
    assert_eq!(poll_agent(&registry, "agent_2"), Some("done".to_string()));
    registry.finish(first, "also done".to_string());
    assert_eq!(poll_agent(&registry, "agent_1"), Some("also done".to_string()));
    assert_eq!(poll_agent(&registry, "agent_3"), Some("unknown agent_id: agent_3".to_string()));
}
