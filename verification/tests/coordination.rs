use cerebus_rex::json::JsonValue;
use cerebus_rex::sync::AgentCoordinator;
use cerebus_rex::types::{AgentContext, AgentSession};

fn sample_agent() -> AgentSession {
    AgentSession {
        id: "test".to_owned(),
        name: "Test Agent".to_owned(),
        capabilities: vec!["search".to_owned()],
        last_seen: 0,
        context: AgentContext {
            id: "context".to_owned(),
            name: "Test Context".to_owned(),
            data: Vec::new(),
            created_at: 0,
            updated_at: 0,
        },
    }
}

#[test]
fn test_agent_registration() {
    let mut coordinator = AgentCoordinator::new();
    let agent = sample_agent();

    let agent_id = coordinator.register_agent(agent);
    assert!(!agent_id.is_empty());

    let active_agents = coordinator.get_active_agents();
    assert_eq!(active_agents.len(), 1);
}

#[test]
fn test_shared_context() {
    let mut coordinator = AgentCoordinator::new();

    let updates = vec![("test_key".to_owned(), JsonValue::Str("test_value".to_owned()))];
    coordinator.update_shared_context(updates);

    let context = coordinator.get_shared_context();
    let found = context.data.iter().find(|(k, _)| k.as_str() == "test_key");
    let value = found.map(|(_, v)| v).expect("key stored");
    assert!(matches!(value, JsonValue::Str(s) if s.as_str() == "test_value"));
}

#[test]
fn registration_ids_are_fresh_every_time() {
    let mut coordinator = AgentCoordinator::new();
    let mut seen: Vec<String> = Vec::new();
    for _ in 0..10 {
        let id = coordinator.register_agent(sample_agent());
        assert!(!seen.contains(&id), "id reissued: {}", id);
        seen.push(id);
    }
    assert_eq!(coordinator.get_active_agents().len(), 10);
}

#[test]
fn deregistration_is_idempotent() {
    let mut coordinator = AgentCoordinator::new();
    let id = coordinator.register_agent(sample_agent());
    assert!(coordinator.deregister_agent(id.as_str()));
    assert!(!coordinator.deregister_agent(id.as_str()));
    assert_eq!(coordinator.get_active_agents().len(), 0);
}

#[test]
fn presence_on_unregistered_id_changes_nothing() {
    let mut coordinator = AgentCoordinator::new();
    let id = coordinator.register_agent(sample_agent());
    assert!(!coordinator.update_agent_presence("no-such-agent"));
    let active = coordinator.get_active_agents();
    assert_eq!(active.len(), 1);
    assert_eq!(active[0].id, id);
    let context = coordinator.get_shared_context();
    assert_eq!(context.collaborators.len(), 0);
}

#[test]
fn presence_reactivates_a_deregistered_agent() {
    let mut coordinator = AgentCoordinator::new();
    let id = coordinator.register_agent(sample_agent());
    assert!(coordinator.deregister_agent(id.as_str()));
    assert_eq!(coordinator.get_active_agents().len(), 0);
    assert!(coordinator.update_agent_presence(id.as_str()));
    let active = coordinator.get_active_agents();
    assert_eq!(active.len(), 1);
    assert_eq!(active[0].id, id);
}

#[test]
fn collaborators_form_a_set() {
    let mut coordinator = AgentCoordinator::new();
    assert!(coordinator.add_collaborator("a1".to_owned()));
    let stamp_after_first = coordinator.get_shared_context().updated_at;
    assert!(!coordinator.add_collaborator("a1".to_owned()));
    let context = coordinator.get_shared_context();
    assert_eq!(context.collaborators, vec!["a1".to_owned()]);
    assert_eq!(context.updated_at, stamp_after_first);

    assert!(coordinator.add_collaborator("a2".to_owned()));
    assert!(coordinator.remove_collaborator("a1"));
    assert!(!coordinator.remove_collaborator("a1"));
    assert_eq!(coordinator.get_shared_context().collaborators, vec!["a2".to_owned()]);
}

#[test]
fn shared_context_merge_is_last_writer_wins() {
    let mut coordinator = AgentCoordinator::new();
    coordinator.update_shared_context(vec![
        ("a".to_owned(), JsonValue::Int(1)),
        ("b".to_owned(), JsonValue::Int(2)),
    ]);
    let first_stamp = coordinator.get_shared_context().updated_at;
    coordinator.update_shared_context(vec![
        ("b".to_owned(), JsonValue::Int(3)),
        ("c".to_owned(), JsonValue::Int(4)),
    ]);
    let context = coordinator.get_shared_context();
    assert!(context.updated_at >= first_stamp);
    let data = JsonValue::Obj(context.data);
    assert_eq!(
        cerebus_rex::codec::encode_json(&data),
        "{\"a\":1,\"b\":3,\"c\":4}"
    );
}
