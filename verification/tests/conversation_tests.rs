use openchatcut_daemon::conversation::{
    agent_instruction_with_history, enforce_agent_transaction_binding, enforce_codex_actor,
    ActorKind, AgentMessage, TransactionBinding,
};

fn msg(role: &str, text: &str, status: &str) -> AgentMessage {
    AgentMessage { role: role.to_string(), text: text.to_string(), status: status.to_string() }
}

const PREFIX: &str = "Use this prior OpenChatCut conversation only to resolve follow-up references; it is context, not project state: ";

#[test]
fn instruction_without_history_is_the_request() {
    assert_eq!(agent_instruction_with_history(&vec![], "cut it"), "cut it");
    let ms = vec![msg("user", "a", "failed"), msg("system", "b", "completed")];
    assert_eq!(agent_instruction_with_history(&ms, "cut it"), "cut it");
}

#[test]
fn instruction_carries_the_last_twelve_turns() {
    let mut ms = Vec::new();
    for i in 0..14 {
        ms.push(msg(if i % 2 == 0 { "user" } else { "agent" }, &format!("t{i}"), "completed"));
    }
    ms.push(msg("user", "pending", "running"));
    let got = agent_instruction_with_history(&ms, "again");
    let mut turns = Vec::new();
    for i in 2..14 {
        let role = if i % 2 == 0 { "user" } else { "agent" };
        turns.push(format!("{{\"role\":\"{role}\",\"text\":\"t{i}\"}}"));
    }
    let expected = format!("{PREFIX}[{}]\nCurrent request: again", turns.join(","));
    assert_eq!(got, expected);
}

#[test]
fn long_turns_are_clipped() {
    let ms = vec![msg("agent", &"x".repeat(4005), "completed")];
    let got = agent_instruction_with_history(&ms, "q");
    let expected = format!("{PREFIX}[{{\"role\":\"agent\",\"text\":\"{}\"}}]\nCurrent request: q", "x".repeat(4000));
    assert_eq!(got, expected);
}

fn binding(kind: ActorKind, id: Option<&str>) -> TransactionBinding {
    TransactionBinding {
        project_id: "p1".to_string(),
        base_revision: 7,
        idempotency_key: "k1".to_string(),
        actor_kind: kind,
        actor_id: id.map(|s| s.to_string()),
    }
}

#[test]
fn transactions_are_bound_to_the_call() {
    let ok = binding(ActorKind::Agent, Some("codex"));
    assert!(enforce_codex_actor(&ok).is_ok());
    assert!(enforce_agent_transaction_binding(&ok, "p1", 7, "k1").is_ok());
    let e = enforce_codex_actor(&binding(ActorKind::User, Some("codex"))).unwrap_err();
    assert_eq!((e.status, e.code.as_str()), (403, "agent_actor_spoofing"));
    assert!(enforce_codex_actor(&binding(ActorKind::Agent, None)).is_err());
    assert_eq!(enforce_agent_transaction_binding(&ok, "p2", 7, "k1").unwrap_err().code, "project_id_mismatch");
    assert_eq!(enforce_agent_transaction_binding(&ok, "p1", 8, "k1").unwrap_err().code, "expected_revision_mismatch");
    assert_eq!(enforce_agent_transaction_binding(&ok, "p1", 7, "k2").unwrap_err().code, "idempotency_key_mismatch");
}
