//! Recording the agents a session runs.

use magent_store::states::HarnessKind;
use magent_store::tables::AgentRow;
use magent_store::{RepositoryProbe, SessionBinding, Store};

const HINT: &str = "agent-fixture-hint";

fn fixture() -> (Store, SessionBinding) {
    let mut store = Store::new();
    let root = RepositoryProbe { root: "/tmp/project".into(), origin_url: None, git: None };
    let bound = store
        .bind_session(HINT, &root, "run subagents", HarnessKind::ClaudeCode)
        .expect("bind the session");
    (store, bound)
}

fn agent_row<'a>(store: &'a Store, id: &str) -> Option<&'a AgentRow> {
    store.agents.iter().find(|agent| agent.id == id)
}

fn typed(name: &str) -> Option<String> {
    Some(name.to_owned())
}

#[test]
fn an_agent_is_recorded_once_however_often_it_is_seen() {
    let (mut store, _) = fixture();

    store.record_agent(HINT, "agent-1", &typed("auditor"));
    let first_seen =
        agent_row(&store, "agent-1").expect("recorded on first sighting").started_at.clone();

    // A different type on the later sightings, which must not reach the row.
    store.record_agent(HINT, "agent-1", &typed("implementer"));
    store.record_agent(HINT, "agent-1", &typed("implementer"));

    assert_eq!(
        store.agents.len(),
        1,
        "the same agent id must not produce more than one row however often it is seen"
    );
    let agent = agent_row(&store, "agent-1").expect("still recorded");
    assert_eq!(
        first_seen, agent.started_at,
        "started_at must not move once the agent's first row exists"
    );
    assert_eq!(
        agent.agent_type.as_deref(),
        Some("auditor"),
        "the first sighting's agent_type must survive later sightings that pass a different type"
    );
}

#[test]
fn an_agent_names_the_session_it_ran_under() {
    let (mut store, bound) = fixture();

    store.record_agent(HINT, "agent-2", &typed("auditor"));

    let agent = agent_row(&store, "agent-2").expect("the agent must be recorded");
    assert_eq!(
        agent.session_id, bound.session_id,
        "the recorded row must name the session its hint resolves to"
    );
    assert_eq!(
        agent.agent_type.as_deref(),
        Some("auditor"),
        "the recorded row must store the agent_type it was given"
    );
}

#[test]
fn an_agent_recorded_with_no_type_reads_back_as_none() {
    let (mut store, _) = fixture();

    store.record_agent(HINT, "agent-untyped", &None);

    let agent = agent_row(&store, "agent-untyped").expect("the agent must be recorded");
    assert_eq!(agent.agent_type, None, "a missing agent_type must stay missing");
}

#[test]
fn an_agent_of_an_unknown_session_is_not_recorded() {
    let (mut store, _) = fixture();

    store.record_agent("no-such-hint", "agent-3", &typed("worker"));

    assert_eq!(
        store.agents.len(),
        0,
        "an agent whose parent has no session row must not be recorded"
    );
}

#[test]
fn a_blank_agent_id_records_nothing() {
    let (mut store, _) = fixture();

    store.record_agent(HINT, "", &typed("worker"));
    store.record_agent(HINT, "   ", &typed("worker"));

    assert_eq!(store.agents.len(), 0, "a blank agent id must never produce a row");
}

#[test]
fn a_blank_agent_id_marks_nothing_returned() {
    let (mut store, _) = fixture();

    store.record_agent(HINT, "agent-real", &typed("auditor"));

    store.mark_agent_returned("");
    store.mark_agent_returned("   ");

    let agent = agent_row(&store, "agent-real").expect("recorded");
    assert_eq!(
        agent.ended_at, None,
        "a blank id must not mark an unrelated real agent returned"
    );
}

#[test]
fn an_agent_is_marked_returned_once() {
    let (mut store, _) = fixture();

    store.record_agent(HINT, "agent-4", &typed("auditor"));
    store.mark_agent_returned("agent-4");
    let ended_first = agent_row(&store, "agent-4")
        .expect("recorded")
        .ended_at
        .clone()
        .expect("ended_at must be set after the agent returns");

    store.mark_agent_returned("agent-4");
    let ended_second = agent_row(&store, "agent-4")
        .expect("recorded")
        .ended_at
        .clone()
        .expect("ended_at must still be set");

    assert_eq!(
        ended_first, ended_second,
        "a repeated return must not move ended_at once it is set"
    );
}

#[test]
fn an_agent_that_never_returned_has_no_end() {
    let (mut store, _) = fixture();

    store.record_agent(HINT, "agent-5", &typed("auditor"));

    let agent = agent_row(&store, "agent-5").expect("recorded");
    assert_eq!(agent.ended_at, None, "an agent that never returned must have no ended_at");
}
