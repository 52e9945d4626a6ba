//! Sessions: their directories, who makes room, and what outlives the process.

use openab::config::AgentTransport;
use openab::pool::{
    cancel_request, get_or_insert_gate, is_fresh, is_reset, load_mapping, pick_candidate,
    plan_session, remove_if_same_handle, save_mapping, session_to_load,
    resolve_working_dir, sanitize_session_dir_component, Candidate, Probe, SessionPlan,
    SessionPool, Vacancy,
};
use openab::table::Table;
use std::collections::HashMap;

#[test]
fn remove_if_same_handle_removes_matching_entry() {
    let mut map: Table<u64> = Table::new();
    map.insert("thread".to_string(), 1);
    let removed = remove_if_same_handle(&mut map, "thread", 1);
    assert!(removed.is_some());
    assert_eq!(map.len(), 0);
}

#[test]
fn remove_if_same_handle_keeps_replaced_entry() {
    let mut map: Table<u64> = Table::new();
    map.insert("thread".to_string(), 2);
    let removed = remove_if_same_handle(&mut map, "thread", 1);
    assert!(removed.is_none());
    assert_eq!(map.get("thread"), Some(&2));
}

#[test]
fn get_or_insert_gate_reuses_gate_for_same_thread() {
    let mut map: Table<u64> = Table::new();
    let first = get_or_insert_gate(&mut map, "thread", 1);
    let second = get_or_insert_gate(&mut map, "thread", 2);
    assert_eq!(first, second);
    assert_eq!(map.len(), 1);
}

#[test]
fn persisted_mapping_can_include_active_and_suspended_sessions() {
    let mut saved: Table<String> = Table::new();
    saved.insert("active-thread".to_string(), "session-active".to_string());
    saved.insert("suspended-thread".to_string(), "session-suspended".to_string());
    let pool = SessionPool::new(2, saved, Table::new());
    let persisted: HashMap<String, String> = pool.persisted().to_rows().into_iter().collect();
    let serialized = serde_json::to_string_pretty(&persisted).expect("serialize persisted mapping");
    let roundtrip: HashMap<String, String> =
        serde_json::from_str(&serialized).expect("deserialize persisted mapping");
    assert_eq!(
        roundtrip.get("active-thread"),
        Some(&"session-active".to_string())
    );
    assert_eq!(
        roundtrip.get("suspended-thread"),
        Some(&"session-suspended".to_string())
    );
}

#[test]
fn sanitize_session_dir_component_replaces_separators() {
    assert_eq!(
        sanitize_session_dir_component("discord:1234567890"),
        "discord_1234567890"
    );
    assert_eq!(
        sanitize_session_dir_component("slack:C0123/U0456"),
        "slack_C0123_U0456"
    );
}

#[test]
fn a_name_of_nothing_is_a_session() {
    assert_eq!(sanitize_session_dir_component("///"), "session");
    assert_eq!(sanitize_session_dir_component("__a__"), "a");
}

#[test]
fn resolve_working_dir_uses_base_dir_by_default() {
    let dir =
        resolve_working_dir(AgentTransport::Stdio, "/work", false, true, "discord:123").unwrap();
    assert_eq!(dir.path, "/work");
    assert!(!dir.create);
}

#[test]
fn resolve_working_dir_creates_per_session_subdirectory() {
    let dir =
        resolve_working_dir(AgentTransport::Stdio, "/work", true, true, "discord:123").unwrap();
    assert_eq!(dir.path, "/work/discord_123");
    assert!(dir.create);
}

#[test]
fn resolve_working_dir_stdio_requires_existing_base_dir() {
    let missing = "/tmp/openab-nonexistent-working-dir-stdio";
    let err = resolve_working_dir(AgentTransport::Stdio, missing, false, false, "discord:123")
        .unwrap_err();
    assert!(err.contains("working_dir does not exist"));
}

#[test]
fn resolve_working_dir_websocket_skips_local_validation() {
    let missing = "/tmp/openab-nonexistent-working-dir-websocket";
    let dir = resolve_working_dir(AgentTransport::WebSocket, missing, false, false, "discord:123")
        .unwrap();
    assert_eq!(dir.path, missing);
}

#[test]
fn resolve_working_dir_websocket_does_not_create_per_session_dir() {
    let dir = resolve_working_dir(
        AgentTransport::WebSocket,
        "/remote-only-base",
        true,
        false,
        "discord:123",
    )
    .unwrap();
    assert_eq!(dir.path, "/remote-only-base/discord_123");
    assert!(!dir.create);
}

#[test]
fn a_full_pool_lets_the_idlest_go_and_keeps_its_session() {
    let mut pool = SessionPool::new(1, Table::new(), Table::new());
    assert_eq!(
        pool.take_in("a", 1, "session-a".to_string(), &None, false, "/w".to_string()),
        Ok(None)
    );
    assert!(pool
        .take_in("b", 2, "session-b".to_string(), &None, false, "/w".to_string())
        .is_err());
    let candidate = Some(Candidate {
        key: "a".to_string(),
        handle: 1,
        session_id: Some("session-a".to_string()),
    });
    assert_eq!(
        pool.take_in("b", 2, "session-b".to_string(), &candidate, false, "/w".to_string()),
        Ok(Some(1))
    );
    assert_eq!(pool.active().len(), 1);
    assert_eq!(pool.look_up("a"), (None, Some("session-a".to_string())));
    assert_eq!(pool.persisted().get("a").map(String::as_str), Some("session-a"));
}

#[test]
fn a_reset_forgets_the_session_and_no_other() {
    let mut pool = SessionPool::new(2, Table::new(), Table::new());
    pool.take_in("a", 1, "sa".to_string(), &None, true, "/a".to_string()).unwrap();
    pool.take_in("b", 2, "sb".to_string(), &None, true, "/b".to_string()).unwrap();
    assert!(pool.reset_session("a").is_ok());
    assert_eq!(pool.look_up("a"), (None, None));
    assert!(pool.workdirs().get("a").is_none());
    assert_eq!(pool.look_up("b").0, Some(2));
    assert!(pool.reset_session("a").is_err());
}

#[test]
fn a_dead_connection_gives_way() {
    let mut pool = SessionPool::new(1, Table::new(), Table::new());
    pool.take_in("a", 1, "sa".to_string(), &None, false, "/a".to_string()).unwrap();
    assert!(matches!(pool.vacate("a", true, false), Vacancy::Taken));
    assert!(matches!(pool.vacate("a", false, true), Vacancy::Taken));
    assert!(matches!(pool.vacate("a", false, false), Vacancy::Free(Some(1))));
    assert!(matches!(pool.vacate("a", false, false), Vacancy::Free(None)));
}

#[test]
fn cancel_requests_name_their_session() {
    assert_eq!(
        cancel_request("a\"b"),
        "{\"jsonrpc\":\"2.0\",\"method\":\"session/cancel\",\"params\":{\"sessionId\":\"a\\\"b\"}}"
    );
}

#[test]
fn fresh_sessions_are_those_without_a_past() {
    assert!(is_fresh(false, &None));
    assert!(!is_fresh(true, &None));
    let probes: Vec<Probe> = Vec::new();
    assert_eq!(pick_candidate(&probes, "a"), None);
}

#[test]
fn sessions_are_kept_reused_or_taken_up() {
    assert!(matches!(plan_session(Some((true, None)), None), SessionPlan::Reuse));
    let dead = plan_session(Some((false, Some("served".into()))), None);
    assert!(matches!(
        dead,
        SessionPlan::Create { had_existing: true, saved: Some(s) } if s == "served"
    ));
    let aside = plan_session(Some((false, Some("served".into()))), Some("aside".into()));
    assert!(matches!(
        aside,
        SessionPlan::Create { had_existing: true, saved: Some(s) } if s == "aside"
    ));
    assert!(matches!(
        plan_session(None, None),
        SessionPlan::Create { had_existing: false, saved: None }
    ));
    let saved = Some("s".to_string());
    assert_eq!(session_to_load(&saved, true).as_deref(), Some("s"));
    assert!(session_to_load(&saved, false).is_none());
    assert!(is_reset(false, false, &saved));
    assert!(is_reset(false, true, &None));
    assert!(!is_reset(true, true, &saved));
    assert!(!is_reset(false, false, &None));
}

fn probe(key: &str, handle: u64, busy: bool, last_active: u64, session: Option<&str>) -> Probe {
    Probe {
        key: key.to_string(),
        handle,
        busy,
        last_active,
        alive: true,
        session_id: session.map(str::to_string),
    }
}

#[test]
fn idle_connections_are_put_aside() {
    let mut pool = SessionPool::new(4, Table::new(), Table::new());
    for (key, handle) in [("a", 1), ("b", 2), ("c", 3), ("d", 4)] {
        pool.take_in(key, handle, format!("s{key}"), &None, true, "/w".to_string()).unwrap();
    }
    let probes = vec![
        probe("a", 1, false, 5, Some("sa")),
        probe("b", 2, true, 5, Some("sb")),
        probe("c", 3, false, 50, Some("sc")),
        probe("d", 9, false, 5, Some("sd")),
    ];
    assert_eq!(pool.cleanup_idle(&probes, 10), vec![1]);
    assert_eq!(pool.look_up("a"), (None, Some("sa".to_string())));
    assert_eq!(pool.look_up("b").0, Some(2));
    assert_eq!(pool.look_up("c").0, Some(3));
    assert_eq!(pool.look_up("d").0, Some(4));
    assert!(pool.workdirs().get("a").is_some());
}

#[test]
fn an_idle_connection_without_a_session_is_forgotten() {
    let mut pool = SessionPool::new(1, Table::new(), Table::new());
    pool.take_in("a", 1, "sa".to_string(), &None, true, "/w".to_string()).unwrap();
    let dead = Probe { alive: false, ..probe("a", 1, false, 50, None) };
    assert_eq!(pool.cleanup_idle(&vec![dead], 10), vec![1]);
    assert!(pool.workdirs().get("a").is_none());
}

#[test]
fn shutting_down_keeps_the_sessions() {
    let mut pool = SessionPool::new(2, Table::new(), Table::new());
    pool.take_in("a", 1, "sa".to_string(), &None, false, "/w".to_string()).unwrap();
    pool.shutdown(&vec![("a".to_string(), "sa2".to_string())]);
    assert_eq!(pool.active().len(), 0);
    assert_eq!(pool.look_up("a"), (None, Some("sa2".to_string())));
    assert!(pool.has_active_session("a", false, false));
    assert_eq!(pool.cancel_target("a").unwrap_err(), "no session for thread a");
}

#[test]
fn a_thread_keeps_its_directory() {
    let mut dirs = Table::new();
    dirs.insert("a".to_string(), "/old".to_string());
    let mut pool = SessionPool::new(2, Table::new(), dirs);
    assert_eq!(pool.chosen_workdir("a", Some("/new")).as_deref(), Some("/old"));
    assert_eq!(pool.chosen_workdir("b", Some("/new")).as_deref(), Some("/new"));
    assert!(pool.chosen_workdir("b", None).is_none());
    assert!(!pool.has_active_session("a", true, true));
    pool.take_in("a", 1, "sa".to_string(), &None, false, "/old".to_string()).unwrap();
    assert_eq!(pool.cancel_target("a").unwrap(), "sa");
    assert_eq!(pool.connection("a").unwrap(), 1);
    assert_eq!(pool.connection("b").unwrap_err(), "no connection for thread b");
}

#[test]
fn mappings_survive_a_restart() {
    let mut mapping = Table::new();
    mapping.insert("discord:1".to_string(), "se\"ssion\n".to_string());
    mapping.insert("discord:2".to_string(), "ü".to_string());
    let loaded = load_mapping(&save_mapping(&mapping));
    assert_eq!(loaded.len(), 2);
    assert_eq!(loaded.get("discord:1").map(String::as_str), Some("se\"ssion\n"));
    assert_eq!(loaded.get("discord:2").map(String::as_str), Some("ü"));
    assert_eq!(load_mapping(b"not json").len(), 0);
    assert_eq!(load_mapping(b"[\"a\"]").len(), 0);
    assert_eq!(load_mapping(b"{\"a\":1}").len(), 0);
    assert_eq!(load_mapping(b"{\"a\":5,\"a\":\"x\"}").len(), 0);
    let last = load_mapping(b"{\"a\":\"x\",\"a\":\"y\"}");
    assert_eq!(last.get("a").map(String::as_str), Some("y"));
}
