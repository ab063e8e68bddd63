use neqst_core::json::JsonValue;
use neqst_core::orchestrator::{boot_health, get_node_health, select_engine, BootError, DbEngine, NodeHealthSnapshot, RuntimeConfig};
use neqst_core::rpc::build_node_status_result;
use neqst_core::storage::schema_candidates;
use neqst_core::text::{ancestor_dirs, parent_of};

#[test]
fn configuration_defaults() {
    let c = RuntimeConfig::from_env(None, None, None, None, None);
    assert_eq!(c.rpc_bind_addr, "127.0.0.1:9001");
    assert_eq!(c.db_engine, "rocksdb");
    assert_eq!(c.db_path, "data/surrealdb");
    assert_eq!(c.surreal_namespace, "neqst");
    assert_eq!(c.surreal_database, "office");
    let c = RuntimeConfig::from_env(Some("127.0.0.1:0"), Some("MEM"), Some("x"), Some("ns"), Some("db"));
    assert_eq!(c.rpc_bind_addr, "127.0.0.1:0");
    assert_eq!(c.surreal_database, "db");
    assert_eq!(select_engine(&c), DbEngine::Mem);
}

#[test]
fn storage_engines() {
    let with = |e: &str| RuntimeConfig::from_env(None, Some(e), None, None, None);
    assert_eq!(select_engine(&with("mem")), DbEngine::Mem);
    assert_eq!(select_engine(&with("Memory")), DbEngine::Mem);
    assert_eq!(select_engine(&with("rocksdb")), DbEngine::RocksDb);
    assert_eq!(select_engine(&with("memo")), DbEngine::RocksDb);
}

#[test]
fn bootstrap_node_status() {
    let h = boot_health("26.2.1", false, true, true, 0);
    let status = build_node_status_result(h);
    assert_eq!(status.get("db_status").and_then(|v| v.as_str()), Some("connected"));
    assert_eq!(status.get("lok_version").and_then(|v| v.as_str()), Some("26.2.1"));
    assert_eq!(status.get("crypto_status").and_then(|v| v.as_str()), Some("active"));
    assert_eq!(status.get("lok_status").and_then(|v| v.as_str()), Some("ready"));
    let h = boot_health("26.2.1", false, false, false, 3);
    assert_eq!(h.lok_status, "initializing");
    assert_eq!(h.crypto_status, "waiting_for_key");
    assert_eq!(h.queue_backlog, 3);
    assert_eq!(h.active_peers, 0);
}

#[test]
fn health_defaults_and_live_counts() {
    let d = NodeHealthSnapshot::default();
    assert_eq!(d.db_status, "initializing");
    assert_eq!(d.lok_version, "unknown");
    let live = get_node_health(d, 4, 2);
    assert_eq!(live.queue_backlog, 4);
    assert_eq!(live.active_peers, 2);
    assert_eq!(live.lok_status, "initializing");
}

#[test]
fn boot_error_messages() {
    assert_eq!(BootError::Database("down".to_string()).message(), "database_boot_error: down");
    assert_eq!(BootError::Environment("x".to_string()).message(), "environment_boot_error: x");
    assert_eq!(BootError::Queue("q".to_string()).message(), "queue_boot_error: q");
    assert_eq!(BootError::Network("n".to_string()).message(), "network_boot_error: n");
}

#[test]
fn parents_of_paths() {
    assert_eq!(parent_of("/a/b"), Some("/a".to_string()));
    assert_eq!(parent_of("/a"), Some("/".to_string()));
    assert_eq!(parent_of("/"), None);
    assert_eq!(parent_of(""), None);
    assert_eq!(parent_of("a"), Some("".to_string()));
    assert_eq!(parent_of("a/b/"), Some("a".to_string()));
    assert_eq!(parent_of("a//b"), Some("a".to_string()));
    assert_eq!(ancestor_dirs("/x/y", 8), vec!["/x/y".to_string(), "/x".to_string(), "/".to_string()]);
    assert_eq!(ancestor_dirs("/x/y", 1), vec!["/x/y".to_string()]);
}

#[test]
fn schema_search_order() {
    assert_eq!(
        schema_candidates(Some("/opt/neqst/bin"), Some("/w/p")),
        vec![
            "schema.surrealql".to_string(),
            "/opt/neqst/bin/schema.surrealql".to_string(),
            "/w/p/schema.surrealql".to_string(),
            "/w/schema.surrealql".to_string(),
            "/schema.surrealql".to_string(),
        ]
    );
    assert_eq!(schema_candidates(None, None), vec!["schema.surrealql".to_string(), "schema.surrealql".to_string()]);
    let _ = JsonValue::Null;
}
