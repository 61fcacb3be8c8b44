use systemd_units::error::{ServiceError, TimerError};
use systemd_units::executor::{CommandOutput, MockCommandExecutor};
use systemd_units::handlers::{watched_service_rows, ServiceStatusResponse};
use systemd_units::watch::{
    get_watched_services, get_watched_timers, save_watched_services, save_watched_timers,
    watched_from_stored, KvStore, MemoryKvStore,
};

#[test]
fn test_save_and_load_watched_services() {
    let mut kv = MemoryKvStore::new();
    assert_eq!(get_watched_services(&kv).unwrap(), Vec::<String>::new());
    let names = vec!["nginx".to_string(), "postgresql".to_string()];
    save_watched_services(&mut kv, &names).unwrap();
    assert_eq!(kv.lookup("watched_services"), Some("[\"nginx\",\"postgresql\"]".to_string()));
    assert_eq!(get_watched_services(&kv).unwrap(), names);
}

#[test]
fn watched_timers_round_trip_and_errors() {
    let mut kv = MemoryKvStore::new();
    save_watched_timers(&mut kv, &vec!["a.timer".to_string()]).unwrap();
    assert_eq!(get_watched_timers(&kv).unwrap(), vec!["a.timer".to_string()]);
    kv.set("watched_timers", "{not json").unwrap();
    assert!(matches!(get_watched_timers(&kv), Err(TimerError::JsonError(_))));
    kv.set("watched_services", "[1,2]").unwrap();
    assert!(matches!(get_watched_services(&kv), Err(ServiceError::ParseError(_))));
}

#[test]
fn stored_value_decoding() {
    assert_eq!(watched_from_stored(None), Some(Vec::new()));
    assert_eq!(watched_from_stored(Some("[\"x\"]".to_string())), Some(vec!["x".to_string()]));
    assert_eq!(watched_from_stored(Some("\"x\"".to_string())), None);
}

#[test]
fn memory_store_replaces_and_removes() {
    let mut kv = MemoryKvStore::new();
    kv.store("a", "1");
    kv.store("b", "2");
    kv.store("a", "3");
    assert_eq!(kv.lookup("a"), Some("3".to_string()));
    kv.remove("a");
    assert_eq!(kv.lookup("a"), None);
    assert_eq!(kv.lookup("b"), Some("2".to_string()));
    kv.delete("b").unwrap();
    assert_eq!(kv.get("b").unwrap(), None);
}

fn overview(executor: &MockCommandExecutor, kv: &MemoryKvStore) -> Vec<ServiceStatusResponse> {
    watched_service_rows(executor, &get_watched_services(kv).unwrap())
}

const SHOW: &str = "--property=ActiveState,SubState,MainPID,ActiveEnterTimestamp";

#[test]
fn test_get_services_empty_list() {
    let body = overview(&MockCommandExecutor::new(), &MemoryKvStore::new());
    assert_eq!(body.len(), 0);
}

#[test]
fn test_get_services_with_watched_services() {
    let executor = MockCommandExecutor::new().with_response(
        "systemctl",
        &["show", "nginx.service", SHOW],
        CommandOutput {
            exit_code: 0,
            stdout: "ActiveState=active\nSubState=running\nMainPID=1234\nActiveEnterTimestamp=Wed 2024-01-10 10:00:00 UTC\n".to_string(),
            stderr: String::new(),
        },
    );
    let mut kv = MemoryKvStore::new();
    kv.store("watched_services", r#"["nginx.service"]"#);
    let body = overview(&executor, &kv);
    assert_eq!(body.len(), 1);
    assert_eq!(body[0].name, "nginx.service");
    assert_eq!(body[0].status, "running");
    assert_eq!(body[0].active_state, "active");
}

#[test]
fn test_get_services_handles_failures_gracefully() {
    let executor = MockCommandExecutor::new().with_response(
        "systemctl",
        &["show", "nonexistent.service", SHOW],
        CommandOutput {
            exit_code: 5,
            stdout: String::new(),
            stderr: "Unit nonexistent.service could not be found.".to_string(),
        },
    );
    let mut kv = MemoryKvStore::new();
    kv.store("watched_services", r#"["nonexistent.service"]"#);
    let body = overview(&executor, &kv);
    assert_eq!(body.len(), 1);
    assert_eq!(body[0].name, "nonexistent.service");
    assert_eq!(body[0].status, "unknown");
}
