use systemd_units::error::ServiceError;
use systemd_units::executor::{CommandExecutor, CommandOutput, MockCommandExecutor, SystemCommandExecutor};
use systemd_units::services::{
    get_logs, get_service_status, list_services, parse_journalctl_error, parse_logs,
    parse_service_list, parse_service_status, parse_systemctl_error, restart_service,
    start_service, stop_service, validate_service_name,
};

const SHOW: &str = "--property=ActiveState,SubState,MainPID,ActiveEnterTimestamp";
const LIST: [&str; 6] = ["list-units", "--type=service", "--all", "--no-pager", "--plain", "--no-legend"];

#[test]
fn test_parse_service_list() {
    let output = r#"nginx.service                  loaded active   running NGINX HTTP Server
postgresql.service             loaded active   running PostgreSQL Database
failed-service.service         loaded failed   failed  Failed Service
inactive.service               loaded inactive dead    Inactive Service"#;
    let services = parse_service_list(output).unwrap();
    assert_eq!(services.len(), 4);
    assert_eq!(services[0].name, "nginx.service");
    assert_eq!(services[0].active_state, "active");
    assert_eq!(services[0].sub_state, "running");
    assert!(services[0].description.contains("NGINX"));
    assert_eq!(services[2].name, "failed-service.service");
    assert_eq!(services[2].active_state, "failed");
}

#[test]
fn test_parse_service_list_empty() {
    let services = parse_service_list("").unwrap();
    assert_eq!(services.len(), 0);
}

#[test]
fn service_list_skips_malformed_row() {
    let output = "a.service loaded active running A\nb.service loaded failed\nc.service loaded inactive dead\nd.service loaded active exited Long   description here\n";
    let services = parse_service_list(output).unwrap();
    assert_eq!(services.len(), 3);
    assert_eq!(services[1].name, "c.service");
    assert_eq!(services[1].description, "");
    assert_eq!(services[2].description, "Long description here");
}

#[test]
fn test_parse_service_status_running() {
    let output = "ActiveState=active\nSubState=running\nMainPID=1234\nActiveEnterTimestamp=1705315845000000";
    let status = parse_service_status("nginx", output).unwrap();
    assert_eq!(status.name, "nginx");
    assert_eq!(status.active_state, "active");
    assert_eq!(status.sub_state, "running");
    assert_eq!(status.main_pid, Some(1234));
    assert!(status.uptime_seconds > 0);
}

#[test]
fn test_parse_service_status_stopped() {
    let output = "ActiveState=inactive\nSubState=dead\nMainPID=0\nActiveEnterTimestamp=";
    let status = parse_service_status("stopped-service", output).unwrap();
    assert_eq!(status.active_state, "inactive");
    assert_eq!(status.sub_state, "dead");
    assert_eq!(status.main_pid, None);
    assert_eq!(status.uptime_seconds, 0);
}

#[test]
fn test_parse_service_status_failed() {
    let output = "ActiveState=failed\nSubState=failed\nMainPID=0\nActiveEnterTimestamp=1705315845000000";
    let status = parse_service_status("failed-service", output).unwrap();
    assert_eq!(status.active_state, "failed");
    assert_eq!(status.sub_state, "failed");
}

#[test]
fn test_parse_service_status_missing_fields() {
    let result = parse_service_status("test", "ActiveState=active");
    assert!(result.is_err());
    assert!(matches!(result.unwrap_err(), ServiceError::ParseError(_)));
}

#[test]
fn service_status_reads_rfc3339_and_uptime() {
    let now = systemd_units::clock::UtcTime { seconds: 1705315905, nanos: 0 };
    let s = systemd_units::services::parse_service_status_at(
        "x",
        "ActiveState=active\nSubState=running\nActiveEnterTimestamp=2024-01-15T10:50:45Z",
        now,
    )
    .unwrap();
    assert_eq!(s.active_enter_timestamp.unwrap().seconds, 1705315845);
    assert_eq!(s.uptime_seconds, 60);
    let later = systemd_units::services::parse_service_status_at(
        "x",
        "ActiveState=active\nSubState=running\nActiveEnterTimestamp=1705315995000000",
        now,
    )
    .unwrap();
    assert_eq!(later.uptime_seconds, 0);
}

#[test]
fn test_parse_logs() {
    let output = r#"{"MESSAGE":"Service started","PRIORITY":"6","__REALTIME_TIMESTAMP":"1705315845000000"}
{"MESSAGE":"Error occurred","PRIORITY":"3","__REALTIME_TIMESTAMP":"1705315846000000"}
{"MESSAGE":"Debug info","PRIORITY":"7","__REALTIME_TIMESTAMP":"1705315847000000"}"#;
    let logs = parse_logs(output).unwrap();
    assert_eq!(logs.len(), 3);
    assert_eq!(logs[0].message, "Service started");
    assert_eq!(logs[0].priority, 6);
    assert_eq!(logs[1].message, "Error occurred");
    assert_eq!(logs[1].priority, 3);
    assert_eq!(logs[2].message, "Debug info");
    assert_eq!(logs[2].priority, 7);
    assert_eq!(logs[2].timestamp.seconds, 1705315847);
}

#[test]
fn test_parse_logs_empty() {
    let logs = parse_logs("").unwrap();
    assert_eq!(logs.len(), 0);
}

#[test]
fn test_parse_logs_invalid_json() {
    let result = parse_logs("not valid json");
    assert!(result.is_err());
    assert!(matches!(result.unwrap_err(), ServiceError::ParseError(_)));
}

#[test]
fn test_parse_logs_missing_fields() {
    let output = r#"{"MESSAGE":"Test message","__REALTIME_TIMESTAMP":"1705315845000000"}"#;
    let logs = parse_logs(output).unwrap();
    assert_eq!(logs.len(), 1);
    assert_eq!(logs[0].priority, 6);
}

#[test]
fn logs_keep_microseconds_and_default_time() {
    let now = systemd_units::clock::UtcTime { seconds: 42, nanos: 7 };
    let logs = systemd_units::services::parse_logs_at(
        "{\"__REALTIME_TIMESTAMP\":\"1705315845123456\",\"PRIORITY\":\"300\"}\n{\"MESSAGE\":5}\n",
        now,
    )
    .unwrap();
    assert_eq!(logs[0].timestamp.seconds, 1705315845);
    assert_eq!(logs[0].timestamp.nanos, 123456000);
    assert_eq!(logs[0].priority, 6);
    assert_eq!(logs[1].timestamp, now);
    assert_eq!(logs[1].message, "");
}

#[test]
fn test_validate_service_name_valid() {
    assert!(validate_service_name("nginx").is_ok());
    assert!(validate_service_name("chfscraper@rest").is_ok());
    assert!(validate_service_name("my-service_123").is_ok());
    assert!(validate_service_name("service.name").is_ok());
}

#[test]
fn test_validate_service_name_invalid() {
    assert!(validate_service_name("").is_err());
    let result = validate_service_name("my service");
    assert!(result.is_err());
    assert!(matches!(result.unwrap_err(), ServiceError::InvalidServiceName(_)));
    assert!(validate_service_name("../../etc/passwd").is_err());
    assert!(validate_service_name("nginx; rm -rf /").is_err());
    assert!(validate_service_name("service$name").is_err());
}

#[test]
fn validator_rejects_metacharacters_and_whitespace() {
    for bad in ["a;b", "a|b", "a`b", "a$b", "a&b", "a\tb", "a\nb", "a\u{a0}b", "ß"] {
        assert!(matches!(validate_service_name(bad), Err(ServiceError::InvalidServiceName(_))), "{}", bad);
    }
}

#[test]
fn validator_verdict_is_stable() {
    for name in ["nginx", "bad name", ""] {
        let first = validate_service_name(name).is_ok();
        let second = validate_service_name(name).is_ok();
        assert_eq!(first, second);
    }
}

#[test]
fn test_list_services_success() {
    let output = "nginx.service                  loaded active   running NGINX HTTP Server\npostgresql.service             loaded active   running PostgreSQL Database\nredis.service                  loaded inactive dead    Redis Server";
    let executor = MockCommandExecutor::new().with_stdout("systemctl", &LIST, output);
    let services = list_services(&executor).unwrap();
    assert_eq!(services.len(), 3);
    assert_eq!(services[0].name, "nginx.service");
    assert_eq!(services[0].active_state, "active");
    assert_eq!(services[1].name, "postgresql.service");
    assert_eq!(services[2].active_state, "inactive");
}

#[test]
fn test_list_services_empty() {
    let executor = MockCommandExecutor::new().with_stdout("systemctl", &LIST, "");
    let services = list_services(&executor).unwrap();
    assert_eq!(services.len(), 0);
}

#[test]
fn test_get_service_status_running() {
    let output = "ActiveState=active\nSubState=running\nMainPID=1234\nActiveEnterTimestamp=1705315845000000";
    let executor = MockCommandExecutor::new().with_stdout("systemctl", &["show", "nginx", SHOW], output);
    let status = get_service_status(&executor, "nginx").unwrap();
    assert_eq!(status.name, "nginx");
    assert_eq!(status.active_state, "active");
    assert_eq!(status.sub_state, "running");
    assert_eq!(status.main_pid, Some(1234));
    assert!(status.uptime_seconds > 0);
}

#[test]
fn test_get_service_status_stopped() {
    let output = "ActiveState=inactive\nSubState=dead\nMainPID=0\nActiveEnterTimestamp=";
    let executor = MockCommandExecutor::new().with_stdout("systemctl", &["show", "stopped-service", SHOW], output);
    let status = get_service_status(&executor, "stopped-service").unwrap();
    assert_eq!(status.active_state, "inactive");
    assert_eq!(status.sub_state, "dead");
    assert_eq!(status.main_pid, None);
    assert_eq!(status.uptime_seconds, 0);
}

#[test]
fn test_get_service_status_failed() {
    let output = "ActiveState=failed\nSubState=failed\nMainPID=0\nActiveEnterTimestamp=1705315845000000";
    let executor = MockCommandExecutor::new().with_stdout("systemctl", &["show", "failed-service", SHOW], output);
    let status = get_service_status(&executor, "failed-service").unwrap();
    assert_eq!(status.active_state, "failed");
    assert_eq!(status.sub_state, "failed");
}

#[test]
fn service_status_five_seconds_ago() {
    let now = std::time::SystemTime::now().duration_since(std::time::UNIX_EPOCH).unwrap();
    let micros = now.as_micros() as u64 - 5_000_000;
    let output = format!("ActiveState=active\nSubState=running\nMainPID=1234\nActiveEnterTimestamp={}", micros);
    let executor = MockCommandExecutor::new().with_stdout("systemctl", &["show", "web", SHOW], &output);
    let status = get_service_status(&executor, "web").unwrap();
    assert_eq!(status.active_state, "active");
    assert_eq!(status.main_pid, Some(1234));
    assert!(status.uptime_seconds >= 4 && status.uptime_seconds <= 6, "{}", status.uptime_seconds);
}

#[test]
fn test_start_service_success() {
    let executor = MockCommandExecutor::new().with_stdout("systemctl", &["start", "nginx"], "");
    assert!(start_service(&executor, "nginx").is_ok());
}

#[test]
fn test_start_service_not_found() {
    let executor = MockCommandExecutor::new().with_error("systemctl", &["start", "nonexistent"], 5, "Unit nonexistent.service not found.");
    let err = start_service(&executor, "nonexistent").unwrap_err();
    assert!(matches!(err, ServiceError::ServiceNotFound(_)));
}

#[test]
fn test_start_service_permission_denied() {
    let executor = MockCommandExecutor::new().with_error("systemctl", &["start", "protected"], 4, "Access denied");
    let err = start_service(&executor, "protected").unwrap_err();
    assert!(matches!(err, ServiceError::PermissionDenied(_)));
}

#[test]
fn start_service_other_status_is_command_failed() {
    let executor = MockCommandExecutor::new().with_error("systemctl", &["start", "x"], 1, "boom");
    let err = start_service(&executor, "x").unwrap_err();
    assert!(matches!(err, ServiceError::CommandFailed { exit_code: 1, .. }));
}

#[test]
fn test_stop_service_success() {
    let executor = MockCommandExecutor::new().with_stdout("systemctl", &["stop", "nginx"], "");
    assert!(stop_service(&executor, "nginx").is_ok());
}

#[test]
fn test_restart_service_success() {
    let executor = MockCommandExecutor::new().with_stdout("systemctl", &["restart", "nginx"], "");
    assert!(restart_service(&executor, "nginx").is_ok());
}

#[test]
fn test_get_logs_success() {
    let output = r#"{"MESSAGE":"Service started","PRIORITY":"6","__REALTIME_TIMESTAMP":"1705315845000000"}
{"MESSAGE":"Processing request","PRIORITY":"6","__REALTIME_TIMESTAMP":"1705315846000000"}
{"MESSAGE":"Error occurred","PRIORITY":"3","__REALTIME_TIMESTAMP":"1705315847000000"}"#;
    let executor = MockCommandExecutor::new().with_stdout("journalctl", &["-u", "nginx", "-n", "100", "--no-pager", "--output=json"], output);
    let logs = get_logs(&executor, "nginx", 100).unwrap();
    assert_eq!(logs.len(), 3);
    assert_eq!(logs[0].message, "Service started");
    assert_eq!(logs[0].priority, 6);
    assert_eq!(logs[2].message, "Error occurred");
    assert_eq!(logs[2].priority, 3);
}

#[test]
fn test_get_logs_empty() {
    let executor = MockCommandExecutor::new().with_stdout("journalctl", &["-u", "new-service", "-n", "50", "--no-pager", "--output=json"], "");
    let logs = get_logs(&executor, "new-service", 50).unwrap();
    assert_eq!(logs.len(), 0);
}

#[test]
fn tests_test_get_logs_service_not_found() {
    let executor = MockCommandExecutor::new().with_error(
        "journalctl",
        &["-u", "nonexistent", "-n", "100", "--no-pager", "--output=json"],
        1,
        "Unit nonexistent.service does not exist",
    );
    let err = get_logs(&executor, "nonexistent", 100).unwrap_err();
    assert!(matches!(err, ServiceError::ServiceNotFound(_)));
}

#[test]
fn get_logs_no_entries_is_empty() {
    let executor = MockCommandExecutor::new().with_error("journalctl", &["-u", "x", "-n", "5", "--no-pager", "--output=json"], 1, "-- No entries --");
    assert_eq!(get_logs(&executor, "x", 5).unwrap().len(), 0);
}

#[test]
fn test_get_logs_custom_line_count() {
    let output = r#"{"MESSAGE":"Log line 1","PRIORITY":"6","__REALTIME_TIMESTAMP":"1705315845000000"}
{"MESSAGE":"Log line 2","PRIORITY":"6","__REALTIME_TIMESTAMP":"1705315846000000"}"#;
    let executor = MockCommandExecutor::new().with_stdout("journalctl", &["-u", "nginx", "-n", "50", "--no-pager", "--output=json"], output);
    let logs = get_logs(&executor, "nginx", 50).unwrap();
    assert_eq!(logs.len(), 2);
}

#[test]
fn test_service_name_injection_prevention() {
    let executor = MockCommandExecutor::new();
    let injection_attempts = vec![
        "nginx; rm -rf /",
        "../../../etc/passwd",
        "service$name",
        "service`whoami`",
        "service$(whoami)",
        "service|cat /etc/passwd",
        "service&& rm -rf /",
    ];
    for attempt in injection_attempts {
        let result = start_service(&executor, attempt);
        assert!(result.is_err(), "Should reject injection attempt: {}", attempt);
        assert!(matches!(result.unwrap_err(), ServiceError::InvalidServiceName(_)));
    }
}

#[test]
fn error_mapping_table() {
    let out = |code: i32, err: &str| CommandOutput { exit_code: code, stdout: String::new(), stderr: err.to_string() };
    assert!(matches!(parse_systemctl_error(&out(4, "x")), ServiceError::PermissionDenied(_)));
    assert!(matches!(parse_systemctl_error(&out(5, "x")), ServiceError::ServiceNotFound(_)));
    assert!(matches!(parse_systemctl_error(&out(3, "x")), ServiceError::CommandFailed { exit_code: 3, .. }));
    assert!(matches!(parse_journalctl_error(&out(1, "unit not found")), ServiceError::ServiceNotFound(_)));
    assert!(matches!(parse_journalctl_error(&out(2, "other")), ServiceError::CommandFailed { exit_code: 2, .. }));
}

#[test]
fn test_mock_executor_with_stdout() {
    let executor = MockCommandExecutor::new().with_stdout("echo", &["hello"], "hello\n");
    let output = executor.execute("echo", &["hello"]).unwrap();
    assert_eq!(output.exit_code, 0);
    assert_eq!(output.stdout, "hello\n");
    assert_eq!(output.stderr, "");
}

#[test]
fn test_mock_executor_with_error() {
    let executor = MockCommandExecutor::new().with_error("systemctl", &["start", "nginx"], 5, "Unit not found");
    let output = executor.execute("systemctl", &["start", "nginx"]).unwrap();
    assert_eq!(output.exit_code, 5);
    assert_eq!(output.stderr, "Unit not found");
}

#[test]
fn test_mock_executor_missing_command() {
    let executor = MockCommandExecutor::new();
    let result = executor.execute("unknown", &["command"]);
    assert!(result.is_err());
    assert!(matches!(result.unwrap_err(), ServiceError::Other(_)));
}

#[test]
fn mock_later_answer_wins() {
    let executor = MockCommandExecutor::new()
        .with_stdout("a", &["b"], "first")
        .with_stdout("a", &["b"], "second");
    assert_eq!(executor.execute("a", &["b"]).unwrap().stdout, "second");
    assert!(executor.execute("a", &[]).is_err());
}

#[test]
fn system_executor_settings() {
    assert_eq!(SystemCommandExecutor::new().timeout_secs, 10);
    assert_eq!(SystemCommandExecutor::with_timeout(3).timeout_secs, 3);
}
