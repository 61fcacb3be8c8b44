use systemd_units::executor::{CommandOutput, MockCommandExecutor};
use systemd_units::journal::{ExecutionStatus, JournalClient, JournalEntry, TriggerType};

fn history_cmd() -> [&'static str; 7] {
    ["-u", "test.service", "--since", "7 days ago", "-o", "json", "--no-pager"]
}

fn out(stdout: &str) -> CommandOutput {
    CommandOutput { stdout: stdout.to_string(), stderr: String::new(), exit_code: 0 }
}

fn entry(message: &str) -> JournalEntry {
    JournalEntry {
        invocation_id: Some("test".to_string()),
        timestamp: Some("123".to_string()),
        message: Some(message.to_string()),
        exit_status: None,
        unit: Some("test.service".to_string()),
    }
}

#[test]
fn test_calculate_duration() {
    let start = "1705320000000000";
    let end = "1705320120000000";
    let duration = JournalClient::<MockCommandExecutor>::calculate_duration(start, end);
    assert_eq!(duration, Some(120));
}

#[test]
fn test_calculate_duration_invalid() {
    let duration = JournalClient::<MockCommandExecutor>::calculate_duration("invalid", "123");
    assert_eq!(duration, None);
    let duration = JournalClient::<MockCommandExecutor>::calculate_duration("100", "50");
    assert_eq!(duration, None);
}

#[test]
fn test_format_timestamp() {
    let formatted = JournalClient::<MockCommandExecutor>::format_timestamp("1705320000000000");
    assert!(formatted.starts_with("2024-01-15"));
}

#[test]
fn format_timestamp_exact() {
    assert_eq!(
        JournalClient::<MockCommandExecutor>::format_timestamp("1705320000000000"),
        "2024-01-15 12:00:00"
    );
    assert_eq!(JournalClient::<MockCommandExecutor>::format_timestamp("-1500000"), "1969-12-31 23:59:59");
}

#[test]
fn test_format_timestamp_invalid() {
    let formatted = JournalClient::<MockCommandExecutor>::format_timestamp("invalid");
    assert_eq!(formatted, "invalid");
}

#[test]
fn test_get_execution_history_success() {
    let mock = MockCommandExecutor::new().with_response("journalctl", &history_cmd(), out(
        r#"{"INVOCATION_ID":"abc123","__REALTIME_TIMESTAMP":"1705320000000000","MESSAGE":"Starting","_SYSTEMD_UNIT":"test.service"}
{"INVOCATION_ID":"abc123","__REALTIME_TIMESTAMP":"1705320045000000","EXIT_STATUS":"0","_SYSTEMD_UNIT":"test.service"}
"#,
    ));
    let client = JournalClient::new(mock);
    let history = client.get_execution_history("test.service", 10).unwrap();
    assert_eq!(history.len(), 1);
    assert_eq!(history[0].invocation_id, "abc123");
    assert_eq!(history[0].status, ExecutionStatus::Success);
    assert_eq!(history[0].duration_secs, Some(45));
}

#[test]
fn test_get_execution_history_failed() {
    let mock = MockCommandExecutor::new().with_response("journalctl", &history_cmd(), out(
        r#"{"INVOCATION_ID":"def456","__REALTIME_TIMESTAMP":"1705320000000000","MESSAGE":"Starting","_SYSTEMD_UNIT":"test.service"}
{"INVOCATION_ID":"def456","__REALTIME_TIMESTAMP":"1705320120000000","EXIT_STATUS":"1","_SYSTEMD_UNIT":"test.service"}
"#,
    ));
    let client = JournalClient::new(mock);
    let history = client.get_execution_history("test.service", 10).unwrap();
    assert_eq!(history.len(), 1);
    assert_eq!(history[0].status, ExecutionStatus::Failed);
    assert_eq!(history[0].exit_code, Some(1));
}

#[test]
fn test_get_execution_history_running() {
    let mock = MockCommandExecutor::new().with_response("journalctl", &history_cmd(), out(
        r#"{"INVOCATION_ID":"ghi789","__REALTIME_TIMESTAMP":"1705320000000000","MESSAGE":"Starting","_SYSTEMD_UNIT":"test.service"}"#,
    ));
    let client = JournalClient::new(mock);
    let history = client.get_execution_history("test.service", 10).unwrap();
    assert_eq!(history.len(), 1);
    // No record carries an exit status: the run has not ended.
    assert_eq!(history[0].status, ExecutionStatus::Running);
    assert_eq!(history[0].duration_secs, None);
    assert_eq!(history[0].end_time, None);
}

#[test]
fn test_get_execution_history_limit() {
    let mut entries = Vec::new();
    for i in 0..50u64 {
        entries.push(format!(
            r#"{{"INVOCATION_ID":"inv{}","__REALTIME_TIMESTAMP":"{}","MESSAGE":"Test","EXIT_STATUS":"0","_SYSTEMD_UNIT":"test.service"}}"#,
            i,
            1705320000000000u64 + (i * 1000000)
        ));
    }
    let mock = MockCommandExecutor::new().with_response("journalctl", &history_cmd(), out(&entries.join("\n")));
    let client = JournalClient::new(mock);
    let history = client.get_execution_history("test.service", 10).unwrap();
    assert_eq!(history.len(), 10);
    assert_eq!(history[0].invocation_id, "inv49");
    assert_eq!(history[9].invocation_id, "inv40");
}

#[test]
fn history_fails_on_command_error() {
    let mock = MockCommandExecutor::new().with_error("journalctl", &history_cmd(), 1, "boom");
    let client = JournalClient::new(mock);
    assert!(client.get_execution_history("test.service", 10).is_err());
}

#[test]
fn test_get_execution_details() {
    let mock = MockCommandExecutor::new().with_response(
        "journalctl",
        &["-u", "test.service", "INVOCATION_ID=abc123", "-o", "json", "--no-pager"],
        out(r#"{"INVOCATION_ID":"abc123","__REALTIME_TIMESTAMP":"1705320000000000","MESSAGE":"Starting scrape...","_SYSTEMD_UNIT":"test.service"}
{"INVOCATION_ID":"abc123","__REALTIME_TIMESTAMP":"1705320005000000","MESSAGE":"Proxy enabled","_SYSTEMD_UNIT":"test.service"}
{"INVOCATION_ID":"abc123","__REALTIME_TIMESTAMP":"1705320045000000","MESSAGE":"Complete","EXIT_STATUS":"0","_SYSTEMD_UNIT":"test.service"}
"#),
    );
    let client = JournalClient::new(mock);
    let details = client.get_execution_details("test.service", "abc123").unwrap();
    assert_eq!(details.invocation_id, "abc123");
    assert_eq!(details.output.len(), 3);
    assert!(details.output[0].contains("Starting scrape"));
    assert_eq!(details.status, ExecutionStatus::Success);
}

#[test]
fn test_parse_journal_entries_malformed() {
    let client = JournalClient::new(MockCommandExecutor::new());
    let output = r#"{"valid":"json"}
not json at all
{"INVOCATION_ID":"test"}
"#;
    let entries = client.parse_journal_entries(output).unwrap();
    assert_eq!(entries.len(), 2);
}

#[test]
fn journal_entries_skip_wrongly_typed_fields() {
    let client = JournalClient::new(MockCommandExecutor::new());
    let entries = client.parse_journal_entries("{\"INVOCATION_ID\":5}\n[1,2]\n\n{\"MESSAGE\":null}\n").unwrap();
    assert_eq!(entries.len(), 1);
    assert_eq!(entries[0].message, None);
}

#[test]
fn test_determine_trigger_scheduled() {
    let client = JournalClient::new(MockCommandExecutor::new());
    let entries = vec![entry("Started by timer")];
    assert_eq!(client.determine_trigger(&entries), TriggerType::Scheduled);
}

#[test]
fn test_determine_trigger_manual() {
    let client = JournalClient::new(MockCommandExecutor::new());
    let entries = vec![entry("Started manually via systemctl start")];
    assert_eq!(client.determine_trigger(&entries), TriggerType::Manual);
}

#[test]
fn trigger_defaults_to_scheduled_and_first_keyword_wins() {
    let client = JournalClient::new(MockCommandExecutor::new());
    assert_eq!(client.determine_trigger(&vec![entry("hello")]), TriggerType::Scheduled);
    assert_eq!(
        client.determine_trigger(&vec![entry("nothing"), entry("manual run"), entry("timer")]),
        TriggerType::Manual
    );
}

#[test]
fn grouping_two_lines_45_seconds_apart() {
    let client = JournalClient::new(MockCommandExecutor::new());
    let entries = client
        .parse_journal_entries(
            "{\"INVOCATION_ID\":\"a\",\"__REALTIME_TIMESTAMP\":\"1000000000\"}\n{\"INVOCATION_ID\":\"a\",\"__REALTIME_TIMESTAMP\":\"1045000000\",\"EXIT_STATUS\":\"0\"}\n",
        )
        .unwrap();
    let h = client.group_by_invocation(&entries, 5).unwrap();
    assert_eq!(h.len(), 1);
    assert_eq!(h[0].status, ExecutionStatus::Success);
    assert_eq!(h[0].duration_secs, Some(45));
    assert_eq!(h[0].exit_code, Some(0));
}

#[test]
fn grouping_start_line_only_is_running() {
    let client = JournalClient::new(MockCommandExecutor::new());
    let entries = client
        .parse_journal_entries("{\"INVOCATION_ID\":\"a\",\"__REALTIME_TIMESTAMP\":\"1000000000\"}\n")
        .unwrap();
    let h = client.group_by_invocation(&entries, 5).unwrap();
    assert_eq!(h[0].status, ExecutionStatus::Running);
    assert_eq!(h[0].duration_secs, None);
}

#[test]
fn grouping_orders_latest_first_and_fails_without_start() {
    let client = JournalClient::new(MockCommandExecutor::new());
    let entries = client
        .parse_journal_entries(
            "{\"INVOCATION_ID\":\"old\",\"__REALTIME_TIMESTAMP\":\"100\"}\n{\"INVOCATION_ID\":\"new\",\"__REALTIME_TIMESTAMP\":\"200\"}\n{\"INVOCATION_ID\":\"old\",\"__REALTIME_TIMESTAMP\":\"300\",\"EXIT_STATUS\":\"3\"}\n{\"MESSAGE\":\"no id\"}\n",
        )
        .unwrap();
    let h = client.group_by_invocation(&entries, 10).unwrap();
    assert_eq!(h.len(), 2);
    assert_eq!(h[0].invocation_id, "new");
    assert_eq!(h[1].invocation_id, "old");
    assert_eq!(h[1].status, ExecutionStatus::Failed);
    assert_eq!(h[1].exit_code, Some(3));
    assert_eq!(client.group_by_invocation(&entries, 0).unwrap().len(), 0);
    let bad = client.parse_journal_entries("{\"INVOCATION_ID\":\"x\"}\n").unwrap();
    assert!(client.group_by_invocation(&bad, 10).is_err());
}

#[test]
fn format_timestamp_range_edges() {
    let f = JournalClient::<MockCommandExecutor>::format_timestamp;
    assert_eq!(f("8210266876799000000"), "+262142-12-31 23:59:59");
    assert_eq!(f("8210266876800000000"), "8210266876800000000");
    assert_eq!(f("-8334601228800000000"), "-262143-01-01 00:00:00");
    assert_eq!(f("-8334601228801000000"), "-8334601228801000000");
}
