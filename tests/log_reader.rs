use systemd_units::executor::{CommandOutput, MockCommandExecutor};
use systemd_units::journal::ExecutionStatus;
use systemd_units::log_reader::{select_log_files, LogReader};

fn reader() -> LogReader<MockCommandExecutor> {
    LogReader::new(MockCommandExecutor::new())
}

#[test]
fn test_filename_to_datetime() {
    assert_eq!(
        LogReader::<MockCommandExecutor>::filename_to_datetime("2026-01-15_140000"),
        "2026-01-15 14:00:00"
    );
    assert_eq!(
        LogReader::<MockCommandExecutor>::filename_to_datetime("2026-01-15_093045"),
        "2026-01-15 09:30:45"
    );
}

#[test]
fn filename_to_datetime_keeps_short_names() {
    assert_eq!(LogReader::<MockCommandExecutor>::filename_to_datetime("2026-01-15"), "2026-01-15");
}

#[test]
fn test_extract_value() {
    let line = "[END] 2026-01-15T14:00:45+01:00 exit_code=0 duration=45s";
    assert_eq!(LogReader::<MockCommandExecutor>::extract_value(line, "exit_code="), Some("0".to_string()));
    assert_eq!(LogReader::<MockCommandExecutor>::extract_value(line, "duration="), Some("45s".to_string()));
}

#[test]
fn extract_value_missing_and_empty() {
    assert_eq!(LogReader::<MockCommandExecutor>::extract_value("a b", "exit_code="), None);
    assert_eq!(LogReader::<MockCommandExecutor>::extract_value("x exit_code=", "exit_code="), Some(String::new()));
}

#[test]
fn test_parse_end_line() {
    let reader = reader();
    let line = "[END] 2026-01-15T14:00:45+01:00 exit_code=0 duration=45s";
    let (end_time, exit_code, duration, status) = reader.parse_end_line(line);
    assert_eq!(end_time, Some("2026-01-15T14:00:45+01:00".to_string()));
    assert_eq!(exit_code, Some(0));
    assert_eq!(duration, Some(45));
    assert_eq!(status, ExecutionStatus::Success);
}

#[test]
fn test_parse_end_line_failed() {
    let reader = reader();
    let line = "[END] 2026-01-15T14:02:00+01:00 exit_code=1 duration=120s";
    let (_end_time, exit_code, duration, status) = reader.parse_end_line(line);
    assert_eq!(exit_code, Some(1));
    assert_eq!(duration, Some(120));
    assert_eq!(status, ExecutionStatus::Failed);
}

#[test]
fn test_parse_end_line_no_end() {
    let reader = reader();
    let line = "Some random log line";
    let (end_time, exit_code, duration, status) = reader.parse_end_line(line);
    assert_eq!(end_time, None);
    assert_eq!(exit_code, None);
    assert_eq!(duration, None);
    assert_eq!(status, ExecutionStatus::Running);
}

#[test]
fn parse_end_line_without_exit_code_is_success() {
    let (end_time, exit_code, duration, status) = reader().parse_end_line("[END]");
    assert_eq!(end_time, None);
    assert_eq!(exit_code, None);
    assert_eq!(duration, None);
    assert_eq!(status, ExecutionStatus::Success);
}

#[test]
fn log_file_details_split_output() {
    let content = "[START] 2026-01-15T14:00:00\nfetching\ndone\n[END] 2026-01-15T14:00:45 exit_code=2 duration=45s\n";
    let d = reader().parse_log_file_details(content, "2026-01-15_140000").unwrap();
    assert_eq!(d.invocation_id, "2026-01-15_140000");
    assert_eq!(d.start_time, "2026-01-15 14:00:00");
    assert_eq!(d.end_time, Some("2026-01-15T14:00:45".to_string()));
    assert_eq!(d.exit_code, Some(2));
    assert_eq!(d.duration_secs, Some(45));
    assert_eq!(d.status, ExecutionStatus::Failed);
    assert_eq!(d.output, vec!["fetching".to_string(), "done".to_string()]);
    assert!(reader().parse_log_file_details("", "x").is_err());
    let running = reader().parse_log_file_details("[START] t\nworking", "2026-01-15_140000").unwrap();
    assert_eq!(running.status, ExecutionStatus::Running);
}

#[test]
fn file_history_from_listing() {
    let mock = MockCommandExecutor::new()
        .with_stdout("ls", &["-1t", "/var/log/timers/backup"], "2026-01-15_140000.log\nlatest.log\n2026-01-14_140000.log\nnotes.txt\n")
        .with_stdout("tail", &["-n", "1", "/var/log/timers/backup/2026-01-15_140000.log"], "[END] t exit_code=0 duration=5s\n")
        .with_response("tail", &["-n", "1", "/var/log/timers/backup/2026-01-14_140000.log"], CommandOutput {
            exit_code: 0,
            stdout: "still going\n".to_string(),
            stderr: String::new(),
        });
    let r = LogReader::new(mock);
    let h = r.get_execution_history("backup.service", 10).unwrap();
    assert_eq!(h.len(), 2);
    assert_eq!(h[0].invocation_id, "2026-01-15_140000");
    assert_eq!(h[0].status, ExecutionStatus::Success);
    assert_eq!(h[0].duration_secs, Some(5));
    assert_eq!(h[1].status, ExecutionStatus::Running);
    let one = r.get_execution_history("backup.service", 1).unwrap();
    assert_eq!(one.len(), 1);
    assert!(r.get_execution_history("bad;name.service", 1).is_err());
}

#[test]
fn file_details_missing_is_not_found() {
    let mock = MockCommandExecutor::new().with_error("cat", &["/var/log/timers/backup/x.log"], 1, "No such file");
    let r = LogReader::new(mock);
    let e = r.get_execution_details("backup.service", "x").unwrap_err();
    assert!(matches!(e, systemd_units::error::TimerError::NotFound(_)));
}

#[test]
fn file_details_reject_escaping_timestamp() {
    let r = LogReader::new(MockCommandExecutor::new());
    for bad in ["../../etc/passwd", "", "a b", "x.log"] {
        assert!(matches!(
            r.get_execution_details("backup.service", bad),
            Err(systemd_units::error::TimerError::InvalidInput(_))
        ));
    }
}

#[test]
fn listing_selects_log_files_in_order() {

    let listing = "b.log\nlatest.log\nnotes.txt\na.log\nc.log\n";
    let picked: Vec<String> = select_log_files(listing, 2).into_iter().map(|v| v.into_iter().collect()).collect();
    assert_eq!(picked, vec!["b.log".to_string(), "a.log".to_string()]);
    assert_eq!(select_log_files(listing, 10).len(), 3);
    assert_eq!(select_log_files(listing, 0).len(), 0);
}
