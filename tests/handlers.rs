use systemd_units::executor::{CommandOutput, MockCommandExecutor};
use systemd_units::handlers::{
    count_param, parse_query_params, path_without_query, query_param, service_for_timer,
    watched_service_rows, with_log_tail, AvailableTimerResponse, ServiceStatusResponse,
    TimerStatusResponse,
};
use systemd_units::handlers::{details_with_log_file, watched_timer_rows};
use systemd_units::journal::{ExecutionDetails, ExecutionStatus, JournalClient, TriggerType};
use systemd_units::timers::{SystemctlClient, TimerInfo};

#[test]
fn handlers_test_parse_query_params() {
    let params = parse_query_params("/timers/test.timer/history?limit=50&offset=10");
    assert_eq!(query_param(&params, "limit"), Some("50".to_string()));
    assert_eq!(query_param(&params, "offset"), Some("10".to_string()));
}

#[test]
fn tests_test_parse_query_params() {
    let params = parse_query_params("/services/nginx/logs?lines=50&x=1");
    assert_eq!(query_param(&params, "lines"), Some("50".to_string()));
}

#[test]
fn test_parse_query_params_no_query() {
    let params = parse_query_params("/services");
    assert!(params.is_empty());
}

#[test]
fn query_params_edge_cases() {
    let params = parse_query_params("/p?a=1&flag&a=2&b=x=y&=v");
    assert_eq!(params.len(), 4);
    assert_eq!(query_param(&params, "a"), Some("2".to_string()));
    assert_eq!(query_param(&params, "b"), Some("x=y".to_string()));
    assert_eq!(query_param(&params, ""), Some("v".to_string()));
    assert_eq!(query_param(&params, "flag"), None);
    assert_eq!(count_param(&params, "a", 20, 100), 2);
    assert_eq!(count_param(&params, "b", 20, 100), 20);
    assert_eq!(count_param(&params, "missing", 100, 1000), 100);
}

#[test]
fn handlers_test_path_without_query() {
    assert_eq!(path_without_query("/timers/test.timer/history?limit=50"), "/timers/test.timer/history");
}

#[test]
fn tests_test_path_without_query() {
    assert_eq!(path_without_query("/services/nginx/logs?lines=10"), "/services/nginx/logs");
    assert_eq!(path_without_query("/services"), "/services");
}

#[test]
fn service_rows_mark_unreadable_as_unknown() {
    let mock = MockCommandExecutor::new().with_stdout(
        "systemctl",
        &["show", "web", "--property=ActiveState,SubState,MainPID,ActiveEnterTimestamp"],
        "ActiveState=failed\nSubState=failed\n",
    );
    let rows = watched_service_rows(&mock, &vec!["web".to_string(), "gone".to_string(), "bad name".to_string()]);
    assert_eq!(rows.len(), 3);
    assert_eq!(rows[0].status, "failed");
    assert_eq!(rows[1].status, "unknown");
    assert_eq!(rows[2].name, "bad name");
    assert_eq!(rows[2].active_state, "unknown");
    let u = ServiceStatusResponse::unknown("x");
    assert_eq!(u.uptime_seconds, 0);
}

fn info() -> TimerInfo {
    TimerInfo {
        name: "a.timer".to_string(),
        enabled: true,
        schedule: String::new(),
        next_run: None,
        last_trigger: Some("t".to_string()),
        service: "a.service".to_string(),
    }
}

#[test]
fn timer_rows() {
    let r = TimerStatusResponse::from_info(info(), Some(ExecutionStatus::Running));
    assert_eq!(r.schedule_human, "Schedule not available");
    assert_eq!(r.last_result, Some("running".to_string()));
    assert_eq!(r.last_run, Some("t".to_string()));
    let u = TimerStatusResponse::unreadable("x.timer.timer");
    assert_eq!(u.service, "x.service.service");
    assert_eq!(service_for_timer("plain"), "plain");
    assert_eq!(AvailableTimerResponse::from_info(info()).description, "Activates a.service");
}

#[test]
fn log_tail_replaces_output_when_present() {
    let details = || ExecutionDetails {
        invocation_id: "i".to_string(),
        start_time: "s".to_string(),
        end_time: None,
        duration_secs: None,
        status: ExecutionStatus::Running,
        exit_code: None,
        trigger: TriggerType::Scheduled,
        output: vec!["journal".to_string()],
    };
    let tail = CommandOutput { exit_code: 0, stdout: "one\ntwo\n".to_string(), stderr: String::new() };
    assert_eq!(with_log_tail(details(), &tail).output, vec!["one".to_string(), "two".to_string()]);
    let empty = CommandOutput { exit_code: 0, stdout: String::new(), stderr: String::new() };
    assert_eq!(with_log_tail(details(), &empty).output, vec!["journal".to_string()]);
    let failed = CommandOutput { exit_code: 1, stdout: "x".to_string(), stderr: String::new() };
    assert_eq!(with_log_tail(details(), &failed).output, vec!["journal".to_string()]);
}

#[test]
fn timer_rows_for_watched_timers() {
    let show = "--property=Id,LoadState,UnitFileState,ActiveState,NextElapseUSecRealtime,LastTriggerUSec,TimersCalendar";
    let client = SystemctlClient::new(MockCommandExecutor::new().with_stdout(
        "systemctl",
        &["show", "a.timer", show],
        "Id=a.timer\nUnitFileState=enabled\nActiveState=active\nTimersCalendar={ OnCalendar=hourly }\n",
    ));
    let journal = JournalClient::new(MockCommandExecutor::new().with_stdout(
        "journalctl",
        &["-u", "a.service", "--since", "7 days ago", "-o", "json", "--no-pager"],
        "{\"INVOCATION_ID\":\"i\",\"__REALTIME_TIMESTAMP\":\"1\",\"EXIT_STATUS\":\"1\"}\n",
    ));
    let rows = watched_timer_rows(&client, &journal, &vec!["a.timer".to_string(), "b;c.timer".to_string()]);
    assert_eq!(rows.len(), 2);
    assert_eq!(rows[0].schedule, "Hourly");
    assert!(rows[0].enabled);
    assert_eq!(rows[0].last_result, Some("failed".to_string()));
    assert_eq!(rows[1].schedule, "unknown");
    assert_eq!(rows[1].service, "b;c.service");
}

#[test]
fn details_take_the_service_log_file() {


    let details = || ExecutionDetails {
        invocation_id: "i".to_string(),
        start_time: "s".to_string(),
        end_time: Some("e".to_string()),
        duration_secs: Some(3),
        status: ExecutionStatus::Success,
        exit_code: Some(0),
        trigger: TriggerType::Manual,
        output: vec!["journal".to_string()],
    };
    let mock = MockCommandExecutor::new().with_stdout("tail", &["-n", "200", "/var/log/backup.log"], "a\nb\n");
    let d = details_with_log_file(&mock, "backup.service", details());
    assert_eq!(d.output, vec!["a".to_string(), "b".to_string()]);
    assert_eq!(d.start_time, "s");
    assert_eq!(d.duration_secs, Some(3));
    assert_eq!(d.trigger, TriggerType::Manual);
    let none = details_with_log_file(&MockCommandExecutor::new(), "backup.service", details());
    assert_eq!(none.output, vec!["journal".to_string()]);
}
