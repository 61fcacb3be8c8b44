use systemd_units::error::TimerError;
use systemd_units::executor::{CommandOutput, MockCommandExecutor};
use systemd_units::timers::SystemctlClient;

const SHOW: &str = "--property=Id,LoadState,UnitFileState,ActiveState,NextElapseUSecRealtime,LastTriggerUSec,TimersCalendar";
const LIST: [&str; 4] = ["list-timers", "--all", "--no-pager", "--plain"];

fn ok(stdout: &str) -> CommandOutput {
    CommandOutput { stdout: stdout.to_string(), stderr: String::new(), exit_code: 0 }
}

fn failed(code: i32, stderr: &str) -> CommandOutput {
    CommandOutput { stdout: String::new(), stderr: stderr.to_string(), exit_code: code }
}

#[test]
fn test_validate_timer_name_valid() {
    assert!(SystemctlClient::<MockCommandExecutor>::validate_timer_name("foo.timer").is_ok());
    assert!(SystemctlClient::<MockCommandExecutor>::validate_timer_name("foo.service").is_ok());
    assert!(SystemctlClient::<MockCommandExecutor>::validate_timer_name("chfscraper-scrape-bcp.timer").is_ok());
}

#[test]
fn test_validate_timer_name_invalid() {
    assert!(SystemctlClient::<MockCommandExecutor>::validate_timer_name("").is_err());
    assert!(SystemctlClient::<MockCommandExecutor>::validate_timer_name("foo").is_err());
    assert!(SystemctlClient::<MockCommandExecutor>::validate_timer_name("foo/bar.timer").is_err());
    assert!(SystemctlClient::<MockCommandExecutor>::validate_timer_name("foo;bar.timer").is_err());
    assert!(SystemctlClient::<MockCommandExecutor>::validate_timer_name("foo|bar.timer").is_err());
    assert!(SystemctlClient::<MockCommandExecutor>::validate_timer_name("foo`bar`.timer").is_err());
    assert!(SystemctlClient::<MockCommandExecutor>::validate_timer_name("foo$bar.timer").is_err());
}

#[test]
fn timer_name_rejects_whitespace_and_ampersand() {
    for bad in ["foo bar.timer", "foo\tbar.timer", "foo&bar.timer", "a\\b.timer", "a\rb.timer"] {
        assert!(matches!(
            SystemctlClient::<MockCommandExecutor>::validate_timer_name(bad),
            Err(TimerError::InvalidInput(_))
        ));
    }
}

#[test]
fn test_timer_to_service() {
    assert_eq!(SystemctlClient::<MockCommandExecutor>::timer_to_service("foo.timer").unwrap(), "foo.service");
    assert_eq!(
        SystemctlClient::<MockCommandExecutor>::timer_to_service("chfscraper-scrape-bcp.timer").unwrap(),
        "chfscraper-scrape-bcp.service"
    );
    assert!(SystemctlClient::<MockCommandExecutor>::timer_to_service("foo.service").is_err());
}

#[test]
fn test_list_timers_success() {
    let mock = MockCommandExecutor::new().with_response("systemctl", &LIST, ok(
        "NEXT                         LEFT       LAST                         PASSED  UNIT                              ACTIVATES\n\
         Wed 2026-01-15 14:00:00 CET  45min left n/a                          n/a     chfscraper-scrape-bcp.timer       chfscraper-scrape-bcp.service\n\
         Wed 2026-01-15 13:30:00 CET  15min left Wed 2026-01-15 12:30:00 CET  45min   chfscraper-scrape-scc.timer       chfscraper-scrape-scc.service\n",
    ));
    let client = SystemctlClient::new(mock);
    let timers = client.list_timers().unwrap();
    assert_eq!(timers.len(), 2);
    assert_eq!(timers[0].name, "chfscraper-scrape-bcp.timer");
    assert_eq!(timers[0].service, "chfscraper-scrape-bcp.service");
    assert!(timers[0].next_run.is_some());
    assert_eq!(timers[1].name, "chfscraper-scrape-scc.timer");
    assert!(timers[1].next_run.is_some());
}

#[test]
fn list_timers_service_is_last_field() {
    let mock = MockCommandExecutor::new().with_response("systemctl", &LIST, ok(
        "n/a n/a n/a n/a n/a n/a a.timer a.service\nMon 2026-01-19 00:00:00 UTC 3 days left x.timer y.service\nshort row\n",
    ));
    let timers = SystemctlClient::new(mock).list_timers().unwrap();
    assert_eq!(timers.len(), 2);
    assert_eq!(timers[0].service, "a.service");
    assert_eq!(timers[0].next_run, None);
    assert_eq!(timers[0].last_trigger, None);
    assert_eq!(timers[1].service, "y.service");
    assert_eq!(timers[1].name, "x.timer");
    assert_eq!(timers[1].next_run, Some("Mon 2026-01-19 00:00:00 UTC 3".to_string()));
    assert_eq!(timers[1].last_trigger, Some("days".to_string()));
}

#[test]
fn test_list_timers_empty() {
    let mock = MockCommandExecutor::new().with_response("systemctl", &LIST, ok("NEXT LEFT LAST PASSED UNIT ACTIVATES\n"));
    let timers = SystemctlClient::new(mock).list_timers().unwrap();
    assert_eq!(timers.len(), 0);
}

#[test]
fn test_list_timers_command_failed() {
    let mock = MockCommandExecutor::new().with_response("systemctl", &LIST, failed(1, "Permission denied"));
    assert!(SystemctlClient::new(mock).list_timers().is_err());
}

#[test]
fn test_get_timer_info_enabled() {
    let mock = MockCommandExecutor::new().with_response("systemctl", &["show", "test.timer", SHOW], ok(
        "Id=test.timer\nLoadState=loaded\nUnitFileState=enabled\nActiveState=active\nNextElapseUSecRealtime=1705324800000000\nLastTriggerUSec=1705323000000000\nTimersCalendar={ OnCalendar=daily ; next_elapse=... }\n",
    ));
    let info = SystemctlClient::new(mock).get_timer_info("test.timer").unwrap();
    assert_eq!(info.name, "test.timer");
    assert!(info.enabled);
    assert!(info.next_run.is_some());
    assert!(info.last_trigger.is_some());
    assert_eq!(info.schedule, "Daily at midnight");
    assert_eq!(info.service, "test.service");
}

#[test]
fn test_get_timer_info_disabled() {
    let mock = MockCommandExecutor::new().with_response("systemctl", &["show", "test.timer", SHOW], ok(
        "Id=test.timer\nLoadState=loaded\nUnitFileState=disabled\nActiveState=inactive\nNextElapseUSecRealtime=0\nLastTriggerUSec=0\n",
    ));
    let info = SystemctlClient::new(mock).get_timer_info("test.timer").unwrap();
    assert!(!info.enabled);
    assert!(info.next_run.is_none());
    assert_eq!(info.schedule, "Schedule not available");
}

#[test]
fn test_get_timer_info_not_found() {
    let mock = MockCommandExecutor::new().with_response("systemctl", &["show", "missing.timer", SHOW], ok("LoadState=not-found\n"));
    let result = SystemctlClient::new(mock).get_timer_info("missing.timer");
    assert!(result.is_err());
    assert!(matches!(result.unwrap_err(), TimerError::NotFound(_)));
}

#[test]
fn timer_info_joins_calendars() {
    let client = SystemctlClient::new(MockCommandExecutor::new());
    let info = client
        .parse_timer_info(
            "Id=t.timer\nTimersCalendar={ OnCalendar=Mon-Fri 08-21:00 ; next_elapse=x }\nTimersCalendar={ OnCalendar=Sat 12:00 }\nTimersCalendar={ next_elapse=y }\n",
            "t.service",
        )
        .unwrap();
    assert_eq!(info.schedule, "Mon-Fri, 8 AM - 9 PM, Sat 12:00");
    assert_eq!(info.service, "t.service");
    assert_eq!(
        SystemctlClient::<MockCommandExecutor>::extract_on_calendar("{ OnCalendar=  ; }"),
        None
    );
}

#[test]
fn test_run_timer_production() {
    let mock = MockCommandExecutor::new().with_response("systemctl", &["start", "--no-block", "test.service"], ok(""));
    assert!(SystemctlClient::new(mock).run_timer("test.timer", false).is_ok());
}

#[test]
fn test_run_timer_test_mode() {
    let mock = MockCommandExecutor::new().with_response("systemctl", &["start", "--no-block", "test.service"], ok(""));
    assert!(SystemctlClient::new(mock).run_timer("test.timer", true).is_ok());
}

#[test]
fn test_run_timer_failed() {
    let mock = MockCommandExecutor::new().with_response("systemctl", &["start", "--no-block", "test.service"], failed(5, "Service not found"));
    let result = SystemctlClient::new(mock).run_timer("test.timer", false);
    assert!(result.is_err());
    assert!(matches!(result.unwrap_err(), TimerError::NotFound(_)));
}

#[test]
fn test_enable_timer() {
    let mock = MockCommandExecutor::new()
        .with_response("systemctl", &["enable", "test.timer"], ok(""))
        .with_response("systemctl", &["start", "test.timer"], ok(""));
    assert!(SystemctlClient::new(mock).enable_timer("test.timer").is_ok());
}

#[test]
fn test_disable_timer() {
    let mock = MockCommandExecutor::new()
        .with_response("systemctl", &["stop", "test.timer"], ok(""))
        .with_response("systemctl", &["disable", "test.timer"], ok(""));
    assert!(SystemctlClient::new(mock).disable_timer("test.timer").is_ok());
}

#[test]
fn test_enable_timer_permission_denied() {
    let mock = MockCommandExecutor::new().with_response("systemctl", &["enable", "test.timer"], failed(1, "Permission denied"));
    assert!(SystemctlClient::new(mock).enable_timer("test.timer").is_err());
}

#[test]
fn enable_second_step_failure_is_surfaced() {
    let mock = MockCommandExecutor::new()
        .with_response("systemctl", &["enable", "test.timer"], ok(""))
        .with_response("systemctl", &["start", "test.timer"], failed(4, "denied"));
    let e = SystemctlClient::new(mock).enable_timer("test.timer").unwrap_err();
    assert!(matches!(e, TimerError::PermissionDenied(_)));
}

#[test]
fn disable_stops_first_and_keeps_stopped_on_failure() {
    let mock = MockCommandExecutor::new()
        .with_response("systemctl", &["stop", "test.timer"], ok(""))
        .with_response("systemctl", &["disable", "test.timer"], failed(1, "nope"));
    let e = SystemctlClient::new(mock).disable_timer("test.timer").unwrap_err();
    assert!(matches!(e, TimerError::CommandFailed { exit_code: Some(1), .. }));
    let mock = MockCommandExecutor::new().with_response("systemctl", &["stop", "test.timer"], failed(5, "gone"));
    let e = SystemctlClient::new(mock).disable_timer("test.timer").unwrap_err();
    assert!(matches!(e, TimerError::NotFound(_)));
}
