use systemd_units::schedule::Schedule;

#[test]
fn test_parse_time_span_minutes() {
    assert_eq!(Schedule::parse_time_span("5min").unwrap(), 300);
    assert_eq!(Schedule::parse_time_span("5m").unwrap(), 300);
    assert_eq!(Schedule::parse_time_span("1min").unwrap(), 60);
}

#[test]
fn test_parse_time_span_hours() {
    assert_eq!(Schedule::parse_time_span("2h").unwrap(), 7200);
    assert_eq!(Schedule::parse_time_span("2hour").unwrap(), 7200);
    assert_eq!(Schedule::parse_time_span("2hours").unwrap(), 7200);
    assert_eq!(Schedule::parse_time_span("1h").unwrap(), 3600);
}

#[test]
fn test_parse_time_span_seconds() {
    assert_eq!(Schedule::parse_time_span("30s").unwrap(), 30);
    assert_eq!(Schedule::parse_time_span("30sec").unwrap(), 30);
    assert_eq!(Schedule::parse_time_span("120").unwrap(), 120);
}

#[test]
fn test_parse_time_span_invalid() {
    assert!(Schedule::parse_time_span("invalid").is_err());
    assert!(Schedule::parse_time_span("abc").is_err());
    assert!(Schedule::parse_time_span("").is_err());
}

#[test]
fn time_span_trims_and_rejects_overflow() {
    assert_eq!(Schedule::parse_time_span("  10min \n").unwrap(), 600);
    assert_eq!(Schedule::parse_time_span("+7s").unwrap(), 7);
    assert!(Schedule::parse_time_span("18446744073709551615min").is_err());
    assert!(Schedule::parse_time_span("18446744073709551616").is_err());
    assert_eq!(Schedule::parse_time_span("18446744073709551615").unwrap(), u64::MAX);
    assert!(Schedule::parse_time_span("-5s").is_err());
}

#[test]
fn test_humanize_duration_seconds() {
    assert_eq!(Schedule::humanize_duration(30), "30s");
    assert_eq!(Schedule::humanize_duration(45), "45s");
}

#[test]
fn test_humanize_duration_minutes() {
    assert_eq!(Schedule::humanize_duration(60), "1min");
    assert_eq!(Schedule::humanize_duration(90), "1min 30s");
    assert_eq!(Schedule::humanize_duration(300), "5min");
}

#[test]
fn test_humanize_duration_hours() {
    assert_eq!(Schedule::humanize_duration(3600), "1h");
    assert_eq!(Schedule::humanize_duration(3660), "1h 1min");
    assert_eq!(Schedule::humanize_duration(7200), "2h");
}

#[test]
fn test_humanize_duration_days() {
    assert_eq!(Schedule::humanize_duration(86400), "1d");
    assert_eq!(Schedule::humanize_duration(90000), "1d 1h");
    assert_eq!(Schedule::humanize_duration(172800), "2d");
}

#[test]
fn humanize_duration_edges() {
    assert_eq!(Schedule::humanize_duration(0), "0s");
    assert_eq!(Schedule::humanize_duration(59), "59s");
    assert_eq!(Schedule::humanize_duration(3599), "59min 59s");
    assert_eq!(Schedule::humanize_duration(86399), "23h 59min");
    assert_eq!(Schedule::humanize_duration(u64::MAX), "213503982334601d 7h");
}

#[test]
fn test_humanize_calendar_common() {
    assert_eq!(Schedule::humanize_calendar("hourly"), "Hourly");
    assert_eq!(Schedule::humanize_calendar("*-*-* *:*:*"), "Hourly");
    assert_eq!(Schedule::humanize_calendar("daily"), "Daily at midnight");
    assert_eq!(Schedule::humanize_calendar("weekly"), "Weekly on Monday");
    assert_eq!(Schedule::humanize_calendar("monthly"), "Monthly");
}

#[test]
fn test_humanize_calendar_weekdays() {
    assert_eq!(Schedule::humanize_calendar("Mon-Fri 08-21:00"), "Mon-Fri, 8 AM - 9 PM");
    assert_eq!(Schedule::humanize_calendar("Mon-Fri 08:00-21:00"), "Mon-Fri, 8 AM - 9 PM");
    assert_eq!(Schedule::humanize_calendar("Mon,Wed,Fri 14:00"), "Mon, Wed, Fri 14:00");
}

#[test]
fn test_humanize_calendar_hourly_range() {
    assert_eq!(Schedule::humanize_calendar("*:00:00 08-21"), "Hourly, 8 AM - 9 PM");
    assert_eq!(Schedule::humanize_calendar("*:00 08:00-21:00"), "Hourly, 8 AM - 9 PM");
}

#[test]
fn test_humanize_calendar_custom() {
    assert_eq!(Schedule::humanize_calendar("Sat 12:00"), "Sat 12:00");
    assert_eq!(Schedule::humanize_calendar("*-*-01 00:00"), "*-*-01 00:00");
}

#[test]
fn humanize_calendar_other_weekday_forms() {
    assert_eq!(Schedule::humanize_calendar("Mon-Fri 10:00"), "Mon-Fri 10:00");
    assert_eq!(Schedule::humanize_calendar("Sun Mon,Wed,Fri 09:00 Mon,Wed,Fri x"), "Mon, Wed, Fri 09:00");
    assert_eq!(Schedule::humanize_calendar("  hourly  "), "Hourly");
    assert_eq!(Schedule::humanize_calendar("Mon 00:00"), "Weekly on Monday");
}

#[test]
fn calendar_round_trip_and_passthrough() {
    assert_eq!(Schedule::humanize_calendar("Mon-Fri 08-21:00"), "Mon-Fri, 8 AM - 9 PM");
    assert_eq!(Schedule::humanize_calendar("quarterly"), "quarterly");
    assert_eq!(Schedule::humanize_calendar(" Tue 03:15 "), " Tue 03:15 ");
}

#[test]
fn test_parse_schedule_calendar() {
    let schedule = Schedule::parse(Some("Mon-Fri 08-21:00"), None, None).unwrap();
    assert!(matches!(schedule, Schedule::Calendar { .. }));
    assert_eq!(schedule.humanize(), "Mon-Fri, 8 AM - 9 PM");
}

#[test]
fn test_parse_schedule_on_boot() {
    let schedule = Schedule::parse(None, Some("5min"), None).unwrap();
    assert!(matches!(schedule, Schedule::OnBoot { seconds: 300 }));
    assert_eq!(schedule.humanize(), "5min after boot");
}

#[test]
fn test_parse_schedule_recurring() {
    let schedule = Schedule::parse(None, None, Some("1h")).unwrap();
    assert!(matches!(schedule, Schedule::Recurring { seconds: 3600 }));
    assert_eq!(schedule.humanize(), "Every 1h");
}

#[test]
fn test_parse_schedule_no_input() {
    let result = Schedule::parse(None, None, None);
    assert!(result.is_err());
}

#[test]
fn test_parse_multiple_schedules() {
    let schedule = Schedule::parse(Some("hourly"), Some("5min"), None).unwrap();
    assert!(matches!(schedule, Schedule::Multiple(_)));
    let humanized = schedule.humanize();
    assert!(humanized.contains("Hourly"));
    assert!(humanized.contains("5min after boot"));
}

#[test]
fn test_parse_all_three_schedules() {
    let schedule = Schedule::parse(Some("daily"), Some("10s"), Some("2h")).unwrap();
    assert!(matches!(schedule, Schedule::Multiple(_)));
    let humanized = schedule.humanize();
    assert!(humanized.contains("Daily"));
    assert!(humanized.contains("10s after boot"));
    assert!(humanized.contains("Every 2h"));
}

#[test]
fn parse_schedule_exact_rendering_and_errors() {
    let schedule = Schedule::parse(Some("daily"), Some("10s"), Some("2h")).unwrap();
    assert_eq!(schedule.humanize(), "Daily at midnight, 10s after boot, Every 2h");
    assert!(Schedule::parse(Some("daily"), Some("soon"), None).is_err());
    assert!(Schedule::parse(None, None, Some("x")).is_err());
    let nested = Schedule::Multiple(vec![
        Schedule::OnBoot { seconds: 90 },
        Schedule::Multiple(vec![Schedule::Recurring { seconds: 86400 }]),
    ]);
    assert_eq!(nested.humanize(), "1min 30s after boot, Every 1d");
}

#[test]
fn time_span_strips_one_suffix_only() {
    assert!(Schedule::parse_time_span("5mm").is_err());
    assert!(Schedule::parse_time_span("5mmin").is_err());
    assert!(Schedule::parse_time_span("5minmin").is_err());
    assert!(Schedule::parse_time_span("5hh").is_err());
    assert!(Schedule::parse_time_span("5ss").is_err());
    assert!(Schedule::parse_time_span("5hourhours").is_err());
    assert_eq!(Schedule::parse_time_span("5hours").unwrap(), 18000);
}
