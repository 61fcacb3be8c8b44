//! The service client: validating service names, driving `systemctl` and
//! `journalctl` for services and reading what they print.
use vstd::prelude::*;
use crate::clock::{UtcTime, utc_from_timestamp, utc_now, parse_rfc3339, rfc3339_instant, utc_representable};
use crate::error::ServiceError;
use crate::executor::{CommandExecutor, CommandOutput, arg_views};
use crate::json::{JsonField, JsonLine, JsonDoc, FieldView, field_of, get_field, parse_json, json_doc};
use crate::journal::trunc_div;
use crate::schedule::{first_index, first_index_of};
use crate::text::{
    is_whitespace, trim, trim_chars, words, split_words, lines, split_lines, views, keep_some,
    lemma_keep_some_step, join, join_chars, chars_of, string_of, slice_chars, contains,
    contains_chars, parse_u64, parse_signed, unsigned_of, signed_of, is_text,
};

verus! {

/// The pattern that a whole service name must match.
pub const SERVICE_NAME_PATTERN: &'static str = "^[a-zA-Z0-9@._-]+$";

/// A character that a service name may hold.
pub open spec fn service_name_char(c: char) -> bool {
    ('a' <= c && c <= 'z') || ('A' <= c && c <= 'Z') || ('0' <= c && c <= '9') || c == '@' || c
        == '.' || c == '_' || c == '-'
}

/// A service name that may be handed to `systemctl`.
pub open spec fn service_name_ok(n: Seq<char>) -> bool {
    n.len() > 0 && forall|i: int| 0 <= i < n.len() ==> service_name_char(#[trigger] n[i])
}

/// Relies on `regex::Regex::new` and `Regex::is_match` with the anchored
/// character-class pattern above: the whole text is one or more of its characters.
#[verifier::external_body]
fn matches_name_pattern(pattern: &str, text: &str) -> (r: bool)
    requires
        pattern@ == SERVICE_NAME_PATTERN@,
    ensures
        r == service_name_ok(text@),
{
    regex::Regex::new(pattern).unwrap().is_match(text)
}

/// Accepts a service name only where it is safe to hand to `systemctl`:
/// not empty, no whitespace, only `[A-Za-z0-9@._-]`.
pub fn validate_service_name(name: &str) -> (r: Result<(), ServiceError>)
    ensures
        r is Ok <==> service_name_ok(name@),
        r matches Err(e) ==> e is InvalidServiceName,
{
    let n = chars_of(name);
    if n.len() == 0 {
        return Err(
            ServiceError::InvalidServiceName(string_of(&chars_of("Service name cannot be empty"))),
        );
    }
    let mut i: usize = 0;
    while i < n.len()
        invariant
            i <= n.len(),
            n@ == name@,
        decreases n.len() - i,
    {
        if is_whitespace(n[i]) {
            let ghost c = n@[i as int];
            assert(!service_name_char(c));
            let mut m = chars_of("Service name cannot contain spaces: ");
            crate::text::push_str(&mut m, name);
            return Err(ServiceError::InvalidServiceName(string_of(&m)));
        }
        i += 1;
    }
    if !matches_name_pattern(SERVICE_NAME_PATTERN, name) {
        let mut m = chars_of("Service name contains invalid characters: ");
        crate::text::push_str(&mut m, name);
        return Err(ServiceError::InvalidServiceName(string_of(&m)));
    }
    Ok(())
}

/// One row of a bulk unit listing.
#[derive(Debug, Clone)]
pub struct ServiceInfo {
    pub name: String,
    pub description: String,
    pub load_state: String,
    pub active_state: String,
    pub sub_state: String,
}

pub struct ServiceInfoView {
    pub name: Seq<char>,
    pub description: Seq<char>,
    pub load_state: Seq<char>,
    pub active_state: Seq<char>,
    pub sub_state: Seq<char>,
}

impl View for ServiceInfo {
    type V = ServiceInfoView;

    open spec fn view(&self) -> ServiceInfoView {
        ServiceInfoView {
            name: self.name@,
            description: self.description@,
            load_state: self.load_state@,
            active_state: self.active_state@,
            sub_state: self.sub_state@,
        }
    }
}

/// The unit on one line of `systemctl list-units`: `NAME LOAD ACTIVE SUB
/// DESCRIPTION...`; lines of fewer than four fields hold none.
pub open spec fn service_row(line: Seq<char>) -> Option<ServiceInfoView> {
    let p = words(trim(line));
    if p.len() < 4 {
        None
    } else {
        Some(
            ServiceInfoView {
                name: p[0],
                load_state: p[1],
                active_state: p[2],
                sub_state: p[3],
                description: join(p.subrange(4, p.len() as int), " "@),
            },
        )
    }
}

pub open spec fn service_rows(output: Seq<char>) -> Seq<ServiceInfoView> {
    keep_some(lines(output), |l: Seq<char>| service_row(l))
}

/// The units of a `systemctl list-units` table; malformed lines are skipped.
pub fn parse_service_list(output: &str) -> (r: Result<Vec<ServiceInfo>, ServiceError>)
    ensures
        r matches Ok(v) && v@.map_values(|s: ServiceInfo| s@) == service_rows(output@),
{
    let text = chars_of(output);
    let ls = split_lines(&text);
    let ghost lv = views(ls@);
    let mut services: Vec<ServiceInfo> = Vec::new();
    let mut i: usize = 0;
    while i < ls.len()
        invariant
            i <= ls.len(),
            lv == views(ls@),
            lv == lines(output@),
            services@.map_values(|s: ServiceInfo| s@) == keep_some(
                lv.take(i as int),
                |l: Seq<char>| service_row(l),
            ),
        decreases ls.len() - i,
    {
        proof {
            lemma_keep_some_step(lv, |l: Seq<char>| service_row(l), i as int);
        }
        assert(lv[i as int] == ls@[i as int]@);
        let l = trim_chars(&ls[i]);
        let parts = split_words(&l);
        if parts.len() >= 4 {
            let n = parts.len();
            let description = if n > 4 {
                string_of(&join_chars(&parts, 4, n, " "))
            } else {
                assert(views(parts@).subrange(4, 4) =~= Seq::<Seq<char>>::empty());
                String::new()
            };
            let info = ServiceInfo {
                name: string_of(&parts[0]),
                description,
                load_state: string_of(&parts[1]),
                active_state: string_of(&parts[2]),
                sub_state: string_of(&parts[3]),
            };
            assert(info@ == service_row(lv[i as int])->0);
            let ghost before = services@.map_values(|s: ServiceInfo| s@);
            services.push(info);
            assert(services@.map_values(|s: ServiceInfo| s@) =~= before.push(info@));
        }
        i += 1;
    }
    assert(lv.take(ls.len() as int) =~= lv);
    Ok(services)
}


/// A service's state as `systemctl show` reports it.
#[derive(Debug, Clone)]
pub struct ServiceStatus {
    pub name: String,
    pub active_state: String,
    pub sub_state: String,
    pub uptime_seconds: u64,
    pub main_pid: Option<u32>,
    pub active_enter_timestamp: Option<UtcTime>,
}

/// What the `KEY=VALUE` lines have told so far.
pub struct StatusState {
    pub active: Option<Seq<char>>,
    pub sub: Option<Seq<char>>,
    pub pid: Option<u32>,
    pub enter: Option<UtcTime>,
}

/// The instant that an `ActiveEnterTimestamp` value names: an RFC 3339
/// timestamp, or else a numeral of microseconds since the epoch.
pub open spec fn enter_instant(v: Seq<char>) -> Option<UtcTime> {
    match rfc3339_instant(v) {
        Some((s, n)) => Some(UtcTime { seconds: s as i64, nanos: n as u32 }),
        None => match signed_of(v) {
            Some(ts) => if i64::MIN <= ts <= i64::MAX && utc_representable(
                trunc_div(ts, 1_000_000),
                0,
            ) {
                Some(UtcTime { seconds: trunc_div(ts, 1_000_000) as i64, nanos: 0 })
            } else {
                None
            },
            None => None,
        },
    }
}

/// The state after one line; a line without `=` or with another key changes nothing.
pub open spec fn apply_status_line(st: StatusState, raw: Seq<char>) -> StatusState {
    let line = trim(raw);
    if !contains(line, "="@) {
        st
    } else {
        let i = first_index(line, "="@);
        let key = line.take(i);
        let value = line.skip(i + 1);
        if key == "ActiveState"@ {
            StatusState { active: Some(value), ..st }
        } else if key == "SubState"@ {
            StatusState { sub: Some(value), ..st }
        } else if key == "MainPID"@ {
            match unsigned_of(value) {
                Some(p) => if p <= u32::MAX && p != 0 {
                    StatusState { pid: Some(p as u32), ..st }
                } else {
                    st
                },
                None => st,
            }
        } else if key == "ActiveEnterTimestamp"@ {
            if value.len() == 0 {
                st
            } else {
                match enter_instant(value) {
                    Some(t) => StatusState { enter: Some(t), ..st },
                    None => st,
                }
            }
        } else {
            st
        }
    }
}

pub open spec fn status_state(ls: Seq<Seq<char>>) -> StatusState
    decreases ls.len(),
{
    if ls.len() == 0 {
        StatusState { active: None, sub: None, pid: None, enter: None }
    } else {
        apply_status_line(status_state(ls.drop_last()), ls.last())
    }
}

/// Whole seconds from `enter` to `now`, and zero where there is no `enter`
/// or it is not earlier.
pub open spec fn uptime_of(now: UtcTime, enter: Option<UtcTime>) -> u64 {
    match enter {
        None => 0,
        Some(e) => {
            let d = (now.seconds - e.seconds) * 1_000_000_000 + (now.nanos - e.nanos);
            if d <= 0 {
                0
            } else if d / 1_000_000_000 > u64::MAX {
                u64::MAX
            } else {
                (d / 1_000_000_000) as u64
            }
        },
    }
}

pub fn uptime_seconds(now: UtcTime, enter: Option<UtcTime>) -> (r: u64)
    ensures
        r == uptime_of(now, enter),
{
    match enter {
        None => 0,
        Some(e) => {
            let d: i128 = (now.seconds as i128 - e.seconds as i128) * 1_000_000_000 + (now.nanos
                as i128 - e.nanos as i128);
            if d <= 0 {
                0
            } else if d / 1_000_000_000 > u64::MAX as i128 {
                u64::MAX
            } else {
                (d / 1_000_000_000) as u64
            }
        },
    }
}

fn enter_instant_exec(v: &Vec<char>) -> (r: Option<UtcTime>)
    ensures
        r == enter_instant(v@),
{
    let s = string_of(v);
    if let Some(t) = parse_rfc3339(s.as_str()) {
        return Some(t);
    }
    match parse_signed(v, i64::MIN, i64::MAX) {
        Some(ts) => {
            let secs: i64 = if ts >= 0 {
                ts / 1_000_000
            } else {
                (-((-(ts as i128)) / 1_000_000)) as i64
            };
            utc_from_timestamp(secs, 0)
        },
        None => None,
    }
}

/// The status that a `systemctl show` dump gives, with the uptime taken
/// against `now`.
pub fn parse_service_status_at(service_name: &str, output: &str, now: UtcTime) -> (r: Result<
    ServiceStatus,
    ServiceError,
>)
    ensures
        ({
            let st = status_state(lines(output@));
            &&& r is Err <==> st.active is None || st.sub is None
            &&& r matches Err(e) ==> e is ParseError
            &&& r matches Ok(s) ==> s.name@ == service_name@ && s.active_state@ == st.active->0
                && s.sub_state@ == st.sub->0 && s.main_pid == st.pid && s.active_enter_timestamp
                == st.enter && s.uptime_seconds == uptime_of(now, st.enter)
        }),
{
    let text = chars_of(output);
    let ls = split_lines(&text);
    let ghost lv = views(ls@);
    let mut active: Option<Vec<char>> = None;
    let mut sub: Option<Vec<char>> = None;
    let mut pid: Option<u32> = None;
    let mut enter: Option<UtcTime> = None;
    let eq = chars_of("=");
    let mut i: usize = 0;
    while i < ls.len()
        invariant
            i <= ls.len(),
            lv == views(ls@),
            lv == lines(output@),
            eq@ == "="@,
            status_state(lv.take(i as int)) == (StatusState {
                active: opt_chars(active),
                sub: opt_chars(sub),
                pid,
                enter,
            }),
        decreases ls.len() - i,
    {
        assert(lv.take(i + 1).drop_last() =~= lv.take(i as int));
        assert(lv[i as int] == ls@[i as int]@);
        let line = trim_chars(&ls[i]);
        if let Some(k) = first_index_of(&line, &eq) {
            proof {
                reveal_strlit("=");
            }
            let ll = line.len();
            assert(k + eq@.len() <= ll);
            let key = slice_chars(&line, 0, k);
            let value = slice_chars(&line, k + eq.len(), ll);
            assert(key@ =~= line@.take(k as int));
            assert(value@ =~= line@.skip(k + 1));
            if is_text(&key, "ActiveState") {
                active = Some(value);
            } else if is_text(&key, "SubState") {
                sub = Some(value);
            } else if is_text(&key, "MainPID") {
                if let Some(p) = parse_u64(&value) {
                    if p <= u32::MAX as u64 && p != 0 {
                        pid = Some(p as u32);
                    }
                }
            } else if is_text(&key, "ActiveEnterTimestamp") {
                if value.len() > 0 {
                    if let Some(t) = enter_instant_exec(&value) {
                        enter = Some(t);
                    }
                }
            }
        }
        i += 1;
    }
    assert(lv.take(ls.len() as int) =~= lv);
    let active_state = match active {
        Some(a) => string_of(&a),
        None => {
            return Err(
                ServiceError::ParseError(
                    string_of(&chars_of("Missing ActiveState in systemctl output")),
                ),
            );
        },
    };
    let sub_state = match sub {
        Some(x) => string_of(&x),
        None => {
            return Err(
                ServiceError::ParseError(string_of(&chars_of("Missing SubState in systemctl output"))),
            );
        },
    };
    Ok(
        ServiceStatus {
            name: string_of(&chars_of(service_name)),
            active_state,
            sub_state,
            uptime_seconds: uptime_seconds(now, enter),
            main_pid: pid,
            active_enter_timestamp: enter,
        },
    )
}

pub open spec fn opt_chars(o: Option<Vec<char>>) -> Option<Seq<char>> {
    match o {
        Some(v) => Some(v@),
        None => None,
    }
}

/// What `parse_service_status` gives for a dump: the fields that the lines
/// tell, and an uptime taken against some current time.
pub open spec fn status_parsed(
    r: Result<ServiceStatus, ServiceError>,
    service_name: Seq<char>,
    output: Seq<char>,
) -> bool {
    let st = status_state(lines(output));
    &&& (r is Err <==> st.active is None || st.sub is None)
    &&& (r matches Err(e) ==> e is ParseError)
    &&& (r matches Ok(s) ==> s.name@ == service_name && s.active_state@ == st.active->0
        && s.sub_state@ == st.sub->0 && s.main_pid == st.pid && s.active_enter_timestamp
        == st.enter && exists|now: UtcTime| s.uptime_seconds == #[trigger] uptime_of(now, st.enter))
}

/// The status that a `systemctl show` dump gives, with the uptime taken
/// against the current time.
pub fn parse_service_status(service_name: &str, output: &str) -> (r: Result<
    ServiceStatus,
    ServiceError,
>)
    ensures
        status_parsed(r, service_name@, output@),
{
    let now = utc_now();
    let r = parse_service_status_at(service_name, output, now);
    assert(r is Ok ==> r->Ok_0.uptime_seconds == uptime_of(now, status_state(lines(output@)).enter));
    r
}

/// One normalised log line.
#[derive(Debug, Clone)]
pub struct LogEntry {
    pub timestamp: UtcTime,
    pub message: String,
    pub priority: u8,
}

pub struct LogView {
    pub timestamp: UtcTime,
    pub message: Seq<char>,
    pub priority: u8,
}

impl View for LogEntry {
    type V = LogView;

    open spec fn view(&self) -> LogView {
        LogView { timestamp: self.timestamp, message: self.message@, priority: self.priority }
    }
}

/// The nanoseconds that Rust's `(us % 1_000_000) * 1000` gives once cast to `u32`.
pub open spec fn nanos_of(us: int) -> u32 {
    let r = us - trunc_div(us, 1_000_000) * 1_000_000;
    if r >= 0 {
        (r * 1000) as u32
    } else {
        (4294967296 + r * 1000) as u32
    }
}

/// The instant of a `__REALTIME_TIMESTAMP` field, or `now` where it has none
/// that can be read.
pub open spec fn log_instant(f: Option<FieldView>, now: UtcTime) -> UtcTime {
    match f {
        Some(FieldView::Str(s)) => match signed_of(s) {
            Some(us) => if i64::MIN <= us <= i64::MAX && utc_representable(
                trunc_div(us, 1_000_000),
                nanos_of(us) as int,
            ) {
                UtcTime { seconds: trunc_div(us, 1_000_000) as i64, nanos: nanos_of(us) }
            } else {
                now
            },
            None => now,
        },
        _ => now,
    }
}

pub open spec fn log_priority(f: Option<FieldView>) -> u8 {
    match f {
        Some(FieldView::Str(s)) => match unsigned_of(s) {
            Some(p) => if p <= 255 {
                p as u8
            } else {
                6
            },
            None => 6,
        },
        _ => 6,
    }
}

pub open spec fn log_message(f: Option<FieldView>) -> Seq<char> {
    match f {
        Some(FieldView::Str(s)) => s,
        _ => Seq::empty(),
    }
}

/// A non-blank line that is not JSON.
pub open spec fn log_line_invalid(line: Seq<char>) -> bool {
    trim(line).len() > 0 && json_doc(trim(line)) is Invalid
}

/// The log entry on one line of `journalctl --output=json`; blank lines hold none.
pub open spec fn log_entry_of(line: Seq<char>, now: UtcTime) -> Option<LogView> {
    let t = trim(line);
    if t.len() == 0 {
        None
    } else {
        match json_doc(t) {
            JsonDoc::Invalid => None,
            JsonDoc::NotObject => Some(LogView { timestamp: now, message: Seq::empty(), priority: 6 }),
            JsonDoc::Object(f) => Some(
                LogView {
                    timestamp: log_instant(field_of(f, "__REALTIME_TIMESTAMP"@), now),
                    message: log_message(field_of(f, "MESSAGE"@)),
                    priority: log_priority(field_of(f, "PRIORITY"@)),
                },
            ),
        }
    }
}

fn log_instant_exec(f: Option<&JsonField>, now: UtcTime) -> (r: UtcTime)
    ensures
        r == log_instant(
            match f {
                Some(x) => Some(crate::json::field_view(*x)),
                None => None,
            },
            now,
        ),
{
    if let Some(JsonField::Str(s)) = f {
        if let Some(us) = parse_signed(&chars_of(s.as_str()), i64::MIN, i64::MAX) {
            let q: i128 = if us >= 0 {
                us as i128 / 1_000_000
            } else {
                -((-(us as i128)) / 1_000_000)
            };
            let rem: i128 = us as i128 - q * 1_000_000;
            let nanos: u32 = if rem >= 0 {
                (rem * 1000) as u32
            } else {
                (4294967296 + rem * 1000) as u32
            };
            if let Some(t) = utc_from_timestamp(q as i64, nanos) {
                return t;
            }
        }
    }
    now
}

/// The entries of a `journalctl --output=json` dump; a line that is not JSON
/// fails the whole call, and missing fields take their defaults (`now` for
/// the time).
pub fn parse_logs_at(output: &str, now: UtcTime) -> (r: Result<Vec<LogEntry>, ServiceError>)
    ensures
        ({
            let ls = lines(output@);
            &&& r is Err <==> exists|i: int| 0 <= i < ls.len() && log_line_invalid(ls[i])
            &&& r matches Err(e) ==> e is ParseError
            &&& r matches Ok(v) ==> v@.map_values(|e: LogEntry| e@) == keep_some(
                ls,
                |l: Seq<char>| log_entry_of(l, now),
            )
        }),
{
    let text = chars_of(output);
    let ls = split_lines(&text);
    let ghost lv = views(ls@);
    let mut logs: Vec<LogEntry> = Vec::new();
    let mut i: usize = 0;
    while i < ls.len()
        invariant
            i <= ls.len(),
            lv == views(ls@),
            lv == lines(output@),
            forall|k: int| 0 <= k < i ==> !log_line_invalid(lv[k]),
            logs@.map_values(|e: LogEntry| e@) == keep_some(
                lv.take(i as int),
                |l: Seq<char>| log_entry_of(l, now),
            ),
        decreases ls.len() - i,
    {
        proof {
            lemma_keep_some_step(lv, |l: Seq<char>| log_entry_of(l, now), i as int);
        }
        assert(lv[i as int] == ls@[i as int]@);
        let t = trim_chars(&ls[i]);
        if t.len() > 0 {
            let ghost before = logs@.map_values(|e: LogEntry| e@);
            match parse_json(string_of(&t).as_str()) {
                JsonLine::Invalid => {
                    let mut m = chars_of("Invalid JSON in journalctl output: ");
                    crate::text::push_all(&mut m, &t);
                    return Err(ServiceError::ParseError(string_of(&m)));
                },
                JsonLine::NotObject => {
                    let e = LogEntry { timestamp: now, message: String::new(), priority: 6 };
                    logs.push(e);
                    assert(logs@.map_values(|e: LogEntry| e@) =~= before.push(e@));
                },
                JsonLine::Object(fields) => {
                    let message = match get_field(&fields, "MESSAGE") {
                        Some(JsonField::Str(m)) => string_of(&chars_of(m.as_str())),
                        _ => String::new(),
                    };
                    let priority: u8 = match get_field(&fields, "PRIORITY") {
                        Some(JsonField::Str(p)) => match parse_u64(&chars_of(p.as_str())) {
                            Some(v) => if v <= 255 {
                                v as u8
                            } else {
                                6
                            },
                            None => 6,
                        },
                        _ => 6,
                    };
                    let timestamp = log_instant_exec(get_field(&fields, "__REALTIME_TIMESTAMP"), now);
                    let e = LogEntry { timestamp, message, priority };
                    logs.push(e);
                    assert(logs@.map_values(|e: LogEntry| e@) =~= before.push(e@));
                },
            }
        }
        i += 1;
    }
    assert(lv.take(ls.len() as int) =~= lv);
    Ok(logs)
}

pub open spec fn logs_of(ls: Seq<Seq<char>>, now: UtcTime) -> Seq<LogView> {
    keep_some(ls, |l: Seq<char>| log_entry_of(l, now))
}

/// The entries of a `journalctl --output=json` dump, with the current time
/// for entries that carry none.
pub fn parse_logs(output: &str) -> (r: Result<Vec<LogEntry>, ServiceError>)
    ensures
        ({
            let ls = lines(output@);
            &&& r is Err <==> exists|i: int| 0 <= i < ls.len() && log_line_invalid(ls[i])
            &&& r matches Err(e) ==> e is ParseError
            &&& r matches Ok(v) ==> exists|now: UtcTime| v@.map_values(|e: LogEntry| e@) == #[trigger] logs_of(ls, now)
        }),
{
    let now = utc_now();
    let r = parse_logs_at(output, now);
    assert(r is Ok ==> r->Ok_0@.map_values(|e: LogEntry| e@) == logs_of(lines(output@), now));
    r
}


/// The error that a failed `systemctl` run stands for: status 4 is a refused
/// privilege, 5 a missing unit, anything else a failed command.
pub open spec fn systemctl_error_ok(e: ServiceError, out: CommandOutput) -> bool {
    if out.exit_code == 4 {
        e == ServiceError::PermissionDenied(out.stderr)
    } else if out.exit_code == 5 {
        e == ServiceError::ServiceNotFound(out.stderr)
    } else {
        e matches ServiceError::CommandFailed { command, exit_code, stderr } && command@
            == "systemctl"@ && exit_code == out.exit_code && stderr == out.stderr
    }
}

/// Maps a failed `systemctl` run to the error it stands for.
pub fn parse_systemctl_error(output: &CommandOutput) -> (r: ServiceError)
    ensures
        systemctl_error_ok(r, *output),
{
    if output.exit_code == 4 {
        ServiceError::PermissionDenied(output.stderr.clone())
    } else if output.exit_code == 5 {
        ServiceError::ServiceNotFound(output.stderr.clone())
    } else {
        ServiceError::CommandFailed {
            command: string_of(&chars_of("systemctl")),
            exit_code: output.exit_code,
            stderr: output.stderr.clone(),
        }
    }
}

pub open spec fn journal_says_missing(stderr: Seq<char>) -> bool {
    contains(stderr, "not found"@) || contains(stderr, "does not exist"@)
}

/// Maps a failed `journalctl` run: a missing unit where its error text says
/// so, a failed command otherwise.
pub fn parse_journalctl_error(output: &CommandOutput) -> (r: ServiceError)
    ensures
        journal_error_ok(r, *output),
{
    let e = chars_of(output.stderr.as_str());
    if contains_chars(&e, &chars_of("not found")) || contains_chars(&e, &chars_of("does not exist")) {
        return ServiceError::ServiceNotFound(output.stderr.clone());
    }
    ServiceError::CommandFailed {
        command: string_of(&chars_of("journalctl")),
        exit_code: output.exit_code,
        stderr: output.stderr.clone(),
    }
}

/// The error that a failed `journalctl` run stands for.
pub open spec fn journal_error_ok(e: ServiceError, out: CommandOutput) -> bool {
    if journal_says_missing(out.stderr@) {
        e == ServiceError::ServiceNotFound(out.stderr)
    } else {
        e matches ServiceError::CommandFailed { command, exit_code, stderr } && command@
            == "journalctl"@ && exit_code == out.exit_code && stderr == out.stderr
    }
}

/// The outcome of a start, stop or restart run: success on status 0.
pub fn action_result(output: &CommandOutput) -> (r: Result<(), ServiceError>)
    ensures
        output.exit_code == 0 <==> r is Ok,
        r matches Err(e) ==> systemctl_error_ok(e, *output),
{
    if output.exit_code != 0 {
        return Err(parse_systemctl_error(output));
    }
    Ok(())
}

pub open spec fn list_args() -> Seq<Seq<char>> {
    seq![
        "list-units"@,
        "--type=service"@,
        "--all"@,
        "--no-pager"@,
        "--plain"@,
        "--no-legend"@,
    ]
}

/// An action and the unit it acts on.
pub open spec fn unit_args(action: Seq<char>, name: Seq<char>) -> Seq<Seq<char>> {
    seq![action, name]
}

pub open spec fn show_args(name: Seq<char>) -> Seq<Seq<char>> {
    seq!["show"@, name, "--property=ActiveState,SubState,MainPID,ActiveEnterTimestamp"@]
}

pub open spec fn logs_args(name: Seq<char>, lines: u32) -> Seq<Seq<char>> {
    seq!["-u"@, name, "-n"@, crate::text::dec(lines as nat), "--no-pager"@, "--output=json"@]
}

/// The result that a start, stop or restart gives for the executor's answer.
pub open spec fn action_outcome(o: Result<CommandOutput, ServiceError>, r: Result<(), ServiceError>) -> bool {
    match o {
        Ok(out) => (out.exit_code == 0 <==> r is Ok) && (r matches Err(e) ==> systemctl_error_ok(
            e,
            out,
        )),
        Err(e) => r == Err::<(), ServiceError>(e),
    }
}

/// All services, as `systemctl list-units` lists them.
pub fn list_services<E: CommandExecutor>(executor: &E) -> (r: Result<Vec<ServiceInfo>, ServiceError>)
    ensures
        exists|o: Result<CommandOutput, ServiceError>|
            #[trigger] executor.answers("systemctl"@, list_args(), o) && match o {
                Ok(out) => r matches Ok(v) && v@.map_values(|s: ServiceInfo| s@) == service_rows(
                    out.stdout@,
                ),
                Err(e) => r == Err::<Vec<ServiceInfo>, ServiceError>(e),
            },
{
    let args: Vec<&str> = vec![
        "list-units",
        "--type=service",
        "--all",
        "--no-pager",
        "--plain",
        "--no-legend",
    ];
    assert(arg_views(args@) =~= list_args());
    let o = executor.execute("systemctl", args.as_slice());
    let output = match o {
        Ok(x) => x,
        Err(e) => return Err(e),
    };
    parse_service_list(output.stdout.as_str())
}

/// What `get_service_status` gives: an invalid name fails before anything
/// runs; otherwise the status parsed from the executor's answer to `show`.
pub open spec fn status_outcome<E: CommandExecutor>(
    executor: E,
    name: Seq<char>,
    r: Result<ServiceStatus, ServiceError>,
) -> bool {
    &&& (!service_name_ok(name) ==> r matches Err(ServiceError::InvalidServiceName(_)))
    &&& (service_name_ok(name) ==> exists|o: Result<CommandOutput, ServiceError>|
        #[trigger] executor.answers("systemctl"@, show_args(name), o) && match o {
            Ok(out) => status_parsed(r, name, out.stdout@),
            Err(e) => r == Err::<ServiceStatus, ServiceError>(e),
        })
}

/// One service's status; the name is validated before anything runs.
pub fn get_service_status<E: CommandExecutor>(executor: &E, service_name: &str) -> (r: Result<
    ServiceStatus,
    ServiceError,
>)
    ensures
        status_outcome(*executor, service_name@, r),
{
    if let Err(e) = validate_service_name(service_name) {
        return Err(e);
    }
    let args: Vec<&str> = vec![
        "show",
        service_name,
        "--property=ActiveState,SubState,MainPID,ActiveEnterTimestamp",
    ];
    assert(arg_views(args@) =~= show_args(service_name@));
    let o = executor.execute("systemctl", args.as_slice());
    let output = match o {
        Ok(x) => x,
        Err(e) => return Err(e),
    };
    parse_service_status(service_name, output.stdout.as_str())
}

fn service_action<E: CommandExecutor>(executor: &E, action: &str, service_name: &str) -> (r: Result<
    (),
    ServiceError,
>)
    ensures
        !service_name_ok(service_name@) ==> r matches Err(ServiceError::InvalidServiceName(_)),
        service_name_ok(service_name@) ==> exists|o: Result<CommandOutput, ServiceError>|
            #[trigger] executor.answers("systemctl"@, unit_args(action@, service_name@), o)
                && action_outcome(o, r),
{
    if let Err(e) = validate_service_name(service_name) {
        return Err(e);
    }
    let args: Vec<&str> = vec![action, service_name];
    assert(arg_views(args@) =~= unit_args(action@, service_name@));
    let o = executor.execute("systemctl", args.as_slice());
    let output = match o {
        Ok(x) => x,
        Err(e) => return Err(e),
    };
    action_result(&output)
}

/// Starts a service; the name is validated before anything runs, and the
/// exit status maps as `systemctl_error_ok` says.
pub fn start_service<E: CommandExecutor>(executor: &E, service_name: &str) -> (r: Result<
    (),
    ServiceError,
>)
    ensures
        !service_name_ok(service_name@) ==> r matches Err(ServiceError::InvalidServiceName(_)),
        service_name_ok(service_name@) ==> exists|o: Result<CommandOutput, ServiceError>|
            #[trigger] executor.answers("systemctl"@, unit_args("start"@, service_name@), o)
                && action_outcome(o, r),
{
    service_action(executor, "start", service_name)
}

/// Stops a service; the name is validated before anything runs.
pub fn stop_service<E: CommandExecutor>(executor: &E, service_name: &str) -> (r: Result<
    (),
    ServiceError,
>)
    ensures
        !service_name_ok(service_name@) ==> r matches Err(ServiceError::InvalidServiceName(_)),
        service_name_ok(service_name@) ==> exists|o: Result<CommandOutput, ServiceError>|
            #[trigger] executor.answers("systemctl"@, unit_args("stop"@, service_name@), o)
                && action_outcome(o, r),
{
    service_action(executor, "stop", service_name)
}

/// Restarts a service; the name is validated before anything runs.
pub fn restart_service<E: CommandExecutor>(executor: &E, service_name: &str) -> (r: Result<
    (),
    ServiceError,
>)
    ensures
        !service_name_ok(service_name@) ==> r matches Err(ServiceError::InvalidServiceName(_)),
        service_name_ok(service_name@) ==> exists|o: Result<CommandOutput, ServiceError>|
            #[trigger] executor.answers("systemctl"@, unit_args("restart"@, service_name@), o)
                && action_outcome(o, r),
{
    service_action(executor, "restart", service_name)
}

pub open spec fn journal_has_no_entries(stderr: Seq<char>) -> bool {
    contains(stderr, "No journal files were found"@) || contains(stderr, "No entries"@)
}

/// What `parse_logs` gives for a dump.
pub open spec fn logs_parsed(r: Result<Vec<LogEntry>, ServiceError>, output: Seq<char>) -> bool {
    let ls = lines(output);
    &&& (r is Err <==> exists|i: int| 0 <= i < ls.len() && log_line_invalid(ls[i]))
    &&& (r matches Err(e) ==> e is ParseError)
    &&& (r matches Ok(v) ==> exists|now: UtcTime|
        v@.map_values(|e: LogEntry| e@) == #[trigger] logs_of(ls, now))
}

/// The result of a `journalctl` run for recent logs: the parsed entries on
/// status 0, none where the journal says it has none, the mapped error otherwise.
pub open spec fn logs_outcome(out: CommandOutput, r: Result<Vec<LogEntry>, ServiceError>) -> bool {
    if out.exit_code == 0 {
        logs_parsed(r, out.stdout@)
    } else if journal_has_no_entries(out.stderr@) {
        r matches Ok(v) && v.len() == 0
    } else {
        r matches Err(e) && journal_error_ok(e, out)
    }
}

/// The outcome of a `journalctl` run for recent logs.
pub fn logs_from_output(output: &CommandOutput) -> (r: Result<Vec<LogEntry>, ServiceError>)
    ensures
        logs_outcome(*output, r),
{
    if output.exit_code != 0 {
        let e = chars_of(output.stderr.as_str());
        if contains_chars(&e, &chars_of("No journal files were found")) || contains_chars(
            &e,
            &chars_of("No entries"),
        ) {
            return Ok(Vec::new());
        }
        return Err(parse_journalctl_error(output));
    }
    parse_logs(output.stdout.as_str())
}

/// The latest `lines` log entries of a service; the name is validated
/// before anything runs.
pub fn get_logs<E: CommandExecutor>(executor: &E, service_name: &str, lines: u32) -> (r: Result<
    Vec<LogEntry>,
    ServiceError,
>)
    ensures
        !service_name_ok(service_name@) ==> r matches Err(ServiceError::InvalidServiceName(_)),
        service_name_ok(service_name@) ==> exists|o: Result<CommandOutput, ServiceError>|
            #[trigger] executor.answers("journalctl"@, logs_args(service_name@, lines), o)
                && match o {
                Ok(out) => logs_outcome(out, r),
                Err(e) => r == Err::<Vec<LogEntry>, ServiceError>(e),
            },
{
    if let Err(e) = validate_service_name(service_name) {
        return Err(e);
    }
    let count = string_of(&crate::text::u64_to_chars(lines as u64));
    let args: Vec<&str> = vec!["-u", service_name, "-n", count.as_str(), "--no-pager", "--output=json"];
    assert(arg_views(args@) =~= logs_args(service_name@, lines));
    let o = executor.execute("journalctl", args.as_slice());
    let output = match o {
        Ok(x) => x,
        Err(e) => return Err(e),
    };
    logs_from_output(&output)
}

} // verus!
