//! The timer client: validating timer names, driving `systemctl` for timers
//! and reading what it prints.
use vstd::prelude::*;
use crate::error::{ServiceError, TimerError};
use crate::executor::{CommandExecutor, CommandOutput, arg_views};
use crate::services::unit_args;
use crate::schedule::{Schedule, calendar_text, part_of, Part, first_index, first_index_of};
use crate::text::{
    is_ws, is_whitespace, ends_with, ends_with_chars, starts_with, starts_with_chars, trim,
    trim_chars, words, split_words, lines, split_lines, views, keep_some, lemma_keep_some_step,
    join, join_chars, opt_str, chars_of, string_of, slice_chars, push_str, is_text, contains,
};

verus! {

/// A timer as the listing and the property dump describe it.
#[derive(Debug, Clone)]
pub struct TimerInfo {
    pub name: String,
    pub enabled: bool,
    pub schedule: String,
    pub next_run: Option<String>,
    pub last_trigger: Option<String>,
    pub service: String,
}

pub struct TimerInfoView {
    pub name: Seq<char>,
    pub enabled: bool,
    pub schedule: Seq<char>,
    pub next_run: Option<Seq<char>>,
    pub last_trigger: Option<Seq<char>>,
    pub service: Seq<char>,
}

impl View for TimerInfo {
    type V = TimerInfoView;

    open spec fn view(&self) -> TimerInfoView {
        TimerInfoView {
            name: self.name@,
            enabled: self.enabled,
            schedule: self.schedule@,
            next_run: opt_str(self.next_run),
            last_trigger: opt_str(self.last_trigger),
            service: self.service@,
        }
    }
}

/// The shell metacharacters that a timer name may not hold.
pub open spec fn is_meta(c: char) -> bool {
    c == '/' || c == '\\' || c == '|' || c == '&' || c == ';' || c == '`' || c == '$' || c
        == '\n' || c == '\r'
}

/// A timer name that may be handed to `systemctl`: not empty, no whitespace,
/// no shell metacharacter, ending in `.timer` or `.service`.
pub open spec fn timer_name_ok(n: Seq<char>) -> bool {
    &&& n.len() > 0
    &&& forall|i: int| 0 <= i < n.len() ==> !is_ws(#[trigger] n[i])
    &&& forall|i: int| 0 <= i < n.len() ==> !is_meta(#[trigger] n[i])
    &&& ends_with(n, ".timer"@) || ends_with(n, ".service"@)
}

/// One row of `systemctl list-timers`, where the line is one.
pub open spec fn timer_row(line: Seq<char>) -> Option<TimerInfoView> {
    let l = trim(line);
    let p = words(l);
    if l.len() == 0 || starts_with(l, "NEXT"@) || starts_with(l, "---"@) || p.len() < 7 {
        None
    } else {
        Some(
            TimerInfoView {
                name: p[p.len() - 2],
                enabled: true,
                schedule: Seq::empty(),
                next_run: if p[0] == "n/a"@ {
                    None
                } else {
                    Some(join(p.subrange(0, 5), " "@))
                },
                last_trigger: if p[5] == "n/a"@ {
                    None
                } else {
                    Some(p[5])
                },
                service: p[p.len() - 1],
            },
        )
    }
}

pub open spec fn timer_rows(output: Seq<char>) -> Seq<TimerInfoView> {
    keep_some(lines(output), |l: Seq<char>| timer_row(l))
}

pub open spec fn service_of_timer(t: Seq<char>) -> Option<Seq<char>> {
    if ends_with(t, ".timer"@) {
        Some(t.subrange(0, t.len() - 6) + ".service"@)
    } else {
        None
    }
}

/// The error that a non-zero exit status stands for.
pub open spec fn timer_exit_error_ok(e: TimerError, command: Seq<char>, out: CommandOutput) -> bool {
    if out.exit_code == 4 {
        e == TimerError::PermissionDenied(out.stderr)
    } else if out.exit_code == 5 {
        e == TimerError::NotFound(out.stderr)
    } else {
        e matches TimerError::CommandFailed { command: c, stderr, exit_code } && c@ == command
            && stderr == out.stderr && exit_code == Some(out.exit_code)
    }
}

/// Maps a non-zero exit status: 4 is a refused privilege, 5 a missing unit,
/// anything else a failed command.
pub fn timer_exit_error(command: Vec<char>, out: CommandOutput) -> (r: TimerError)
    ensures
        timer_exit_error_ok(r, command@, out),
{
    if out.exit_code == 4 {
        TimerError::PermissionDenied(out.stderr)
    } else if out.exit_code == 5 {
        TimerError::NotFound(out.stderr)
    } else {
        TimerError::CommandFailed {
            command: string_of(&command),
            stderr: out.stderr,
            exit_code: Some(out.exit_code),
        }
    }
}

/// The timer client's view of an executor failure: each kind maps to its
/// counterpart, a timeout to an I/O failure, any other failure to a failed
/// command without status.
pub open spec fn timer_error_of(e: ServiceError, r: TimerError) -> bool {
    match e {
        ServiceError::ServiceNotFound(m) => r == TimerError::NotFound(m),
        ServiceError::PermissionDenied(m) => r == TimerError::PermissionDenied(m),
        ServiceError::InvalidServiceName(m) => r == TimerError::InvalidInput(m),
        ServiceError::ParseError(m) => r matches TimerError::ParseError { reason, .. } && reason
            == m,
        ServiceError::Timeout(m) => r == TimerError::IoError(m),
        ServiceError::CommandFailed { command, exit_code, stderr } => r == TimerError::CommandFailed {
            command,
            stderr,
            exit_code: Some(exit_code),
        },
        ServiceError::IoError(m) => r == TimerError::IoError(m),
        ServiceError::Other(m) => r matches TimerError::CommandFailed { stderr, exit_code, .. }
            && stderr == m && exit_code is None,
    }
}

pub fn timer_error_from(e: ServiceError) -> (r: TimerError)
    ensures
        timer_error_of(e, r),
{
    match e {
        ServiceError::ServiceNotFound(m) => TimerError::NotFound(m),
        ServiceError::PermissionDenied(m) => TimerError::PermissionDenied(m),
        ServiceError::InvalidServiceName(m) => TimerError::InvalidInput(m),
        ServiceError::ParseError(m) => TimerError::ParseError {
            source: string_of(&chars_of("command output")),
            reason: m,
        },
        ServiceError::Timeout(m) => TimerError::IoError(m),
        ServiceError::CommandFailed { command, exit_code, stderr } => TimerError::CommandFailed {
            command,
            stderr,
            exit_code: Some(exit_code),
        },
        ServiceError::IoError(m) => TimerError::IoError(m),
        ServiceError::Other(m) => TimerError::CommandFailed {
            command: String::new(),
            stderr: m,
            exit_code: None,
        },
    }
}


/// The calendar expression in a `TimersCalendar` value such as
/// `{ OnCalendar=daily ; next_elapse=... }`.
pub open spec fn on_calendar_of(v: Seq<char>) -> Option<Seq<char>> {
    if !contains(v, "OnCalendar="@) {
        None
    } else {
        let after = v.skip(first_index(v, "OnCalendar="@) + "OnCalendar="@.len());
        let end = if contains(after, ";"@) {
            first_index(after, ";"@)
        } else if contains(after, "}"@) {
            first_index(after, "}"@)
        } else {
            after.len() as int
        };
        let cal = trim(after.take(end));
        if cal.len() > 0 {
            Some(cal)
        } else {
            None
        }
    }
}

/// What the property dump of a timer has told so far.
pub struct InfoState {
    pub id: Seq<char>,
    pub load_state: Seq<char>,
    pub unit_file_state: Seq<char>,
    pub active_state: Seq<char>,
    pub next_elapse: Option<Seq<char>>,
    pub last_trigger: Option<Seq<char>>,
    pub calendars: Seq<Seq<char>>,
}

pub open spec fn set_time(old: Option<Seq<char>>, v: Seq<char>) -> Option<Seq<char>> {
    if v != "0"@ && v.len() > 0 {
        Some(v)
    } else {
        old
    }
}

pub open spec fn value_after(line: Seq<char>, key: Seq<char>) -> Seq<char> {
    line.skip(key.len() as int)
}

/// The state after one `KEY=VALUE` line; a later line for a key wins.
pub open spec fn apply_info_line(st: InfoState, line: Seq<char>) -> InfoState {
    if starts_with(line, "Id="@) {
        InfoState { id: value_after(line, "Id="@), ..st }
    } else if starts_with(line, "LoadState="@) {
        InfoState { load_state: value_after(line, "LoadState="@), ..st }
    } else if starts_with(line, "UnitFileState="@) {
        InfoState { unit_file_state: value_after(line, "UnitFileState="@), ..st }
    } else if starts_with(line, "ActiveState="@) {
        InfoState { active_state: value_after(line, "ActiveState="@), ..st }
    } else if starts_with(line, "NextElapseUSecRealtime="@) {
        InfoState {
            next_elapse: set_time(st.next_elapse, value_after(line, "NextElapseUSecRealtime="@)),
            ..st
        }
    } else if starts_with(line, "LastTriggerUSec="@) {
        InfoState {
            last_trigger: set_time(st.last_trigger, value_after(line, "LastTriggerUSec="@)),
            ..st
        }
    } else if starts_with(line, "TimersCalendar="@) {
        match on_calendar_of(value_after(line, "TimersCalendar="@)) {
            Some(c) => InfoState { calendars: st.calendars.push(c), ..st },
            None => st,
        }
    } else {
        st
    }
}

pub open spec fn info_state(ls: Seq<Seq<char>>) -> InfoState
    decreases ls.len(),
{
    if ls.len() == 0 {
        InfoState {
            id: Seq::empty(),
            load_state: Seq::empty(),
            unit_file_state: Seq::empty(),
            active_state: Seq::empty(),
            next_elapse: None,
            last_trigger: None,
            calendars: Seq::empty(),
        }
    } else {
        apply_info_line(info_state(ls.drop_last()), ls.last())
    }
}

pub open spec fn schedules_text(entries: Seq<Seq<char>>) -> Seq<char> {
    join(entries.map_values(|e: Seq<char>| calendar_text(e)), ", "@)
}

/// The timer that a property dump describes, for the timer `name`.
pub open spec fn timer_of_state(st: InfoState, name: Seq<char>) -> TimerInfoView {
    TimerInfoView {
        name: st.id,
        enabled: st.unit_file_state == "enabled"@ && st.active_state == "active"@,
        schedule: if st.calendars.len() == 0 {
            "Schedule not available"@
        } else {
            schedules_text(st.calendars)
        },
        next_run: st.next_elapse,
        last_trigger: st.last_trigger,
        service: match service_of_timer(name) {
            Some(s) => s,
            None => name,
        },
    }
}


pub open spec fn state_of(
    id: Seq<char>,
    load_state: Seq<char>,
    unit_file_state: Seq<char>,
    active_state: Seq<char>,
    next_elapse: Option<Seq<char>>,
    last_trigger: Option<Seq<char>>,
    calendars: Seq<Seq<char>>,
) -> InfoState {
    InfoState { id, load_state, unit_file_state, active_state, next_elapse, last_trigger, calendars }
}

/// The value after `key` where `line` starts with it.
fn value_of(line: &Vec<char>, key: &str) -> (r: Option<Vec<char>>)
    ensures
        r is Some <==> starts_with(line@, key@),
        r matches Some(v) ==> v@ == value_after(line@, key@),
{
    let k = chars_of(key);
    if starts_with_chars(line, &k) {
        let v = slice_chars(line, k.len(), line.len());
        assert(v@ =~= value_after(line@, key@));
        Some(v)
    } else {
        None
    }
}

fn time_value(old: Option<Vec<char>>, v: Vec<char>) -> (r: Option<Vec<char>>)
    ensures
        opt_chars(r) == set_time(opt_chars(old), v@),
{
    if !is_text(&v, "0") && v.len() > 0 {
        Some(v)
    } else {
        old
    }
}

pub open spec fn opt_chars(o: Option<Vec<char>>) -> Option<Seq<char>> {
    match o {
        Some(v) => Some(v@),
        None => None,
    }
}

fn string_opt(o: Option<Vec<char>>) -> (r: Option<String>)
    ensures
        opt_str(r) == opt_chars(o),
{
    match o {
        Some(v) => Some(string_of(&v)),
        None => None,
    }
}

/// What `parse_timer_info` gives for a property dump of the timer `name`.
pub open spec fn timer_info_parsed(r: Result<TimerInfo, TimerError>, output: Seq<char>, name: Seq<char>) -> bool {
    let st = info_state(lines(output));
    &&& (r is Err <==> st.load_state == "not-found"@)
    &&& (r matches Err(e) ==> (e matches TimerError::NotFound(n) && n@ == name))
    &&& (r matches Ok(t) ==> t@ == timer_of_state(st, name))
}

pub open spec fn timer_list_args() -> Seq<Seq<char>> {
    seq!["list-timers"@, "--all"@, "--no-pager"@, "--plain"@]
}

pub open spec fn timer_show_args(name: Seq<char>) -> Seq<Seq<char>> {
    seq![
        "show"@,
        name,
        "--property=Id,LoadState,UnitFileState,ActiveState,NextElapseUSecRealtime,LastTriggerUSec,TimersCalendar"@,
    ]
}

pub open spec fn run_args(service: Seq<char>) -> Seq<Seq<char>> {
    seq!["start"@, "--no-block"@, service]
}

/// An answer that lets the next step go ahead: the command ran and exited 0.
pub open spec fn step_ok(o: Result<CommandOutput, ServiceError>) -> bool {
    o matches Ok(out) && out.exit_code == 0
}

/// The result of one `systemctl` step for the executor's answer: success on
/// status 0, the mapped status otherwise, the mapped failure where it did not run.
pub open spec fn step_outcome(
    o: Result<CommandOutput, ServiceError>,
    command: Seq<char>,
    r: Result<(), TimerError>,
) -> bool {
    match o {
        Ok(out) => (out.exit_code == 0 <==> r is Ok) && (r matches Err(e) ==> timer_exit_error_ok(
            e,
            command,
            out,
        )),
        Err(e) => r matches Err(te) && timer_error_of(e, te),
    }
}

/// The result of one `systemctl` step, given the executor's answer.
pub fn step_result(o: Result<CommandOutput, ServiceError>, command: Vec<char>) -> (r: Result<
    (),
    TimerError,
>)
    ensures
        step_outcome(o, command@, r),
{
    match o {
        Ok(out) => if out.exit_code != 0 {
            Err(timer_exit_error(command, out))
        } else {
            Ok(())
        },
        Err(e) => Err(timer_error_from(e)),
    }
}

/// The result of `get_timer_info` for the executor's answer to `show`.
pub open spec fn timer_info_outcome(
    o: Result<CommandOutput, ServiceError>,
    name: Seq<char>,
    r: Result<TimerInfo, TimerError>,
) -> bool {
    match o {
        Ok(out) => if out.exit_code != 0 {
            r matches Err(e) && timer_exit_error_ok(e, "systemctl show "@ + name, out)
        } else {
            timer_info_parsed(r, out.stdout@, name)
        },
        Err(e) => r matches Err(te) && timer_error_of(e, te),
    }
}

/// What `get_timer_info` gives: an invalid name fails before anything runs;
/// otherwise the timer that the executor's answer to `show` describes.
pub open spec fn timer_info_result<E: CommandExecutor>(
    executor: E,
    name: Seq<char>,
    r: Result<TimerInfo, TimerError>,
) -> bool {
    &&& (!timer_name_ok(name) ==> r matches Err(TimerError::InvalidInput(_)))
    &&& (timer_name_ok(name) ==> exists|o: Result<CommandOutput, ServiceError>|
        #[trigger] executor.answers("systemctl"@, timer_show_args(name), o) && timer_info_outcome(
            o,
            name,
            r,
        ))
}

/// The two steps of enabling or disabling: the second runs only where the
/// first exited 0, and a failure of either is the result, with no rollback.
pub open spec fn two_steps<E: CommandExecutor>(
    executor: E,
    first: Seq<char>,
    second: Seq<char>,
    name: Seq<char>,
    r: Result<(), TimerError>,
) -> bool {
    exists|o1: Result<CommandOutput, ServiceError>|
        #[trigger] executor.answers("systemctl"@, unit_args(first, name), o1) && if step_ok(o1) {
            exists|o2: Result<CommandOutput, ServiceError>|
                #[trigger] executor.answers("systemctl"@, unit_args(second, name), o2)
                    && step_outcome(o2, "systemctl "@ + second + " "@ + name, r)
        } else {
            step_outcome(o1, "systemctl "@ + first + " "@ + name, r)
        }
}

/// Drives `systemctl` for timers through an executor.
pub struct SystemctlClient<E: CommandExecutor> {
    executor: E,
}

impl<E: CommandExecutor> SystemctlClient<E> {
    /// The executor that the client runs its commands through.
    pub closed spec fn executor(&self) -> E {
        self.executor
    }

    pub fn new(executor: E) -> (r: Self)
        ensures
            r.executor() == executor,
    {
        SystemctlClient { executor }
    }

    /// Accepts a timer name only where it is safe to hand to `systemctl`.
    pub fn validate_timer_name(name: &str) -> (r: Result<(), TimerError>)
        ensures
            r is Ok <==> timer_name_ok(name@),
            r matches Err(e) ==> e is InvalidInput,
    {
        let n = chars_of(name);
        if n.len() == 0 {
            return Err(TimerError::InvalidInput(string_of(&chars_of("Timer name cannot be empty"))));
        }
        let mut i: usize = 0;
        while i < n.len()
            invariant
                i <= n.len(),
                n@ == name@,
                forall|k: int| 0 <= k < i ==> !is_ws(#[trigger] n@[k]),
            decreases n.len() - i,
        {
            if is_whitespace(n[i]) {
                return Err(
                    TimerError::InvalidInput(
                        string_of(&chars_of("Timer name cannot contain whitespace")),
                    ),
                );
            }
            i += 1;
        }
        let mut i: usize = 0;
        while i < n.len()
            invariant
                i <= n.len(),
                n@ == name@,
                forall|k: int| 0 <= k < i ==> !is_meta(#[trigger] n@[k]),
            decreases n.len() - i,
        {
            let c = n[i];
            if c == '/' || c == '\\' || c == '|' || c == '&' || c == ';' || c == '`' || c == '$'
                || c == '\n' || c == '\r' {
                return Err(
                    TimerError::InvalidInput(
                        string_of(&chars_of("Timer name contains invalid characters")),
                    ),
                );
            }
            i += 1;
        }
        if !ends_with_chars(&n, &chars_of(".timer")) && !ends_with_chars(&n, &chars_of(".service")) {
            return Err(
                TimerError::InvalidInput(
                    string_of(&chars_of("Timer name must end with .timer or .service")),
                ),
            );
        }
        Ok(())
    }

    /// The service that a timer activates: `foo.timer` gives `foo.service`.
    pub fn timer_to_service(timer: &str) -> (r: Result<String, TimerError>)
        ensures
            r is Ok <==> service_of_timer(timer@) is Some,
            r matches Ok(s) ==> s@ == service_of_timer(timer@)->0,
            r matches Err(e) ==> e is InvalidInput,
    {
        let t = chars_of(timer);
        let suffix = chars_of(".timer");
        if ends_with_chars(&t, &suffix) {
            proof {
                reveal_strlit(".timer");
            }
            let mut base = slice_chars(&t, 0, t.len() - suffix.len());
            push_str(&mut base, ".service");
            Ok(string_of(&base))
        } else {
            Err(TimerError::InvalidInput(string_of(&chars_of("Timer name must end with .timer"))))
        }
    }


    /// The calendar expression of a `TimersCalendar` value.
    pub fn extract_on_calendar(value: &str) -> (r: Option<String>)
        ensures
            opt_str(r) == on_calendar_of(value@),
    {
        let v = chars_of(value);
        let key = chars_of("OnCalendar=");
        match first_index_of(&v, &key) {
            None => None,
            Some(start) => {
                let vl = v.len();
                assert(start + key@.len() <= vl);
                let after = slice_chars(&v, start + key.len(), vl);
                assert(after@ =~= v@.skip(first_index(v@, "OnCalendar="@) + "OnCalendar="@.len()));
                let end = match first_index_of(&after, &chars_of(";")) {
                    Some(e) => e,
                    None => match first_index_of(&after, &chars_of("}")) {
                        Some(e) => e,
                        None => after.len(),
                    },
                };
                let piece = slice_chars(&after, 0, end);
                assert(piece@ =~= after@.take(end as int));
                let cal = trim_chars(&piece);
                if cal.len() > 0 {
                    Some(string_of(&cal))
                } else {
                    None
                }
            },
        }
    }

    /// Calendar expressions as people read them, joined by `, `.
    pub fn humanize_schedules(entries: &Vec<String>) -> (r: String)
        ensures
            r@ == schedules_text(entries@.map_values(|e: String| e@)),
    {
        let ghost ev = entries@.map_values(|e: String| e@);
        let mut acc: Vec<char> = Vec::new();
        let mut i: usize = 0;
        while i < entries.len()
            invariant
                i <= entries.len(),
                ev == entries@.map_values(|e: String| e@),
                acc@ == join(
                    ev.map_values(|e: Seq<char>| calendar_text(e)).take(i as int),
                    ", "@,
                ),
            decreases entries.len() - i,
        {
            let text = match Schedule::parse(Some(entries[i].as_str()), None, None) {
                Ok(s) => {
                    assert(part_of(s) == Some(Part::Calendar(entries[i as int]@)));
                    s.humanize()
                },
                Err(_) => entries[i].clone(),
            };
            let ghost hs = ev.map_values(|e: Seq<char>| calendar_text(e));
            assert(hs.take(i + 1).drop_last() =~= hs.take(i as int));
            if i > 0 {
                push_str(&mut acc, ", ");
            } else {
                assert(hs.take(1) =~= seq![hs[0]]);
            }
            push_str(&mut acc, text.as_str());
            i += 1;
        }
        assert(ev.map_values(|e: Seq<char>| calendar_text(e)).take(i as int) =~= ev.map_values(
            |e: Seq<char>| calendar_text(e),
        ));
        string_of(&acc)
    }


    /// The timer that a `systemctl show` property dump describes.
    pub fn parse_timer_info(&self, output: &str, name: &str) -> (r: Result<TimerInfo, TimerError>)
        ensures
            timer_info_parsed(r, output@, name@),
    {
        let text = chars_of(output);
        let ls = split_lines(&text);
        let ghost lv = views(ls@);
        let mut id: Vec<char> = Vec::new();
        let mut load_state: Vec<char> = Vec::new();
        let mut unit_file_state: Vec<char> = Vec::new();
        let mut active_state: Vec<char> = Vec::new();
        let mut next_elapse: Option<Vec<char>> = None;
        let mut last_trigger: Option<Vec<char>> = None;
        let mut calendars: Vec<String> = Vec::new();
        let mut i: usize = 0;
        assert(calendars@.map_values(|e: String| e@) =~= Seq::<Seq<char>>::empty());
        assert(lv.take(0) =~= Seq::<Seq<char>>::empty());
        while i < ls.len()
            invariant
                i <= ls.len(),
                lv == views(ls@),
                lv == lines(output@),
                info_state(lv.take(i as int)) == state_of(
                    id@,
                    load_state@,
                    unit_file_state@,
                    active_state@,
                    opt_chars(next_elapse),
                    opt_chars(last_trigger),
                    calendars@.map_values(|e: String| e@),
                ),
            decreases ls.len() - i,
        {
            let line = &ls[i];
            assert(lv.take(i + 1).drop_last() =~= lv.take(i as int));
            assert(lv[i as int] == line@);
            if let Some(v) = value_of(line, "Id=") {
                id = v;
            } else if let Some(v) = value_of(line, "LoadState=") {
                load_state = v;
            } else if let Some(v) = value_of(line, "UnitFileState=") {
                unit_file_state = v;
            } else if let Some(v) = value_of(line, "ActiveState=") {
                active_state = v;
            } else if let Some(v) = value_of(line, "NextElapseUSecRealtime=") {
                next_elapse = time_value(next_elapse, v);
            } else if let Some(v) = value_of(line, "LastTriggerUSec=") {
                last_trigger = time_value(last_trigger, v);
            } else if let Some(v) = value_of(line, "TimersCalendar=") {
                let vs = string_of(&v);
                if let Some(cal) = Self::extract_on_calendar(vs.as_str()) {
                    let ghost before = calendars@.map_values(|e: String| e@);
                    calendars.push(cal);
                    assert(calendars@.map_values(|e: String| e@) =~= before.push(cal@));
                }
            }
            i += 1;
        }
        assert(lv.take(ls.len() as int) =~= lv);
        if is_text(&load_state, "not-found") {
            return Err(TimerError::NotFound(string_of(&chars_of(name))));
        }
        let enabled = is_text(&unit_file_state, "enabled") && is_text(&active_state, "active");
        let service = match Self::timer_to_service(name) {
            Ok(s) => s,
            Err(_) => string_of(&chars_of(name)),
        };
        let schedule = if calendars.len() == 0 {
            string_of(&chars_of("Schedule not available"))
        } else {
            Self::humanize_schedules(&calendars)
        };
        Ok(
            TimerInfo {
                name: string_of(&id),
                enabled,
                schedule,
                next_run: string_opt(next_elapse),
                last_trigger: string_opt(last_trigger),
                service,
            },
        )
    }

    /// All timers, as `systemctl list-timers` lists them.
    pub fn list_timers(&self) -> (r: Result<Vec<TimerInfo>, TimerError>)
        ensures
            exists|o: Result<CommandOutput, ServiceError>|
                #[trigger] self.executor().answers("systemctl"@, timer_list_args(), o) && match o {
                    Ok(out) => if out.exit_code != 0 {
                        r matches Err(e) && timer_exit_error_ok(e, "systemctl list-timers"@, out)
                    } else {
                        r matches Ok(v) && v@.map_values(|t: TimerInfo| t@) == timer_rows(
                            out.stdout@,
                        )
                    },
                    Err(e) => r matches Err(te) && timer_error_of(e, te),
                },
    {
        let args: Vec<&str> = vec!["list-timers", "--all", "--no-pager", "--plain"];
        assert(arg_views(args@) =~= timer_list_args());
        let o = self.executor.execute("systemctl", args.as_slice());
        assert(self.executor() == self.executor);
        let output = match o {
            Ok(x) => x,
            Err(e) => return Err(timer_error_from(e)),
        };
        if output.exit_code != 0 {
            proof {
                reveal_strlit("systemctl list-timers");
            }
            return Err(timer_exit_error(chars_of("systemctl list-timers"), output));
        }
        self.parse_list_timers(output.stdout.as_str())
    }

    /// One timer's state; the name is validated before anything runs.
    pub fn get_timer_info(&self, name: &str) -> (r: Result<TimerInfo, TimerError>)
        ensures
            timer_info_result(self.executor(), name@, r),
    {
        if let Err(e) = Self::validate_timer_name(name) {
            return Err(e);
        }
        let args: Vec<&str> = vec![
            "show",
            name,
            "--property=Id,LoadState,UnitFileState,ActiveState,NextElapseUSecRealtime,LastTriggerUSec,TimersCalendar",
        ];
        assert(arg_views(args@) =~= timer_show_args(name@));
        let o = self.executor.execute("systemctl", args.as_slice());
        assert(self.executor() == self.executor);
        let output = match o {
            Ok(x) => x,
            Err(e) => return Err(timer_error_from(e)),
        };
        if output.exit_code != 0 {
            let mut c = chars_of("systemctl show ");
            push_str(&mut c, name);
            return Err(timer_exit_error(c, output));
        }
        self.parse_timer_info(output.stdout.as_str(), name)
    }

    /// Runs one `systemctl` step and maps its outcome.
    fn run_step(&self, args: &[&str], command: Vec<char>) -> (r: Result<(), TimerError>)
        ensures
            exists|o: Result<CommandOutput, ServiceError>|
                #[trigger] self.executor().answers("systemctl"@, arg_views(args@), o)
                    && step_outcome(o, command@, r),
    {
        let o = self.executor.execute("systemctl", args);
        assert(self.executor() == self.executor);
        step_result(o, command)
    }

    /// Starts the timer's service now, without waiting for it to finish.
    pub fn run_timer(&self, name: &str, test_mode: bool) -> (r: Result<(), TimerError>)
        ensures
            !timer_name_ok(name@) ==> r matches Err(TimerError::InvalidInput(_)),
            timer_name_ok(name@) && service_of_timer(name@) is None ==> r matches Err(
                TimerError::InvalidInput(_),
            ),
            timer_name_ok(name@) && service_of_timer(name@) is Some ==> exists|
                o: Result<CommandOutput, ServiceError>,
            |
                #[trigger] self.executor().answers(
                    "systemctl"@,
                    run_args(service_of_timer(name@)->0),
                    o,
                ) && step_outcome(o, "systemctl start "@ + service_of_timer(name@)->0, r),
    {
        if let Err(e) = Self::validate_timer_name(name) {
            return Err(e);
        }
        let service = match Self::timer_to_service(name) {
            Ok(s) => s,
            Err(e) => return Err(e),
        };
        let args: Vec<&str> = vec!["start", "--no-block", service.as_str()];
        assert(arg_views(args@) =~= run_args(service@));
        let mut c = chars_of("systemctl start ");
        push_str(&mut c, service.as_str());
        self.run_step(args.as_slice(), c)
    }

    /// Runs `systemctl <first> <name>`, then `systemctl <second> <name>` only
    /// where the first exited 0; a failure of either is the result.
    fn two_step(&self, first: &str, second: &str, name: &str) -> (r: Result<(), TimerError>)
        ensures
            two_steps(self.executor(), first@, second@, name@, r),
    {
        let args: Vec<&str> = vec![first, name];
        assert(arg_views(args@) =~= unit_args(first@, name@));
        let mut c = chars_of("systemctl ");
        push_str(&mut c, first);
        push_str(&mut c, " ");
        push_str(&mut c, name);
        let o1 = self.executor.execute("systemctl", args.as_slice());
        assert(self.executor() == self.executor);
        let ok = match &o1 {
            Ok(out) => out.exit_code == 0,
            Err(_) => false,
        };
        if !ok {
            return step_result(o1, c);
        }
        let args2: Vec<&str> = vec![second, name];
        assert(arg_views(args2@) =~= unit_args(second@, name@));
        let mut c2 = chars_of("systemctl ");
        push_str(&mut c2, second);
        push_str(&mut c2, " ");
        push_str(&mut c2, name);
        let o2 = self.executor.execute("systemctl", args2.as_slice());
        step_result(o2, c2)
    }

    /// Enables a timer for boot and then starts it; the start is tried only
    /// after the enable succeeded, and nothing is rolled back.
    pub fn enable_timer(&self, name: &str) -> (r: Result<(), TimerError>)
        ensures
            !timer_name_ok(name@) ==> r matches Err(TimerError::InvalidInput(_)),
            timer_name_ok(name@) ==> two_steps(self.executor(), "enable"@, "start"@, name@, r),
    {
        if let Err(e) = Self::validate_timer_name(name) {
            return Err(e);
        }
        self.two_step("enable", "start", name)
    }

    /// Stops a timer and then disables it for boot; the disable is tried
    /// only after the stop succeeded, and nothing is rolled back.
    pub fn disable_timer(&self, name: &str) -> (r: Result<(), TimerError>)
        ensures
            !timer_name_ok(name@) ==> r matches Err(TimerError::InvalidInput(_)),
            timer_name_ok(name@) ==> two_steps(self.executor(), "stop"@, "disable"@, name@, r),
    {
        if let Err(e) = Self::validate_timer_name(name) {
            return Err(e);
        }
        self.two_step("stop", "disable", name)
    }

    /// The timers of a `systemctl list-timers` table: header, rule and short
    /// lines are skipped.
    pub fn parse_list_timers(&self, output: &str) -> (r: Result<Vec<TimerInfo>, TimerError>)
        ensures
            r matches Ok(v) && v@.map_values(|t: TimerInfo| t@) == timer_rows(output@),
    {
        let text = chars_of(output);
        let ls = split_lines(&text);
        let ghost lv = views(ls@);
        let mut timers: Vec<TimerInfo> = Vec::new();
        let mut i: usize = 0;
        while i < ls.len()
            invariant
                i <= ls.len(),
                lv == views(ls@),
                lv == lines(output@),
                timers@.map_values(|t: TimerInfo| t@) == keep_some(
                    lv.take(i as int),
                    |l: Seq<char>| timer_row(l),
                ),
            decreases ls.len() - i,
        {
            proof {
                lemma_keep_some_step(lv, |l: Seq<char>| timer_row(l), i as int);
            }
            let l = trim_chars(&ls[i]);
            let skip = l.len() == 0 || starts_with_chars(&l, &chars_of("NEXT")) || starts_with_chars(
                &l,
                &chars_of("---"),
            );
            let parts = split_words(&l);
            assert(lv[i as int] == ls@[i as int]@);
            if !skip && parts.len() >= 7 {
                let ghost p = views(parts@);
                let n = parts.len();
                let next_run = if is_text(&parts[0], "n/a") {
                    None
                } else {
                    Some(string_of(&join_chars(&parts, 0, 5, " ")))
                };
                let last_trigger = if is_text(&parts[5], "n/a") {
                    None
                } else {
                    Some(string_of(&parts[5]))
                };
                let info = TimerInfo {
                    name: string_of(&parts[n - 2]),
                    enabled: true,
                    schedule: String::new(),
                    next_run,
                    last_trigger,
                    service: string_of(&parts[n - 1]),
                };
                assert(info@ == timer_row(lv[i as int])->0);
                timers.push(info);
                assert(timers@.map_values(|t: TimerInfo| t@) =~= keep_some(
                    lv.take(i as int),
                    |l: Seq<char>| timer_row(l),
                ).push(info@));
            }
            i += 1;
        }
        assert(lv.take(ls.len() as int) =~= lv);
        Ok(timers)
    }
}

} // verus!
