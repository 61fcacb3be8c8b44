//! What the request layer needs from the clients without owning any of
//! their logic: query strings, the rows of the status overviews, and the
//! preference of a run's log file over its journal messages.
use vstd::prelude::*;
use vstd::string::StrSliceExecFns;
use crate::executor::{CommandExecutor, CommandOutput, arg_views};
use crate::error::{ServiceError, TimerError};
use crate::schedule::{strip_all, strip_all_chars};
use crate::journal::{ExecutionDetails, ExecutionStatus, string_views};
use crate::schedule::{first_index, first_index_of};
use crate::services::{get_service_status, status_outcome, ServiceStatus};
use crate::text::{
    split, split_chars, views, keep_some, lemma_keep_some_step, contains, chars_of, string_of,
    slice_chars, lines, split_lines, is_text, push_str, replace_all, replace_chars, opt_str,
    parse_u64, unsigned_of, push_all,
};
use crate::journal::{JournalClient, ExecutionHistory, history_result};
use crate::timers::{SystemctlClient, TimerInfo, timer_info_result};

verus! {

/// The `key=value` pair that one piece of a query string holds.
pub open spec fn query_pair(pair: Seq<char>) -> Option<(Seq<char>, Seq<char>)> {
    if contains(pair, "="@) {
        let e = first_index(pair, "="@);
        Some((pair.take(e), pair.skip(e + 1)))
    } else {
        None
    }
}

/// The pairs of the query string after the first `?`, in order; pieces
/// without `=` are skipped.
pub open spec fn query_pairs(path: Seq<char>) -> Seq<(Seq<char>, Seq<char>)> {
    if !contains(path, "?"@) {
        seq![]
    } else {
        let q = path.skip(first_index(path, "?"@) + 1);
        keep_some(split(q, '&'), |p: Seq<char>| query_pair(p))
    }
}

/// The value of the last pair named `key`, as a map filled in order keeps it.
pub open spec fn last_value(pairs: Seq<(Seq<char>, Seq<char>)>, key: Seq<char>) -> Option<
    Seq<char>,
>
    decreases pairs.len(),
{
    if pairs.len() == 0 {
        None
    } else if pairs.last().0 == key {
        Some(pairs.last().1)
    } else {
        last_value(pairs.drop_last(), key)
    }
}

pub open spec fn pair_views(v: Seq<(String, String)>) -> Seq<(Seq<char>, Seq<char>)> {
    v.map_values(|p: (String, String)| (p.0@, p.1@))
}

/// The `key=value` pairs of a path's query string, in order.
pub fn parse_query_params(path: &str) -> (r: Vec<(String, String)>)
    ensures
        pair_views(r@) == query_pairs(path@),
{
    let p = chars_of(path);
    let qm = chars_of("?");
    let eq = chars_of("=");
    proof {
        reveal_strlit("?");
        reveal_strlit("=");
    }
    let mut params: Vec<(String, String)> = Vec::new();
    match first_index_of(&p, &qm) {
        None => {
            assert(pair_views(params@) =~= Seq::<(Seq<char>, Seq<char>)>::empty());
            params
        },
        Some(start) => {
            let pl = p.len();
            assert(start + qm@.len() <= pl);
            let q = slice_chars(&p, start + 1, pl);
            assert(q@ =~= path@.skip(first_index(path@, "?"@) + 1));
            let pieces = split_chars(&q, '&');
            let ghost pv = views(pieces@);
            let mut i: usize = 0;
            while i < pieces.len()
                invariant
                    i <= pieces.len(),
                    pv == views(pieces@),
                    pv == split(q@, '&'),
                    eq@ == "="@,
                    pair_views(params@) == keep_some(pv.take(i as int), |p: Seq<char>| query_pair(p)),
                decreases pieces.len() - i,
            {
                proof {
                    lemma_keep_some_step(pv, |p: Seq<char>| query_pair(p), i as int);
                }
                let piece = &pieces[i];
                assert(pv[i as int] == piece@);
                if let Some(e) = first_index_of(piece, &eq) {
                    let n = piece.len();
                    proof {
                        reveal_strlit("=");
                    }
                    assert(e + eq@.len() <= n);
                    let key = slice_chars(piece, 0, e);
                    let value = slice_chars(piece, e + 1, n);
                    assert(key@ =~= piece@.take(e as int));
                    assert(value@ =~= piece@.skip(e + 1));
                    let ghost before = pair_views(params@);
                    let pair = (string_of(&key), string_of(&value));
                    params.push(pair);
                    assert(pair_views(params@) =~= before.push((key@, value@)));
                }
                i += 1;
            }
            assert(pv.take(pieces.len() as int) =~= pv);
            params
        },
    }
}

/// The value of `key` in parsed query pairs; a later pair wins.
pub fn query_param(params: &Vec<(String, String)>, key: &str) -> (r: Option<String>)
    ensures
        crate::text::opt_str(r) == last_value(pair_views(params@), key@),
{
    let ghost pv = pair_views(params@);
    let k = chars_of(key);
    let mut i: usize = params.len();
    assert(pv.take(i as int) =~= pv);
    while i > 0
        invariant
            i <= params.len(),
            pv == pair_views(params@),
            k@ == key@,
            last_value(pv, key@) == last_value(pv.take(i as int), key@),
        decreases i,
    {
        assert(pv.take(i as int).last() == (params@[i - 1].0@, params@[i - 1].1@));
        assert(pv.take(i as int).drop_last() =~= pv.take(i - 1));
        if crate::text::chars_eq(&chars_of(params[i - 1].0.as_str()), &k) {
            return Some(string_of(&chars_of(params[i - 1].1.as_str())));
        }
        i -= 1;
    }
    None
}

/// The text before the first `?`, or the whole path.
pub open spec fn path_part(path: Seq<char>) -> Seq<char> {
    if contains(path, "?"@) {
        path.take(first_index(path, "?"@))
    } else {
        path
    }
}

/// A path without its query string.
pub fn path_without_query(path: &str) -> (r: &str)
    ensures
        r@ == path_part(path@),
{
    let p = chars_of(path);
    match first_index_of(&p, &chars_of("?")) {
        Some(i) => {
            let r = path.substring_char(0, i);
            assert(r@ =~= path@.take(i as int));
            r
        },
        None => path,
    }
}

/// One row of the overview of watched services.
#[derive(Debug, Clone)]
pub struct ServiceStatusResponse {
    pub name: String,
    pub status: String,
    pub active_state: String,
    pub sub_state: String,
    pub uptime_seconds: u64,
}

/// The short status shown for an active state.
pub open spec fn simple_status(active_state: Seq<char>) -> Seq<char> {
    if active_state == "active"@ {
        "running"@
    } else if active_state == "failed"@ {
        "failed"@
    } else {
        "inactive"@
    }
}

impl ServiceStatusResponse {
    /// The row of a service whose status could be read.
    pub fn from_status(status: ServiceStatus) -> (r: Self)
        ensures
            r.name@ == status.name@,
            r.status@ == simple_status(status.active_state@),
            r.active_state@ == status.active_state@,
            r.sub_state@ == status.sub_state@,
            r.uptime_seconds == status.uptime_seconds,
    {
        let a = chars_of(status.active_state.as_str());
        let simple = if is_text(&a, "active") {
            "running"
        } else if is_text(&a, "failed") {
            "failed"
        } else {
            "inactive"
        };
        ServiceStatusResponse {
            name: status.name,
            status: string_of(&chars_of(simple)),
            active_state: status.active_state,
            sub_state: status.sub_state,
            uptime_seconds: status.uptime_seconds,
        }
    }

    /// The row of a service whose status could not be read: kept, and marked unknown.
    pub fn unknown(name: &str) -> (r: Self)
        ensures
            r.name@ == name@,
            r.status@ == "unknown"@,
            r.active_state@ == "unknown"@,
            r.sub_state@ == "unknown"@,
            r.uptime_seconds == 0,
    {
        ServiceStatusResponse {
            name: string_of(&chars_of(name)),
            status: string_of(&chars_of("unknown")),
            active_state: string_of(&chars_of("unknown")),
            sub_state: string_of(&chars_of("unknown")),
            uptime_seconds: 0,
        }
    }
}

pub open spec fn unknown_row(row: ServiceStatusResponse, name: Seq<char>) -> bool {
    row.name@ == name && row.status@ == "unknown"@ && row.active_state@ == "unknown"@
        && row.sub_state@ == "unknown"@ && row.uptime_seconds == 0
}

/// The row for a service whose status query gave `r`: the status where it
/// was read, an unknown row where it failed.
pub open spec fn status_row(row: ServiceStatusResponse, r: Result<ServiceStatus, ServiceError>, name: Seq<char>) -> bool {
    match r {
        Ok(s) => row.name@ == s.name@ && row.status@ == simple_status(s.active_state@)
            && row.active_state@ == s.active_state@ && row.sub_state@ == s.sub_state@
            && row.uptime_seconds == s.uptime_seconds,
        Err(_) => unknown_row(row, name),
    }
}

/// The row of service `name` is the one its status query gives.
pub open spec fn service_row_ok<E: CommandExecutor>(executor: E, name: Seq<char>, row: ServiceStatusResponse) -> bool {
    exists|q: Result<ServiceStatus, ServiceError>|
        status_outcome(executor, name, q) && #[trigger] status_row(row, q, name)
}

/// The status rows of the watched services, one per name and in order; a
/// service that cannot be read gives an unknown row instead of failing the batch.
pub fn watched_service_rows<E: CommandExecutor>(executor: &E, names: &Vec<String>) -> (r: Vec<
    ServiceStatusResponse,
>)
    ensures
        r.len() == names.len(),
        forall|i: int| 0 <= i < names.len() ==> #[trigger] service_row_ok(*executor, names@[i]@, r@[i]),
{
    let mut rows: Vec<ServiceStatusResponse> = Vec::new();
    let mut i: usize = 0;
    while i < names.len()
        invariant
            i <= names.len(),
            rows.len() == i,
            forall|k: int| 0 <= k < i ==> #[trigger] service_row_ok(*executor, names@[k]@, rows@[k]),
        decreases names.len() - i,
    {
        let q = get_service_status(executor, names[i].as_str());
        let ghost gq = q;
        let row = match q {
            Ok(status) => ServiceStatusResponse::from_status(status),
            Err(_) => ServiceStatusResponse::unknown(names[i].as_str()),
        };
        assert(status_row(row, gq, names@[i as int]@));
        rows.push(row);
        assert forall|k: int| 0 <= k < i + 1 implies #[trigger] service_row_ok(*executor, names@[k]@, rows@[k]) by {
            if k == i {
                assert(status_outcome(*executor, names@[k]@, gq) && status_row(rows@[k], gq, names@[k]@));
            }
        }
        i += 1;
    }
    rows
}

/// One row of the overview of watched timers.
#[derive(Debug, Clone)]
pub struct TimerStatusResponse {
    pub name: String,
    pub service: String,
    pub enabled: bool,
    pub schedule: String,
    pub schedule_human: String,
    pub next_run: Option<String>,
    pub last_run: Option<String>,
    pub last_result: Option<String>,
}

/// A timer that the manager knows, as offered for watching.
#[derive(Debug, Clone)]
pub struct AvailableTimerResponse {
    pub name: String,
    pub description: String,
}

pub open spec fn status_word(s: ExecutionStatus) -> Seq<char> {
    match s {
        ExecutionStatus::Success => "success"@,
        ExecutionStatus::Failed => "failed"@,
        ExecutionStatus::Running => "running"@,
    }
}

/// The service of a timer as the history routes name it: every `.timer`
/// replaced by `.service`.
pub fn service_for_timer(timer_name: &str) -> (r: String)
    ensures
        r@ == replace_all(timer_name@, ".timer"@, ".service"@),
{
    let p = chars_of(".timer");
    proof {
        reveal_strlit(".timer");
    }
    string_of(&replace_chars(&chars_of(timer_name), &p, &chars_of(".service")))
}

impl TimerStatusResponse {
    /// The row of a timer whose state could be read, with the status of its
    /// latest run where one is known.
    pub fn from_info(info: TimerInfo, last_result: Option<ExecutionStatus>) -> (r: Self)
        ensures
            r.name@ == info.name@,
            r.service@ == info.service@,
            r.enabled == info.enabled,
            r.schedule@ == info.schedule@,
            r.schedule_human@ == if info.schedule@.len() == 0 {
                "Schedule not available"@
            } else {
                info.schedule@
            },
            opt_str(r.next_run) == opt_str(info.next_run),
            opt_str(r.last_run) == opt_str(info.last_trigger),
            opt_str(r.last_result) == match last_result {
                Some(s) => Some(status_word(s)),
                None => None,
            },
    {
        let sched = chars_of(info.schedule.as_str());
        let schedule_human = if sched.len() == 0 {
            string_of(&chars_of("Schedule not available"))
        } else {
            string_of(&sched)
        };
        let last = match last_result {
            Some(ExecutionStatus::Success) => Some(string_of(&chars_of("success"))),
            Some(ExecutionStatus::Failed) => Some(string_of(&chars_of("failed"))),
            Some(ExecutionStatus::Running) => Some(string_of(&chars_of("running"))),
            None => None,
        };
        TimerStatusResponse {
            name: info.name,
            service: info.service,
            enabled: info.enabled,
            schedule: info.schedule,
            schedule_human,
            next_run: info.next_run,
            last_run: info.last_trigger,
            last_result: last,
        }
    }

    /// The row of a timer whose state could not be read: kept, and marked so.
    pub fn unreadable(timer_name: &str) -> (r: Self)
        ensures
            r.name@ == timer_name@,
            r.service@ == replace_all(timer_name@, ".timer"@, ".service"@),
            !r.enabled,
            r.schedule@ == "unknown"@,
            r.schedule_human@ == "Unable to read schedule"@,
            r.next_run is None && r.last_run is None && r.last_result is None,
    {
        TimerStatusResponse {
            name: string_of(&chars_of(timer_name)),
            service: service_for_timer(timer_name),
            enabled: false,
            schedule: string_of(&chars_of("unknown")),
            schedule_human: string_of(&chars_of("Unable to read schedule")),
            next_run: None,
            last_run: None,
            last_result: None,
        }
    }
}

impl AvailableTimerResponse {
    pub fn from_info(info: TimerInfo) -> (r: Self)
        ensures
            r.name@ == info.name@,
            r.description@ == "Activates "@ + info.service@,
    {
        let mut d = chars_of("Activates ");
        push_str(&mut d, info.service.as_str());
        AvailableTimerResponse { name: info.name, description: string_of(&d) }
    }
}

/// `r` is `d` with the lines of the tail in place of its output where the
/// tail was read and is not empty, and `d` unchanged otherwise.
pub open spec fn tail_applied(r: ExecutionDetails, d: ExecutionDetails, tail: CommandOutput) -> bool {
    &&& r.invocation_id == d.invocation_id && r.start_time == d.start_time && r.end_time
        == d.end_time && r.duration_secs == d.duration_secs && r.status == d.status
        && r.exit_code == d.exit_code && r.trigger == d.trigger
    &&& if tail.exit_code == 0 && tail.stdout@.len() > 0 {
        string_views(r.output@) == lines(tail.stdout@)
    } else {
        r.output == d.output
    }
}

/// The log file that a service writes besides its journal.
pub open spec fn service_log_file(service: Seq<char>) -> Seq<char> {
    "/var/log/"@ + strip_all(service, ".service"@) + ".log"@
}

pub open spec fn log_tail_args(service: Seq<char>) -> Seq<Seq<char>> {
    seq!["-n"@, "200"@, service_log_file(service)]
}

/// A run's details with the last 200 lines of the service's log file in
/// place of the journal messages, where that file could be read and is not
/// empty: the file is taken to be more complete than the journal.
pub fn details_with_log_file<E: CommandExecutor>(executor: &E, service: &str, details: ExecutionDetails) -> (r: ExecutionDetails)
    ensures
        exists|o: Result<CommandOutput, ServiceError>|
            #[trigger] executor.answers("tail"@, log_tail_args(service@), o) && match o {
                Ok(t) => tail_applied(r, details, t),
                Err(_) => r == details,
            },
{
    let base = strip_all_chars(&chars_of(service), &chars_of(".service"));
    let mut path = chars_of("/var/log/");
    push_all(&mut path, &base);
    push_str(&mut path, ".log");
    let path = string_of(&path);
    let args: Vec<&str> = vec!["-n", "200", path.as_str()];
    assert(arg_views(args@) =~= log_tail_args(service@));
    let o = executor.execute("tail", args.as_slice());
    match o {
        Ok(t) => with_log_tail(details, &t),
        Err(_) => details,
    }
}

/// A run's details with the tail of its log file in place of the journal
/// messages, where the tail was read and is not empty.
pub fn with_log_tail(details: ExecutionDetails, tail: &CommandOutput) -> (r: ExecutionDetails)
    ensures
        tail_applied(r, details, *tail),
{
    let text = chars_of(tail.stdout.as_str());
    if tail.exit_code == 0 && text.len() > 0 {
        let ls = split_lines(&text);
        let mut output: Vec<String> = Vec::new();
        let mut i: usize = 0;
        while i < ls.len()
            invariant
                i <= ls.len(),
                string_views(output@) == views(ls@).take(i as int),
            decreases ls.len() - i,
        {
            let ghost before = string_views(output@);
            let l = string_of(&ls[i]);
            output.push(l);
            assert(string_views(output@) =~= before.push(l@));
            assert(views(ls@).take(i + 1) =~= views(ls@).take(i as int).push(ls@[i as int]@));
            i += 1;
        }
        assert(views(ls@).take(i as int) =~= views(ls@));
        ExecutionDetails { output, ..details }
    } else {
        details
    }
}

/// A count from a query parameter, or `default` where it is absent or not a
/// number that fits.
pub fn count_param(params: &Vec<(String, String)>, key: &str, default: u64, max: u64) -> (r: u64)
    ensures
        r == match last_value(pair_views(params@), key@) {
            Some(v) => match unsigned_of(v) {
                Some(n) => if n <= max {
                    n as u64
                } else {
                    default
                },
                None => default,
            },
            None => default,
        },
{
    match query_param(params, key) {
        Some(v) => match parse_u64(&chars_of(v.as_str())) {
            Some(n) => if n <= max {
                n
            } else {
                default
            },
            None => default,
        },
        None => default,
    }
}


pub open spec fn unreadable_row(row: TimerStatusResponse, name: Seq<char>) -> bool {
    row.name@ == name && row.service@ == replace_all(name, ".timer"@, ".service"@) && !row.enabled
        && row.schedule@ == "unknown"@ && row.schedule_human@ == "Unable to read schedule"@
        && row.next_run is None && row.last_run is None && row.last_result is None
}

/// The status word of the latest run in a history query's result, if any.
pub open spec fn latest_status_ok(last: Option<String>, hr: Result<Vec<ExecutionHistory>, TimerError>) -> bool {
    match hr {
        Ok(v) => if v.len() > 0 {
            opt_str(last) == Some(status_word(v[0].status))
        } else {
            last is None
        },
        Err(_) => last is None,
    }
}

/// The row for a timer whose state query gave `ti`: its state and the status
/// of its latest run where it was read, an unreadable row where it failed.
pub open spec fn timer_row_of<F: CommandExecutor>(
    journal: F,
    row: TimerStatusResponse,
    ti: Result<TimerInfo, TimerError>,
    name: Seq<char>,
) -> bool {
    match ti {
        Err(_) => unreadable_row(row, name),
        Ok(t) => row.name@ == t.name@ && row.service@ == t.service@ && row.enabled == t.enabled
            && row.schedule@ == t.schedule@ && row.schedule_human@ == (if t.schedule@.len() == 0 {
            "Schedule not available"@
        } else {
            t.schedule@
        }) && opt_str(row.next_run) == opt_str(t.next_run)
            && opt_str(row.last_run) == opt_str(t.last_trigger) && exists|
            hr: Result<Vec<ExecutionHistory>, TimerError>,
        |
            history_result(journal, t.service@, 1, hr) && #[trigger] latest_status_ok(
                row.last_result,
                hr,
            ),
    }
}

/// The row of timer `name` is the one its state and history queries give.
pub open spec fn timer_row_ok<E: CommandExecutor, F: CommandExecutor>(
    executor: E,
    journal: F,
    name: Seq<char>,
    row: TimerStatusResponse,
) -> bool {
    exists|ti: Result<TimerInfo, TimerError>|
        timer_info_result(executor, name, ti) && #[trigger] timer_row_of(journal, row, ti, name)
}

/// The status rows of the watched timers, one per name and in order, each
/// with the status of its latest run where the journal gives one; a timer
/// that cannot be read gives an unreadable row instead of failing the batch.
pub fn watched_timer_rows<E: CommandExecutor, F: CommandExecutor>(
    client: &SystemctlClient<E>,
    journal: &JournalClient<F>,
    names: &Vec<String>,
) -> (r: Vec<TimerStatusResponse>)
    ensures
        r.len() == names.len(),
        forall|i: int|
            0 <= i < names.len() ==> #[trigger] timer_row_ok(
                client.executor(),
                journal.executor(),
                names@[i]@,
                r@[i],
            ),
{
    let mut rows: Vec<TimerStatusResponse> = Vec::new();
    let mut i: usize = 0;
    while i < names.len()
        invariant
            i <= names.len(),
            rows.len() == i,
            forall|k: int|
                0 <= k < i ==> #[trigger] timer_row_ok(
                    client.executor(),
                    journal.executor(),
                    names@[k]@,
                    rows@[k],
                ),
        decreases names.len() - i,
    {
        let ti = client.get_timer_info(names[i].as_str());
        let ghost gti = ti;
        let row = match ti {
            Ok(info) => {
                let hr = journal.get_execution_history(info.service.as_str(), 1);
                let ghost ghr = hr;
                let last = match hr {
                    Ok(h) => if h.len() > 0 {
                        Some(h[0].status)
                    } else {
                        None
                    },
                    Err(_) => None,
                };
                let row = TimerStatusResponse::from_info(info, last);
                assert(latest_status_ok(row.last_result, ghr));
                row
            },
            Err(_) => TimerStatusResponse::unreadable(names[i].as_str()),
        };
        assert(timer_row_of(journal.executor(), row, gti, names@[i as int]@));
        rows.push(row);
        assert forall|k: int| 0 <= k < i + 1 implies #[trigger] timer_row_ok(
            client.executor(),
            journal.executor(),
            names@[k]@,
            rows@[k],
        ) by {
            if k == i {
                assert(timer_info_result(client.executor(), names@[k]@, gti) && timer_row_of(
                    journal.executor(),
                    rows@[k],
                    gti,
                    names@[k]@,
                ));
            }
        }
        i += 1;
    }
    rows
}

} // verus!
