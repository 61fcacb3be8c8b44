//! The execution-history aggregator over the journal: JSON log lines are
//! grouped by invocation into discrete runs, with status, duration and trigger.
use vstd::prelude::*;
use crate::clock::{utc_representable, utc_text, utc_seconds_text};
use crate::error::TimerError;
use crate::executor::{CommandExecutor, CommandOutput, arg_views};
use crate::error::ServiceError;
use crate::timers::{SystemctlClient, timer_name_ok, timer_error_from, timer_error_of};
use crate::json::{JsonField, JsonLine, JsonDoc, FieldView, field_of, field_view, get_field, parse_json, json_doc};
use crate::text::{
    trim, trim_chars, lines, split_lines, views, keep_some, lemma_keep_some_step, opt_str,
    chars_of, string_of, contains, contains_chars, parse_u64, parse_signed, unsigned_of,
    signed_of, lex_le, lex_le_chars, lemma_lex_total, lemma_lex_trans,
};
use vstd::set_lib::{set_int_range, lemma_int_range, lemma_len_subset};

verus! {

/// How a run ended, or that it has not.
#[derive(Debug, Clone, Copy, PartialEq, Eq, Structural)]
pub enum ExecutionStatus {
    Success,
    Failed,
    Running,
}

/// What started a run.
#[derive(Debug, Clone, Copy, PartialEq, Eq, Structural)]
pub enum TriggerType {
    Scheduled,
    Manual,
}

/// One run of a service.
#[derive(Debug)]
pub struct ExecutionHistory {
    pub invocation_id: String,
    pub start_time: String,
    pub end_time: Option<String>,
    pub duration_secs: Option<u64>,
    pub status: ExecutionStatus,
    pub exit_code: Option<i32>,
    pub trigger: TriggerType,
}

/// One run of a service with the lines it logged.
#[derive(Debug)]
pub struct ExecutionDetails {
    pub invocation_id: String,
    pub start_time: String,
    pub end_time: Option<String>,
    pub duration_secs: Option<u64>,
    pub status: ExecutionStatus,
    pub exit_code: Option<i32>,
    pub trigger: TriggerType,
    pub output: Vec<String>,
}

pub struct HistoryView {
    pub invocation_id: Seq<char>,
    pub start_time: Seq<char>,
    pub end_time: Option<Seq<char>>,
    pub duration_secs: Option<u64>,
    pub status: ExecutionStatus,
    pub exit_code: Option<i32>,
    pub trigger: TriggerType,
}

impl View for ExecutionHistory {
    type V = HistoryView;

    open spec fn view(&self) -> HistoryView {
        HistoryView {
            invocation_id: self.invocation_id@,
            start_time: self.start_time@,
            end_time: opt_str(self.end_time),
            duration_secs: self.duration_secs,
            status: self.status,
            exit_code: self.exit_code,
            trigger: self.trigger,
        }
    }
}

/// One journal record, with the fields that the aggregator reads.
#[derive(Debug)]
pub struct JournalEntry {
    pub invocation_id: Option<String>,
    pub timestamp: Option<String>,
    pub message: Option<String>,
    pub exit_status: Option<String>,
    pub unit: Option<String>,
}

pub struct EntryView {
    pub invocation_id: Option<Seq<char>>,
    pub timestamp: Option<Seq<char>>,
    pub message: Option<Seq<char>>,
    pub exit_status: Option<Seq<char>>,
    pub unit: Option<Seq<char>>,
}

impl View for JournalEntry {
    type V = EntryView;

    open spec fn view(&self) -> EntryView {
        EntryView {
            invocation_id: opt_str(self.invocation_id),
            timestamp: opt_str(self.timestamp),
            message: opt_str(self.message),
            exit_status: opt_str(self.exit_status),
            unit: opt_str(self.unit),
        }
    }
}

pub open spec fn entry_views(v: Seq<JournalEntry>) -> Seq<EntryView> {
    v.map_values(|e: JournalEntry| e@)
}

/// An optional string field: `Some(None)` where it is absent or null, `None`
/// where it holds something other than a string.
pub open spec fn string_field(fields: Seq<(Seq<char>, FieldView)>, key: Seq<char>) -> Option<
    Option<Seq<char>>,
> {
    match field_of(fields, key) {
        None => Some(None),
        Some(FieldView::Null) => Some(None),
        Some(FieldView::Str(s)) => Some(Some(s)),
        Some(FieldView::Other) => None,
    }
}

/// The record that one line of `journalctl -o json` holds, where it holds one.
pub open spec fn entry_of_line(line: Seq<char>) -> Option<EntryView> {
    let t = trim(line);
    if t.len() == 0 {
        None
    } else {
        match json_doc(t) {
            JsonDoc::Object(f) => {
                let id = string_field(f, "INVOCATION_ID"@);
                let ts = string_field(f, "__REALTIME_TIMESTAMP"@);
                let msg = string_field(f, "MESSAGE"@);
                let ex = string_field(f, "EXIT_STATUS"@);
                let unit = string_field(f, "_SYSTEMD_UNIT"@);
                if id is Some && ts is Some && msg is Some && ex is Some && unit is Some {
                    Some(
                        EntryView {
                            invocation_id: id->0,
                            timestamp: ts->0,
                            message: msg->0,
                            exit_status: ex->0,
                            unit: unit->0,
                        },
                    )
                } else {
                    None
                }
            },
            _ => None,
        }
    }
}

/// The records of a journal dump; lines that hold none are skipped.
pub open spec fn journal_entries(output: Seq<char>) -> Seq<EntryView> {
    keep_some(lines(output), |l: Seq<char>| entry_of_line(l))
}

/// The whole seconds from `start` to `end`, both microsecond numerals, where
/// `end` is later.
pub open spec fn duration_of(start: Seq<char>, end: Seq<char>) -> Option<u64> {
    match (unsigned_of(start), unsigned_of(end)) {
        (Some(s), Some(e)) => if s <= u64::MAX && e <= u64::MAX && e > s {
            Some(((e - s) / 1_000_000) as u64)
        } else {
            None
        },
        _ => None,
    }
}

/// Division that rounds toward zero, as Rust's integer `/` does.
pub open spec fn trunc_div(a: int, d: int) -> int {
    if a >= 0 {
        a / d
    } else {
        -((-a) / d)
    }
}

/// A microsecond numeral as a UTC date and time; anything else as it is.
pub open spec fn timestamp_text(ts: Seq<char>) -> Seq<char> {
    match signed_of(ts) {
        Some(us) => if i64::MIN <= us <= i64::MAX && utc_representable(trunc_div(us, 1_000_000), 0) {
            utc_text(trunc_div(us, 1_000_000))
        } else {
            ts
        },
        None => ts,
    }
}

pub open spec fn mentions_schedule(m: Seq<char>) -> bool {
    contains(m, "timer"@) || contains(m, "scheduled"@)
}

pub open spec fn mentions_manual(m: Seq<char>) -> bool {
    contains(m, "manual"@) || contains(m, "systemctl start"@)
}

/// The trigger that the first message with a keyword names; `Scheduled` where
/// none has one.
pub open spec fn trigger_of(g: Seq<EntryView>) -> TriggerType
    decreases g.len(),
{
    if g.len() == 0 {
        TriggerType::Scheduled
    } else {
        match g[0].message {
            Some(m) => if mentions_schedule(m) {
                TriggerType::Scheduled
            } else if mentions_manual(m) {
                TriggerType::Manual
            } else {
                trigger_of(g.drop_first())
            },
            None => trigger_of(g.drop_first()),
        }
    }
}

/// The exit status of the latest record that has one.
pub open spec fn last_exit_status(g: Seq<EntryView>) -> Option<Seq<char>>
    decreases g.len(),
{
    if g.len() == 0 {
        None
    } else if g.last().exit_status is Some {
        g.last().exit_status
    } else {
        last_exit_status(g.drop_last())
    }
}

pub open spec fn exit_code_of(g: Seq<EntryView>) -> Option<i32> {
    match last_exit_status(g) {
        Some(s) => match signed_of(s) {
            Some(v) => if i32::MIN <= v <= i32::MAX {
                Some(v as i32)
            } else {
                None
            },
            None => None,
        },
        None => None,
    }
}

/// A run has ended where one of its records carries an exit status.
pub open spec fn has_end(g: Seq<EntryView>) -> bool {
    last_exit_status(g) is Some
}

pub open spec fn status_of(ended: bool, exit_code: Option<i32>) -> ExecutionStatus {
    if !ended {
        ExecutionStatus::Running
    } else if exit_code == Some(0i32) || exit_code is None {
        ExecutionStatus::Success
    } else {
        ExecutionStatus::Failed
    }
}

/// The run that the records `g` of invocation `id` describe; `None` where the
/// first record has no timestamp.
pub open spec fn history_of(id: Seq<char>, g: Seq<EntryView>) -> Option<HistoryView> {
    if g.len() == 0 || g[0].timestamp is None {
        None
    } else {
        let start = g[0].timestamp->0;
        let end = if has_end(g) {
            g.last().timestamp
        } else {
            None
        };
        Some(
            HistoryView {
                invocation_id: id,
                start_time: timestamp_text(start),
                end_time: match end {
                    Some(e) => Some(timestamp_text(e)),
                    None => None,
                },
                duration_secs: match end {
                    Some(e) => duration_of(start, e),
                    None => None,
                },
                status: status_of(has_end(g), exit_code_of(g)),
                exit_code: exit_code_of(g),
                trigger: trigger_of(g),
            },
        )
    }
}


fn copy_opt(o: &Option<String>) -> (r: Option<String>)
    ensures
        opt_str(r) == opt_str(*o),
{
    match o {
        Some(s) => Some(string_of(&chars_of(s.as_str()))),
        None => None,
    }
}

fn copy_entry(e: &JournalEntry) -> (r: JournalEntry)
    ensures
        r@ == e@,
{
    JournalEntry {
        invocation_id: copy_opt(&e.invocation_id),
        timestamp: copy_opt(&e.timestamp),
        message: copy_opt(&e.message),
        exit_status: copy_opt(&e.exit_status),
        unit: copy_opt(&e.unit),
    }
}

/// Reads one optional string field; `Err` where it holds another kind of value.
fn read_string_field(fields: &Vec<(String, JsonField)>, key: &str) -> (r: Result<
    Option<String>,
    (),
>)
    ensures
        match r {
            Ok(o) => string_field(
                fields@.map_values(|e: (String, JsonField)| (e.0@, field_view(e.1))),
                key@,
            ) == Some(opt_str(o)),
            Err(_) => string_field(
                fields@.map_values(|e: (String, JsonField)| (e.0@, field_view(e.1))),
                key@,
            ) is None,
        },
{
    match get_field(fields, key) {
        None => Ok(None),
        Some(JsonField::Null) => Ok(None),
        Some(JsonField::Str(s)) => Ok(Some(string_of(&chars_of(s.as_str())))),
        Some(JsonField::Other) => Err(()),
    }
}

/// The record on one line of JSON output, where it holds one.
pub fn entry_from_line(line: &Vec<char>) -> (r: Option<JournalEntry>)
    ensures
        match r {
            Some(e) => entry_of_line(line@) == Some(e@),
            None => entry_of_line(line@) is None,
        },
{
    let t = trim_chars(line);
    if t.len() == 0 {
        return None;
    }
    let doc = parse_json(string_of(&t).as_str());
    match doc {
        JsonLine::Object(fields) => {
            let id = read_string_field(&fields, "INVOCATION_ID");
            let ts = read_string_field(&fields, "__REALTIME_TIMESTAMP");
            let msg = read_string_field(&fields, "MESSAGE");
            let ex = read_string_field(&fields, "EXIT_STATUS");
            let unit = read_string_field(&fields, "_SYSTEMD_UNIT");
            match (id, ts, msg, ex, unit) {
                (Ok(invocation_id), Ok(timestamp), Ok(message), Ok(exit_status), Ok(unit)) => Some(
                    JournalEntry { invocation_id, timestamp, message, exit_status, unit },
                ),
                _ => None,
            }
        },
        _ => None,
    }
}

fn no_timestamp_error(invocation_id: &str) -> (r: TimerError)
    ensures
        r is ParseError,
{
    let mut reason = chars_of("No timestamp for invocation ");
    crate::text::push_str(&mut reason, invocation_id);
    TimerError::ParseError { source: string_of(&chars_of("journal")), reason: string_of(&reason) }
}

fn contains_text(s: &Vec<char>, lit: &str) -> (r: bool)
    ensures
        r == contains(s@, lit@),
{
    contains_chars(s, &chars_of(lit))
}


pub open spec fn messages_of(g: Seq<EntryView>) -> Seq<Seq<char>> {
    keep_some(g, |e: EntryView| e.message)
}

pub open spec fn history_part(d: ExecutionDetails) -> HistoryView {
    HistoryView {
        invocation_id: d.invocation_id@,
        start_time: d.start_time@,
        end_time: opt_str(d.end_time),
        duration_secs: d.duration_secs,
        status: d.status,
        exit_code: d.exit_code,
        trigger: d.trigger,
    }
}

pub open spec fn string_views(v: Seq<String>) -> Seq<Seq<char>> {
    v.map_values(|s: String| s@)
}


/// The invocation ids of the records, in order of first appearance.
pub open spec fn group_ids(es: Seq<EntryView>) -> Seq<Seq<char>>
    decreases es.len(),
{
    if es.len() == 0 {
        seq![]
    } else {
        let g = group_ids(es.drop_last());
        match es.last().invocation_id {
            Some(id) => if g.contains(id) {
                g
            } else {
                g.push(id)
            },
            None => g,
        }
    }
}

/// The records of invocation `id`, in order.
pub open spec fn group_of(es: Seq<EntryView>, id: Seq<char>) -> Seq<EntryView>
    decreases es.len(),
{
    if es.len() == 0 {
        seq![]
    } else {
        let g = group_of(es.drop_last(), id);
        if es.last().invocation_id == Some(id) {
            g.push(es.last())
        } else {
            g
        }
    }
}

pub proof fn lemma_group_of_new(es: Seq<EntryView>, id: Seq<char>)
    requires
        !group_ids(es).contains(id),
    ensures
        group_of(es, id).len() == 0,
    decreases es.len(),
{
    if es.len() > 0 {
        let g = group_ids(es.drop_last());
        if let Some(x) = es.last().invocation_id {
            if !g.contains(x) {
                assert(group_ids(es) == g.push(x));
                assert(g.push(x)[g.len() as int] == x);
                assert forall|k: int| 0 <= k < g.len() implies g[k] != id by {
                    assert(g.push(x)[k] == g[k]);
                }
            }
        }
        lemma_group_of_new(es.drop_last(), id);
    }
}

/// The run of each invocation, in order of first appearance.
pub open spec fn group_histories(es: Seq<EntryView>) -> Seq<Option<HistoryView>> {
    group_ids(es).map_values(|id: Seq<char>| history_of(id, group_of(es, id)))
}

/// The raw start timestamp of each invocation.
pub open spec fn group_starts(es: Seq<EntryView>) -> Seq<Seq<char>> {
    group_ids(es).map_values(|id: Seq<char>| group_of(es, id)[0].timestamp->0)
}

/// `p` picks `min(limit, keys.len())` distinct indices of the largest keys,
/// largest first.
pub open spec fn picks_top(p: Seq<int>, keys: Seq<Seq<char>>, limit: int) -> bool {
    &&& p.len() == if limit < keys.len() { limit } else { keys.len() as int }
    &&& forall|a: int| 0 <= a < p.len() ==> 0 <= #[trigger] p[a] < keys.len()
    &&& forall|a: int, b: int| 0 <= a < b < p.len() ==> p[a] != p[b]
    &&& forall|a: int, b: int| 0 <= a < b < p.len() ==> lex_le(keys[p[b]], keys[p[a]])
    &&& forall|j: int, a: int|
        0 <= j < keys.len() && !p.contains(j) && 0 <= a < p.len() ==> lex_le(
            keys[j],
            keys[p[a]],
        )
}

pub open spec fn usize_ints(p: Seq<usize>) -> Seq<int> {
    p.map_values(|i: usize| i as int)
}

pub open spec fn slot_holds(o: Option<ExecutionHistory>, v: HistoryView) -> bool {
    o matches Some(h) && h@ == v
}

/// The indices of the `limit` largest keys, largest first.
pub fn select_top(keys: &Vec<Vec<char>>, limit: usize) -> (r: Vec<usize>)
    ensures
        picks_top(usize_ints(r@), views(keys@), limit as int),
{
    let ghost kv = views(keys@);
    let n = keys.len();
    let mut used: Vec<bool> = Vec::new();
    while used.len() < n
        invariant
            used.len() <= n,
            forall|j: int| 0 <= j < used.len() ==> !used@[j],
        decreases n - used.len(),
    {
        used.push(false);
    }
    let mut p: Vec<usize> = Vec::new();
    while p.len() < limit && p.len() < n
        invariant
            n == keys.len(),
            kv == views(keys@),
            used.len() == n,
            p.len() <= n,
            forall|j: int| 0 <= j < n ==> (used@[j] <==> usize_ints(p@).contains(j)),
            forall|a: int| 0 <= a < p.len() ==> 0 <= #[trigger] p@[a] < n,
            forall|a: int, b: int| 0 <= a < b < p.len() ==> p@[a] != p@[b],
            forall|a: int, b: int|
                0 <= a < b < p.len() ==> lex_le(kv[p@[b] as int], kv[p@[a] as int]),
            forall|j: int, a: int|
                0 <= j < n && !used@[j] && 0 <= a < p.len() ==> lex_le(kv[j], kv[p@[a] as int]),
            p.len() <= limit,
        decreases n - p.len(),
    {
        proof {
            let ps = usize_ints(p@);
            if forall|j: int| 0 <= j < n ==> used@[j] {
                assert(set_int_range(0, n as int).subset_of(ps.to_set())) by {
                    assert forall|j: int| set_int_range(0, n as int).contains(j) implies ps.to_set().contains(j) by {
                        assert(used@[j]);
                    }
                }
                lemma_int_range(0, n as int);
                ps.lemma_cardinality_of_set();
                lemma_len_subset(set_int_range(0, n as int), ps.to_set());
                assert(false);
            }
        }
        let mut best: usize = n;
        let mut j: usize = 0;
        while j < n
            invariant
                n == keys.len(),
                kv == views(keys@),
                used.len() == n,
                j <= n,
                best <= n,
                exists|k: int| 0 <= k < n && !used@[k],
                best == n ==> forall|k: int| 0 <= k < j ==> used@[k],
                best < n ==> best < j && !used@[best as int] && forall|k: int|
                    0 <= k < j && !used@[k] ==> lex_le(kv[k], kv[best as int]),
            decreases n - j,
        {
            assert(kv[j as int] == keys@[j as int]@);
            if !used[j] {
                if best == n {
                    best = j;
                    proof {
                        lemma_lex_total(kv[j as int], kv[j as int]);
                    }
                } else if !lex_le_chars(&keys[j], &keys[best]) {
                    assert(kv[best as int] == keys@[best as int]@);
                    proof {
                        lemma_lex_total(kv[j as int], kv[j as int]);
                        lemma_lex_total(kv[j as int], kv[best as int]);
                        assert forall|k: int| 0 <= k < j && !used@[k] implies lex_le(kv[k], kv[j as int]) by {
                            lemma_lex_trans(kv[k], kv[best as int], kv[j as int]);
                        }
                    }
                    best = j;
                } else {
                    assert(kv[best as int] == keys@[best as int]@);
                }
            }
            j += 1;
        }
        assert(best < n);
        let ghost old_p = p@;
        let ghost old_used = used@;
        p.push(best);
        used.set(best, true);
        proof {
            assert(usize_ints(p@) =~= usize_ints(old_p).push(best as int));
            assert forall|k: int| 0 <= k < n implies (used@[k] <==> usize_ints(p@).contains(k)) by {
                if k == best as int {
                    assert(usize_ints(p@)[p@.len() - 1] == k);
                } else {
                    if usize_ints(p@).contains(k) {
                        let w = choose|w: int| 0 <= w < usize_ints(p@).len() && usize_ints(p@)[w] == k;
                        assert(usize_ints(old_p)[w] == k);
                    }
                    if old_used[k] {
                        let w = choose|w: int| 0 <= w < usize_ints(old_p).len() && usize_ints(old_p)[w] == k;
                        assert(usize_ints(p@)[w] == k);
                    }
                }
            }
            assert forall|a: int, b: int| 0 <= a < b < p.len() implies p@[a] != p@[b] by {
                if b == p.len() - 1 {
                    assert(old_used[p@[a] as int]) by {
                        assert(usize_ints(old_p)[a] == p@[a] as int);
                    }
                }
            }
            assert forall|a: int, b: int| 0 <= a < b < p.len() implies lex_le(kv[p@[b] as int], kv[p@[a] as int]) by {
                if b == p.len() - 1 {
                    assert(!old_used[best as int]);
                }
            }
        }
    }
    proof {
        assert(usize_ints(p@).len() == p.len());
        assert forall|j: int, a: int|
            0 <= j < n && !usize_ints(p@).contains(j) && 0 <= a < p.len() implies lex_le(
                kv[j],
                kv[usize_ints(p@)[a]],
            ) by {
            assert(!used@[j]);
        }
    }
    p
}

/// Journal client for the execution history of services.
pub struct JournalClient<E: CommandExecutor> {
    executor: E,
}

/// The runs of the records `es`, one per invocation, the `limit` latest by
/// raw start timestamp; a failure where some run has no start.
pub open spec fn runs_grouped(r: Result<Vec<ExecutionHistory>, TimerError>, es: Seq<EntryView>, limit: int) -> bool {
    let hs = group_histories(es);
    &&& (r is Err <==> exists|k: int| 0 <= k < hs.len() && hs[k] is None)
    &&& (r matches Err(e) ==> e is ParseError)
    &&& (r matches Ok(v) ==> exists|p: Seq<int>|
        picks_top(p, group_starts(es), limit) && v@.map_values(|h: ExecutionHistory| h@)
            == p.map_values(|i: int| hs[i]->0))
}

/// The run of invocation `id` among the records `es`, with their messages.
pub open spec fn details_made(r: Result<ExecutionDetails, TimerError>, id: Seq<char>, es: Seq<EntryView>) -> bool {
    match history_of(id, es) {
        Some(h) => r matches Ok(d) && history_part(d) == h && string_views(d.output@)
            == messages_of(es),
        None => r matches Err(e) && e is ParseError,
    }
}

pub open spec fn history_args(service: Seq<char>) -> Seq<Seq<char>> {
    seq!["-u"@, service, "--since"@, "7 days ago"@, "-o"@, "json"@, "--no-pager"@]
}

pub open spec fn details_args(service: Seq<char>, id: Seq<char>) -> Seq<Seq<char>> {
    seq!["-u"@, service, "INVOCATION_ID="@ + id, "-o"@, "json"@, "--no-pager"@]
}

/// A failed `journalctl` run as the timer client reports it.
pub open spec fn journal_failed(e: TimerError, command: Seq<char>, out: CommandOutput) -> bool {
    e matches TimerError::CommandFailed { command: c, stderr, exit_code } && c@ == command && stderr
        == out.stderr && exit_code == Some(out.exit_code)
}

/// What `get_execution_history` gives: an invalid name fails before
/// anything runs; otherwise the runs grouped from the executor's answer.
pub open spec fn history_result<E: CommandExecutor>(
    executor: E,
    service: Seq<char>,
    limit: int,
    r: Result<Vec<ExecutionHistory>, TimerError>,
) -> bool {
    &&& (!timer_name_ok(service) ==> r matches Err(TimerError::InvalidInput(_)))
    &&& (timer_name_ok(service) ==> exists|o: Result<CommandOutput, ServiceError>|
        #[trigger] executor.answers("journalctl"@, history_args(service), o) && match o {
            Ok(out) => if out.exit_code != 0 {
                r matches Err(e) && journal_failed(e, "journalctl -u "@ + service, out)
            } else {
                runs_grouped(r, journal_entries(out.stdout@), limit)
            },
            Err(e) => r matches Err(te) && timer_error_of(e, te),
        })
}

impl<E: CommandExecutor> JournalClient<E> {
    /// The executor that the client runs its commands through.
    pub closed spec fn executor(&self) -> E {
        self.executor
    }

    pub fn new(executor: E) -> (r: Self)
        ensures
            r.executor() == executor,
    {
        JournalClient { executor }
    }

    /// The records of a journal dump, one per line; a line that holds none is
    /// skipped and never fails the batch.
    pub fn parse_journal_entries(&self, output: &str) -> (r: Result<Vec<JournalEntry>, TimerError>)
        ensures
            r matches Ok(v) && entry_views(v@) == journal_entries(output@),
    {
        let text = chars_of(output);
        let ls = split_lines(&text);
        let ghost lv = views(ls@);
        let mut entries: Vec<JournalEntry> = Vec::new();
        let mut i: usize = 0;
        while i < ls.len()
            invariant
                i <= ls.len(),
                lv == views(ls@),
                lv == lines(output@),
                entry_views(entries@) == keep_some(lv.take(i as int), |l: Seq<char>| entry_of_line(l)),
            decreases ls.len() - i,
        {
            proof {
                lemma_keep_some_step(lv, |l: Seq<char>| entry_of_line(l), i as int);
            }
            assert(lv[i as int] == ls@[i as int]@);
            if let Some(e) = entry_from_line(&ls[i]) {
                let ghost before = entry_views(entries@);
                entries.push(e);
                assert(entry_views(entries@) =~= before.push(e@));
            }
            i += 1;
        }
        assert(lv.take(ls.len() as int) =~= lv);
        Ok(entries)
    }

    /// Whether a run was started by its timer or by hand, from the first
    /// message that names either.
    pub fn determine_trigger(&self, entries: &Vec<JournalEntry>) -> (r: TriggerType)
        ensures
            r == trigger_of(entry_views(entries@)),
    {
        let ghost g = entry_views(entries@);
        let mut i: usize = 0;
        assert(g.skip(0) =~= g);
        while i < entries.len()
            invariant
                i <= entries.len(),
                g == entry_views(entries@),
                trigger_of(g) == trigger_of(g.skip(i as int)),
            decreases entries.len() - i,
        {
            assert(g.skip(i as int)[0] == entries@[i as int]@);
            assert(g.skip(i as int).drop_first() =~= g.skip(i + 1));
            if let Some(m) = &entries[i].message {
                let mc = chars_of(m.as_str());
                if contains_text(&mc, "timer") || contains_text(&mc, "scheduled") {
                    return TriggerType::Scheduled;
                }
                if contains_text(&mc, "manual") || contains_text(&mc, "systemctl start") {
                    return TriggerType::Manual;
                }
            }
            i += 1;
        }
        assert(g.skip(i as int).len() == 0);
        TriggerType::Scheduled
    }


    /// The run that the records of one invocation describe.
    pub fn create_execution_history(&self, invocation_id: &str, entries: &Vec<JournalEntry>) -> (r:
        Result<ExecutionHistory, TimerError>)
        ensures
            match history_of(invocation_id@, entry_views(entries@)) {
                Some(h) => r matches Ok(x) && x@ == h,
                None => r matches Err(e) && e is ParseError,
            },
    {
        let ghost g = entry_views(entries@);
        let start: &String = if entries.len() == 0 {
            return Err(no_timestamp_error(invocation_id));
        } else {
            match &entries[0].timestamp {
                Some(t) => t,
                None => {
                    return Err(no_timestamp_error(invocation_id));
                },
            }
        };
        assert(g[0] == entries@[0]@);
        let mut j: usize = entries.len();
        assert(g.take(j as int) =~= g);
        let mut last_status: Option<&String> = None;
        while j > 0
            invariant_except_break
                last_status is None,
            invariant
                j <= entries.len(),
                g == entry_views(entries@),
                last_exit_status(g) == last_exit_status(g.take(j as int)),
            ensures
                match last_status {
                    Some(x) => last_exit_status(g) == Some(x@),
                    None => last_exit_status(g) is None,
                },
            decreases j,
        {
            assert(g.take(j as int).last() == entries@[j - 1]@);
            assert(g.take(j as int).drop_last() =~= g.take(j - 1));
            if let Some(x) = &entries[j - 1].exit_status {
                last_status = Some(x);
                break;
            }
            j -= 1;
        }
        assert(match last_status {
            Some(x) => last_exit_status(g) == Some(x@),
            None => last_exit_status(g) is None,
        });
        let exit_code: Option<i32> = match last_status {
            Some(x) => match parse_signed(&chars_of(x.as_str()), i32::MIN as i64, i32::MAX as i64) {
                Some(v) => Some(v as i32),
                None => None,
            },
            None => None,
        };
        let ended = last_status.is_some();
        let end: Option<String> = if ended {
            assert(g.last() == entries@[entries.len() - 1]@);
            copy_opt(&entries[entries.len() - 1].timestamp)
        } else {
            None
        };
        let duration_secs = match &end {
            Some(e) => Self::calculate_duration(start.as_str(), e.as_str()),
            None => None,
        };
        let status = if !ended {
            ExecutionStatus::Running
        } else if exit_code == Some(0i32) || exit_code.is_none() {
            ExecutionStatus::Success
        } else {
            ExecutionStatus::Failed
        };
        let trigger = self.determine_trigger(entries);
        let end_time = match &end {
            Some(e) => Some(Self::format_timestamp(e.as_str())),
            None => None,
        };
        Ok(
            ExecutionHistory {
                invocation_id: string_of(&chars_of(invocation_id)),
                start_time: Self::format_timestamp(start.as_str()),
                end_time,
                duration_secs,
                status,
                exit_code,
                trigger,
            },
        )
    }

    /// The run of one invocation together with every message it logged.
    pub fn create_execution_details(&self, invocation_id: &str, entries: &Vec<JournalEntry>) -> (r:
        Result<ExecutionDetails, TimerError>)
        ensures
            details_made(r, invocation_id@, entry_views(entries@)),
    {
        let history = match self.create_execution_history(invocation_id, entries) {
            Ok(h) => h,
            Err(e) => return Err(e),
        };
        let ghost g = entry_views(entries@);
        let mut output: Vec<String> = Vec::new();
        let mut i: usize = 0;
        while i < entries.len()
            invariant
                i <= entries.len(),
                g == entry_views(entries@),
                string_views(output@) == keep_some(g.take(i as int), |e: EntryView| e.message),
            decreases entries.len() - i,
        {
            proof {
                lemma_keep_some_step(g, |e: EntryView| e.message, i as int);
            }
            assert(g[i as int] == entries@[i as int]@);
            if let Some(m) = &entries[i].message {
                let ghost before = string_views(output@);
                let c = string_of(&chars_of(m.as_str()));
                output.push(c);
                assert(string_views(output@) =~= before.push(c@));
            }
            i += 1;
        }
        assert(g.take(i as int) =~= g);
        Ok(
            ExecutionDetails {
                invocation_id: history.invocation_id,
                start_time: history.start_time,
                end_time: history.end_time,
                duration_secs: history.duration_secs,
                status: history.status,
                exit_code: history.exit_code,
                trigger: history.trigger,
                output,
            },
        )
    }


    /// The runs in `entries`, one per invocation, the `limit` latest by raw
    /// start timestamp, latest first.
    pub fn group_by_invocation(&self, entries: &Vec<JournalEntry>, limit: usize) -> (r: Result<
        Vec<ExecutionHistory>,
        TimerError,
    >)
        ensures
            runs_grouped(r, entry_views(entries@), limit as int),
    {
        let ghost es = entry_views(entries@);
        let mut ids: Vec<Vec<char>> = Vec::new();
        let mut groups: Vec<Vec<JournalEntry>> = Vec::new();
        let mut i: usize = 0;
        while i < entries.len()
            invariant
                i <= entries.len(),
                es == entry_views(entries@),
                views(ids@) == group_ids(es.take(i as int)),
                groups.len() == ids.len(),
                forall|a: int, b: int| 0 <= a < b < ids.len() ==> ids@[a]@ != ids@[b]@,
                forall|k: int|
                    0 <= k < ids.len() ==> entry_views(#[trigger] groups@[k]@) == group_of(
                        es.take(i as int),
                        ids@[k]@,
                    ),
            decreases entries.len() - i,
        {
            let ghost t1 = es.take(i + 1);
            assert(t1.drop_last() =~= es.take(i as int));
            assert(t1.last() == entries@[i as int]@);
            if let Some(id) = &entries[i].invocation_id {
                let idc = chars_of(id.as_str());
                let mut k: usize = 0;
                let mut found = false;
                while k < ids.len()
                    invariant_except_break
                        !found,
                    invariant
                        k <= ids.len(),
                        forall|m: int| 0 <= m < k ==> ids@[m]@ != idc@,
                    ensures
                        found ==> k < ids.len() && ids@[k as int]@ == idc@,
                        !found ==> forall|m: int| 0 <= m < ids.len() ==> ids@[m]@ != idc@,
                    decreases ids.len() - k,
                {
                    if crate::text::chars_eq(&ids[k], &idc) {
                        found = true;
                        break;
                    }
                    k += 1;
                }
                let e = copy_entry(&entries[i]);
                if found {
                    assert(views(ids@).contains(idc@)) by {
                        assert(views(ids@)[k as int] == idc@);
                    }
                    let ghost before = groups@;
                    groups[k].push(e);
                    proof {
                        assert(entry_views(groups@[k as int]@) =~= entry_views(before[k as int]@).push(e@));
                        assert forall|m: int| 0 <= m < ids.len() implies entry_views(#[trigger] groups@[m]@)
                            == group_of(t1, ids@[m]@) by {
                            if m != k {
                                assert(groups@[m] == before[m]);
                            }
                        }
                    }
                } else {
                    proof {
                        assert(!views(ids@).contains(idc@));
                        lemma_group_of_new(es.take(i as int), idc@);
                    }
                    let ghost before = groups@;
                    let mut g: Vec<JournalEntry> = Vec::new();
                    g.push(e);
                    groups.push(g);
                    let ghost idv = views(ids@);
                    ids.push(idc);
                    proof {
                        assert(views(ids@) =~= idv.push(idc@));
                        assert(entry_views(groups@[groups.len() - 1]@) =~= seq![e@]);
                        assert forall|m: int| 0 <= m < ids.len() implies entry_views(#[trigger] groups@[m]@)
                            == group_of(t1, ids@[m]@) by {
                            if m < ids.len() - 1 {
                                assert(groups@[m] == before[m]);
                            } else {
                                assert(group_of(t1, idc@) =~= seq![e@]);
                            }
                        }
                    }
                }
            } else {
                proof {
                    assert forall|m: int| 0 <= m < ids.len() implies entry_views(#[trigger] groups@[m]@)
                        == group_of(t1, ids@[m]@) by {
                    }
                }
            }
            i += 1;
        }
        assert(es.take(entries.len() as int) =~= es);
        let ghost hs = group_histories(es);
        let mut all: Vec<Option<ExecutionHistory>> = Vec::new();
        let mut keys: Vec<Vec<char>> = Vec::new();
        let mut k: usize = 0;
        while k < ids.len()
            invariant
                k <= ids.len(),
                es == entry_views(entries@),
                groups.len() == ids.len(),
                views(ids@) == group_ids(es),
                hs == group_histories(es),
                forall|m: int|
                    0 <= m < ids.len() ==> entry_views(#[trigger] groups@[m]@) == group_of(es, ids@[m]@),
                all.len() == k,
                keys.len() == k,
                forall|m: int| 0 <= m < k ==> hs[m] is Some,
                forall|m: int|
                    0 <= m < k ==> slot_holds(#[trigger] all@[m], hs[m]->0),
                views(keys@) == group_starts(es).take(k as int),
            decreases ids.len() - k,
        {
            let id = string_of(&ids[k]);
            assert(hs[k as int] == history_of(ids@[k as int]@, group_of(es, ids@[k as int]@)));
            match self.create_execution_history(id.as_str(), &groups[k]) {
                Ok(h) => {
                    let g = &groups[k];
                    assert(g@[0]@ == entry_views(g@)[0]);
                    assert(g@[0].timestamp is Some);
                    let key = chars_of(g[0].timestamp.as_ref().unwrap().as_str());
                    let ghost kb = views(keys@);
                    keys.push(key);
                    assert(views(keys@) =~= kb.push(key@));
                    assert(group_starts(es).take(k + 1) =~= group_starts(es).take(k as int).push(
                        group_starts(es)[k as int],
                    ));
                    all.push(Some(h));
                },
                Err(e) => {
                    assert(hs[k as int] is None);
                    assert(views(ids@).len() == ids@.len());
                    assert(hs.len() == ids.len());
                    assert(exists|q: int| 0 <= q < hs.len() && hs[q] is None);
                    assert(es == entry_views(entries@));
                    return Err(e);
                },
            }
            k += 1;
        }
        assert(group_starts(es).take(k as int) =~= group_starts(es));
        let p = select_top(&keys, limit);
        let mut out: Vec<ExecutionHistory> = Vec::new();
        let mut a: usize = 0;
        while a < p.len()
            invariant
                a <= p.len(),
                es == entry_views(entries@),
                all.len() == ids.len(),
                hs == group_histories(es),
                hs.len() == ids.len(),
                picks_top(usize_ints(p@), views(keys@), limit as int),
                keys.len() == ids.len(),
                forall|m: int|
                    0 <= m < all.len() && !usize_ints(p@).take(a as int).contains(m) ==> slot_holds(
                        #[trigger] all@[m],
                        hs[m]->0,
                    ),
                out@.map_values(|h: ExecutionHistory| h@) == usize_ints(p@).take(a as int).map_values(
                    |i: int| hs[i]->0,
                ),
            decreases p.len() - a,
        {
            let j = p[a];
            assert(usize_ints(p@)[a as int] == j as int);
            assert(!usize_ints(p@).take(a as int).contains(j as int)) by {
                if usize_ints(p@).take(a as int).contains(j as int) {
                    let w = choose|w: int| 0 <= w < a && usize_ints(p@).take(a as int)[w] == j as int;
                    assert(usize_ints(p@)[w] == usize_ints(p@)[a as int]);
                }
            }
            let mut slot: Option<ExecutionHistory> = None;
            let ghost before = all@;
            std::mem::swap(&mut slot, &mut all[j]);
            assert(slot is Some);
            let h = slot.unwrap();
            let ghost ob = out@.map_values(|h: ExecutionHistory| h@);
            out.push(h);
            proof {
                assert(out@.map_values(|h: ExecutionHistory| h@) =~= ob.push(h@));
                assert(usize_ints(p@).take(a + 1) =~= usize_ints(p@).take(a as int).push(j as int));
                assert(usize_ints(p@).take(a + 1).map_values(|i: int| hs[i]->0) =~= usize_ints(p@).take(
                    a as int,
                ).map_values(|i: int| hs[i]->0).push(hs[j as int]->0));
                assert forall|m: int|
                    0 <= m < all.len() && !usize_ints(p@).take(a + 1).contains(m) implies slot_holds(
                        #[trigger] all@[m],
                        hs[m]->0,
                    ) by {
                    if m != j {
                        assert(all@[m] == before[m]);
                        if usize_ints(p@).take(a as int).contains(m) {
                            let w = choose|w: int| 0 <= w < a && usize_ints(p@).take(a as int)[w] == m;
                            assert(usize_ints(p@).take(a + 1)[w] == m);
                        }
                    } else {
                        assert(usize_ints(p@).take(a + 1)[a as int] == m);
                    }
                }
            }
            a += 1;
        }
        assert(usize_ints(p@).take(a as int) =~= usize_ints(p@));
        Ok(out)
    }


    /// The latest runs of `service` over the last seven days of its journal.
    pub fn get_execution_history(&self, service: &str, limit: usize) -> (r: Result<
        Vec<ExecutionHistory>,
        TimerError,
    >)
        ensures
            history_result(self.executor(), service@, limit as int, r),
            r matches Ok(v) ==> v.len() <= limit,
    {
        if let Err(e) = SystemctlClient::<E>::validate_timer_name(service) {
            return Err(e);
        }
        let args: Vec<&str> = vec!["-u", service, "--since", "7 days ago", "-o", "json", "--no-pager"];
        assert(arg_views(args@) =~= history_args(service@));
        let o = self.executor.execute("journalctl", args.as_slice());
        assert(self.executor() == self.executor);
        let output = match o {
            Ok(x) => x,
            Err(e) => return Err(timer_error_from(e)),
        };
        if output.exit_code != 0 {
            let mut c = chars_of("journalctl -u ");
            crate::text::push_str(&mut c, service);
            return Err(
                TimerError::CommandFailed {
                    command: string_of(&c),
                    stderr: output.stderr,
                    exit_code: Some(output.exit_code),
                },
            );
        }
        let entries = match self.parse_journal_entries(output.stdout.as_str()) {
            Ok(v) => v,
            Err(e) => return Err(e),
        };
        let r = self.group_by_invocation(&entries, limit);
        proof {
            if r is Ok {
                let v = r->Ok_0;
                let p = choose|p: Seq<int>|
                    picks_top(p, group_starts(entry_views(entries@)), limit as int) && v@.map_values(
                        |h: ExecutionHistory| h@,
                    ) == p.map_values(|i: int| group_histories(entry_views(entries@))[i]->0);
                assert(v@.len() == v@.map_values(|h: ExecutionHistory| h@).len());
            }
        }
        r
    }

    /// One run of `service`, with every message it logged.
    pub fn get_execution_details(&self, service: &str, invocation_id: &str) -> (r: Result<
        ExecutionDetails,
        TimerError,
    >)
        ensures
            !timer_name_ok(service@) ==> r matches Err(TimerError::InvalidInput(_)),
            timer_name_ok(service@) ==> exists|o: Result<CommandOutput, ServiceError>|
                #[trigger] self.executor().answers(
                    "journalctl"@,
                    details_args(service@, invocation_id@),
                    o,
                ) && match o {
                    Ok(out) => if out.exit_code != 0 {
                        r matches Err(e) && journal_failed(
                            e,
                            "journalctl -u "@ + service@ + " invocation "@ + invocation_id@,
                            out,
                        )
                    } else {
                        details_made(r, invocation_id@, journal_entries(out.stdout@))
                    },
                    Err(e) => r matches Err(te) && timer_error_of(e, te),
                },
    {
        if let Err(e) = SystemctlClient::<E>::validate_timer_name(service) {
            return Err(e);
        }
        let mut filter = chars_of("INVOCATION_ID=");
        crate::text::push_str(&mut filter, invocation_id);
        let filter = string_of(&filter);
        let args: Vec<&str> = vec!["-u", service, filter.as_str(), "-o", "json", "--no-pager"];
        assert(arg_views(args@) =~= details_args(service@, invocation_id@));
        let o = self.executor.execute("journalctl", args.as_slice());
        assert(self.executor() == self.executor);
        let output = match o {
            Ok(x) => x,
            Err(e) => return Err(timer_error_from(e)),
        };
        if output.exit_code != 0 {
            let mut c = chars_of("journalctl -u ");
            crate::text::push_str(&mut c, service);
            crate::text::push_str(&mut c, " invocation ");
            crate::text::push_str(&mut c, invocation_id);
            return Err(
                TimerError::CommandFailed {
                    command: string_of(&c),
                    stderr: output.stderr,
                    exit_code: Some(output.exit_code),
                },
            );
        }
        let entries = match self.parse_journal_entries(output.stdout.as_str()) {
            Ok(v) => v,
            Err(e) => return Err(e),
        };
        self.create_execution_details(invocation_id, &entries)
    }

    /// Whole seconds between two microsecond numerals, where the end is later.
    pub fn calculate_duration(start: &str, end: &str) -> (r: Option<u64>)
        ensures
            r == duration_of(start@, end@),
    {
        let s = match parse_u64(&chars_of(start)) {
            Some(v) => v,
            None => return None,
        };
        let e = match parse_u64(&chars_of(end)) {
            Some(v) => v,
            None => return None,
        };
        if e > s {
            Some((e - s) / 1_000_000)
        } else {
            None
        }
    }

    /// A microsecond numeral as `YYYY-MM-DD HH:MM:SS` in UTC; anything else
    /// is kept as it is.
    pub fn format_timestamp(timestamp: &str) -> (r: String)
        ensures
            r@ == timestamp_text(timestamp@),
    {
        let t = chars_of(timestamp);
        if let Some(us) = parse_signed(&t, i64::MIN, i64::MAX) {
            let secs: i64 = if us >= 0 {
                us / 1_000_000
            } else {
                (-((-(us as i128)) / 1_000_000)) as i64
            };
            if let Some(text) = utc_seconds_text(secs) {
                return text;
            }
        }
        string_of(&t)
    }
}

} // verus!
