//! Properties that hold across the library's functions.
use vstd::prelude::*;
use crate::journal::{
    EntryView, ExecutionHistory, ExecutionStatus, history_of, last_exit_status, runs_grouped,
    group_ids, group_of, group_histories, group_starts, picks_top, duration_of,
};
use crate::schedule::{
    calendar_text, mentions_day_hours, part_of, schedule_text, Part, Schedule,
};
use crate::services::{service_name_ok, service_name_char};
use crate::text::{is_ws, trim, starts_with, contains, unsigned_of};
use crate::timers::{timer_name_ok, is_meta};

verus! {

/// A character that lets a shell run or chain commands.
pub open spec fn is_injection_char(c: char) -> bool {
    c == ';' || c == '|' || c == '`' || c == '$' || c == '&'
}

/// A name that holds a shell metacharacter or whitespace is refused by both
/// validators, so no command is ever built from it.
pub proof fn lemma_injection_rejected(s: Seq<char>, i: int)
    requires
        0 <= i < s.len(),
        is_injection_char(s[i]) || is_ws(s[i]),
    ensures
        !service_name_ok(s),
        !timer_name_ok(s),
{
    assert(!service_name_char(s[i]));
    assert(is_meta(s[i]) || is_ws(s[i]));
}

/// Validation reads nothing but the name: any two verdicts on the same name
/// agree.
pub proof fn lemma_validation_stable(
    name: Seq<char>,
    first: Result<(), crate::error::ServiceError>,
    second: Result<(), crate::error::ServiceError>,
)
    requires
        first is Ok <==> service_name_ok(name),
        second is Ok <==> service_name_ok(name),
    ensures
        first is Ok <==> second is Ok,
{
}

/// A calendar expression that none of the known aliases and weekday
/// patterns matches.
pub open spec fn calendar_unrecognized(expression: Seq<char>) -> bool {
    let e = trim(expression);
    &&& e != "*-*-* *:*:*"@ && e != "hourly"@ && e != "daily"@ && e != "weekly"@ && e
        != "monthly"@
    &&& !(starts_with(e, "*-*-*"@) && contains(e, "00:00"@))
    &&& !(starts_with(e, "Mon"@) && contains(e, "00:00"@))
    &&& !starts_with(e, "Mon-Fri"@)
    &&& !contains(e, "Mon,Wed,Fri"@)
    &&& !((contains(e, "*:00:00"@) || contains(e, "*:00"@)) && mentions_day_hours(e))
}

/// Rendering never fails: an expression it does not recognise comes back
/// unchanged.
pub proof fn lemma_unrecognized_calendar_kept(expression: Seq<char>)
    requires
        calendar_unrecognized(expression),
    ensures
        calendar_text(expression) == expression,
{
}

/// A schedule parsed from a calendar property alone renders as that
/// calendar expression does.
pub proof fn lemma_parsed_calendar_renders(s: Schedule, expression: Seq<char>)
    requires
        part_of(s) == Some(Part::Calendar(expression)),
    ensures
        schedule_text(s) == calendar_text(expression),
{
}

/// A run none of whose records carries an exit status is still running and
/// has no duration.
pub proof fn lemma_no_end_marker_running(id: Seq<char>, g: Seq<EntryView>)
    requires
        g.len() > 0,
        g[0].timestamp is Some,
        forall|i: int| 0 <= i < g.len() ==> (#[trigger] g[i]).exit_status is None,
    ensures
        history_of(id, g) matches Some(h) && h.status == ExecutionStatus::Running
            && h.duration_secs is None && h.end_time is None,
{
    lemma_no_exit_status(g);
}

proof fn lemma_no_exit_status(g: Seq<EntryView>)
    requires
        forall|i: int| 0 <= i < g.len() ==> (#[trigger] g[i]).exit_status is None,
    ensures
        last_exit_status(g) is None,
    decreases g.len(),
{
    if g.len() > 0 {
        assert(g[g.len() - 1].exit_status is None);
        assert forall|i: int| 0 <= i < g.drop_last().len() implies (#[trigger] g.drop_last()[i]).exit_status is None by {
            assert(g.drop_last()[i] == g[i]);
        }
        lemma_no_exit_status(g.drop_last());
    }
}

/// A run whose latest exit status reads 0 has ended in success.
pub proof fn lemma_zero_exit_success(id: Seq<char>, g: Seq<EntryView>)
    requires
        g.len() > 0,
        g[0].timestamp is Some,
        last_exit_status(g) == Some("0"@),
    ensures
        history_of(id, g) matches Some(h) && h.status == ExecutionStatus::Success && h.exit_code
            == Some(0i32),
{
    reveal_strlit("0");
    let z = "0"@;
    assert(z.len() == 1 && z[0] == '0');
    assert(z.drop_last() =~= Seq::<char>::empty());
    assert(crate::text::unsigned_digits(z) == z);
    assert(crate::text::all_digits(z));
    assert(z.last() == '0');
    assert(crate::text::digits_value(z.drop_last()) == 0);
    assert(crate::text::digits_value(z) == 0);
    assert(crate::text::unsigned_of(z) == Some(0nat));
    assert(crate::text::signed_of(z) == Some(0int));
}

/// Two records of one invocation, the second 45 seconds after the first
/// and carrying exit status 0, group into one successful run of 45 seconds.
pub proof fn lemma_two_record_run(
    r: Result<Vec<ExecutionHistory>, crate::error::TimerError>,
    es: Seq<EntryView>,
    limit: int,
    id: Seq<char>,
    start: Seq<char>,
    end: Seq<char>,
    v: nat,
)
    requires
        es.len() == 2,
        es[0].invocation_id == Some(id),
        es[1].invocation_id == Some(id),
        es[0].timestamp == Some(start),
        es[1].timestamp == Some(end),
        unsigned_of(start) == Some(v),
        unsigned_of(end) == Some(v + 45_000_000),
        v + 45_000_000 <= u64::MAX,
        es[0].exit_status is None,
        es[1].exit_status == Some("0"@),
        limit >= 1,
        runs_grouped(r, es, limit),
    ensures
        r matches Ok(h) && h.len() == 1 && h[0].invocation_id@ == id && h[0].status
            == ExecutionStatus::Success && h[0].duration_secs == Some(45u64) && h[0].exit_code
            == Some(0i32),
{
    let e1 = es.drop_last();
    assert(e1.len() == 1 && e1[0] == es[0]);
    assert(e1.drop_last().len() == 0);
    assert(group_ids(e1.drop_last()) =~= Seq::<Seq<char>>::empty());
    assert(group_ids(e1) =~= seq![id]);
    assert(seq![id].contains(id)) by {
        assert(seq![id][0] == id);
    }
    assert(group_ids(es) == seq![id]);
    assert(group_of(e1.drop_last(), id) =~= Seq::<EntryView>::empty());
    assert(group_of(e1, id) =~= seq![es[0]]);
    assert(group_of(es, id) =~= seq![es[0], es[1]]);
    let g = group_of(es, id);
    lemma_zero_exit_success(id, g);
    assert(last_exit_status(g) == Some("0"@));
    assert(duration_of(start, end) == Some(45u64));
    let hs = group_histories(es);
    assert(hs.len() == 1 && hs[0] == history_of(id, g));
    assert(!(exists|k: int| 0 <= k < hs.len() && hs[k] is None));
    let h = r->Ok_0;
    let p = choose|p: Seq<int>|
        picks_top(p, group_starts(es), limit) && h@.map_values(|x: ExecutionHistory| x@)
            == p.map_values(|i: int| hs[i]->0);
    assert(group_starts(es).len() == 1);
    assert(p.len() == 1);
    assert(p[0] == 0);
    assert(p.map_values(|i: int| hs[i]->0).len() == 1);
    assert(h@.map_values(|x: ExecutionHistory| x@).len() == 1);
    assert(h@.len() == 1);
    assert(h@.map_values(|x: ExecutionHistory| x@)[0] == h@[0]@);
    assert(p.map_values(|i: int| hs[i]->0)[0] == hs[0]->0);
}

} // verus!
