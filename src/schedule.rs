//! Timer schedules: parsing interval and calendar properties, and rendering
//! them as text for people.
use vstd::prelude::*;
use crate::error::TimerError;
use crate::text::{
    trim, ends_with, starts_with, contains, first_at, unsigned_of, dec, chars_of, string_of,
    trim_chars, ends_with_chars, starts_with_chars, contains_chars, find_chars, occurs_at, occurs_at_chars,
    slice_chars, parse_u64, push_all, push_str, u64_to_chars, is_text, lemma_first_at_unique,
};

verus! {

broadcast use vstd::std_specs::vec::axiom_vec_index_decreases;

/// A timer's schedule.
#[derive(Debug)]
pub enum Schedule {
    /// A calendar expression, such as `Mon-Fri 08-21:00`.
    Calendar { expression: String },
    /// Runs this many seconds after boot.
    OnBoot { seconds: u64 },
    /// Runs this many seconds after the unit was last activated.
    Recurring { seconds: u64 },
    /// Several schedules at once.
    Multiple(Vec<Schedule>),
}

/// `s` with every trailing copy of `p` removed, as `str::trim_end_matches` does.
pub open spec fn strip_all(s: Seq<char>, p: Seq<char>) -> Seq<char>
    decreases s.len(),
{
    if p.len() > 0 && ends_with(s, p) {
        strip_all(s.subrange(0, s.len() - p.len()), p)
    } else {
        s
    }
}

/// `s` without its last `p.len()` characters: the suffix `p` removed once.
pub open spec fn strip_once(s: Seq<char>, p: Seq<char>) -> Seq<char> {
    s.subrange(0, s.len() - p.len())
}

/// The numeral of a time span and the number of seconds in its unit: one
/// unit suffix is removed, the longest of its group that ends the text.
pub open spec fn span_parts(expr: Seq<char>) -> (Seq<char>, nat) {
    let e = trim(expr);
    if ends_with(e, "min"@) {
        (strip_once(e, "min"@), 60)
    } else if ends_with(e, "m"@) {
        (strip_once(e, "m"@), 60)
    } else if ends_with(e, "hours"@) {
        (strip_once(e, "hours"@), 3600)
    } else if ends_with(e, "hour"@) {
        (strip_once(e, "hour"@), 3600)
    } else if ends_with(e, "h"@) {
        (strip_once(e, "h"@), 3600)
    } else if ends_with(e, "sec"@) {
        (strip_once(e, "sec"@), 1)
    } else if ends_with(e, "s"@) {
        (strip_once(e, "s"@), 1)
    } else {
        (e, 1)
    }
}

fn strip_once_chars(s: &Vec<char>, p: &Vec<char>) -> (r: Vec<char>)
    requires
        ends_with(s@, p@),
    ensures
        r@ == strip_once(s@, p@),
{
    slice_chars(s, 0, s.len() - p.len())
}

/// The number of seconds that a time span such as `5min`, `2h`, `30s` or
/// `120` stands for; `None` where it is no such span or does not fit in a `u64`.
pub open spec fn time_span_of(expr: Seq<char>) -> Option<nat> {
    let (num, unit) = span_parts(expr);
    match unsigned_of(num) {
        Some(v) => if v * unit <= u64::MAX {
            Some(v * unit)
        } else {
            None
        },
        None => None,
    }
}

/// A duration in the coarsest two units that describe it.
pub open spec fn duration_text(n: nat) -> Seq<char> {
    if n < 60 {
        dec(n) + "s"@
    } else if n < 3600 {
        if n % 60 == 0 {
            dec(n / 60) + "min"@
        } else {
            dec(n / 60) + "min "@ + dec(n % 60) + "s"@
        }
    } else if n < 86400 {
        if (n % 3600) / 60 == 0 {
            dec(n / 3600) + "h"@
        } else {
            dec(n / 3600) + "h "@ + dec((n % 3600) / 60) + "min"@
        }
    } else {
        if (n % 86400) / 3600 == 0 {
            dec(n / 86400) + "d"@
        } else {
            dec(n / 86400) + "d "@ + dec((n % 86400) / 3600) + "h"@
        }
    }
}

pub open spec fn first_index(s: Seq<char>, p: Seq<char>) -> int {
    choose|i: int| first_at(s, p, i)
}

/// The text between the first occurrence of `p` in `s` and the next one (or
/// the end), as `s.split(p).nth(1)` gives it.
pub open spec fn second_piece(s: Seq<char>, p: Seq<char>) -> Seq<char> {
    let rest = s.skip(first_index(s, p) + p.len());
    if contains(rest, p) {
        rest.take(first_index(rest, p))
    } else {
        rest
    }
}

pub open spec fn mentions_day_hours(e: Seq<char>) -> bool {
    contains(e, "08-21"@) || contains(e, "08:00-21:00"@)
}

/// A calendar expression as people read it: the known aliases and weekday
/// patterns are rendered, anything else is kept as it is.
pub open spec fn calendar_text(expression: Seq<char>) -> Seq<char> {
    let e = trim(expression);
    if e == "*-*-* *:*:*"@ || e == "hourly"@ {
        "Hourly"@
    } else if e == "daily"@ || (starts_with(e, "*-*-*"@) && contains(e, "00:00"@)) {
        "Daily at midnight"@
    } else if e == "weekly"@ || (starts_with(e, "Mon"@) && contains(e, "00:00"@)) {
        "Weekly on Monday"@
    } else if e == "monthly"@ {
        "Monthly"@
    } else if starts_with(e, "Mon-Fri"@) {
        let time_part = trim(e.skip(7));
        if mentions_day_hours(time_part) {
            "Mon-Fri, 8 AM - 9 PM"@
        } else {
            "Mon-Fri "@ + time_part
        }
    } else if contains(e, "Mon,Wed,Fri"@) {
        "Mon, Wed, Fri "@ + trim(second_piece(e, "Mon,Wed,Fri"@))
    } else if (contains(e, "*:00:00"@) || contains(e, "*:00"@)) && mentions_day_hours(e) {
        "Hourly, 8 AM - 9 PM"@
    } else {
        expression
    }
}

/// The rendering of a schedule.
pub open spec fn schedule_text(s: Schedule) -> Seq<char>
    decreases s, 0nat,
{
    match s {
        Schedule::Calendar { expression } => calendar_text(expression@),
        Schedule::OnBoot { seconds } => duration_text(seconds as nat) + " after boot"@,
        Schedule::Recurring { seconds } => "Every "@ + duration_text(seconds as nat),
        Schedule::Multiple(v) => joined_text(v, v.len() as nat),
    }
}

/// The renderings of the first `n` schedules of `v`, joined by `, `.
pub open spec fn joined_text(v: Vec<Schedule>, n: nat) -> Seq<char>
    decreases v, n,
{
    if n == 0 || n > v.len() {
        Seq::empty()
    } else if n == 1 {
        schedule_text(v[0])
    } else {
        joined_text(v, (n - 1) as nat) + ", "@ + schedule_text(v[n - 1])
    }
}


pub fn strip_all_chars(s: &Vec<char>, p: &Vec<char>) -> (r: Vec<char>)
    ensures
        r@ == strip_all(s@, p@),
{
    let mut end = s.len();
    assert(s@.subrange(0, end as int) =~= s@);
    while p.len() > 0 && p.len() <= end && occurs_at_chars(s, p, end - p.len())
        invariant
            end <= s.len(),
            strip_all(s@, p@) == strip_all(s@.subrange(0, end as int), p@),
        decreases end,
    {
        let ghost t = s@.subrange(0, end as int);
        assert(t.subrange(end - p.len(), end as int) =~= s@.subrange(end - p.len(), end as int));
        assert(t.subrange(0, end - p.len()) =~= s@.subrange(0, end - p.len()));
        end -= p.len();
    }
    proof {
        let t = s@.subrange(0, end as int);
        if p.len() > 0 && p.len() <= end {
            assert(t.subrange(end - p.len(), end as int) =~= s@.subrange(end - p.len(), end as int));
        }
    }
    slice_chars(s, 0, end)
}

fn span_error(what: &str, expr: &str) -> (r: TimerError)
    ensures
        r is ParseError,
{
    let mut reason = chars_of(what);
    push_str(&mut reason, expr);
    TimerError::ParseError { source: string_of(&chars_of("time_span")), reason: string_of(&reason) }
}

impl Schedule {
    /// Seconds of a time span such as `5min`, `2h`, `30s` or a bare `120`.
    pub fn parse_time_span(expr: &str) -> (r: Result<u64, TimerError>)
        ensures
            r is Ok <==> time_span_of(expr@) is Some,
            r matches Ok(v) ==> v == time_span_of(expr@)->0,
            r matches Err(e) ==> e is ParseError,
    {
        let raw = chars_of(expr);
        let e = trim_chars(&raw);
        let min = chars_of("min");
        let m = chars_of("m");
        let hours = chars_of("hours");
        let hour = chars_of("hour");
        let h = chars_of("h");
        let sec = chars_of("sec");
        let sx = chars_of("s");
        let num: Vec<char>;
        let unit: u64;
        let what: &str;
        if ends_with_chars(&e, &min) {
            num = strip_once_chars(&e, &min);
            unit = 60;
            what = "Invalid minutes: ";
        } else if ends_with_chars(&e, &m) {
            num = strip_once_chars(&e, &m);
            unit = 60;
            what = "Invalid minutes: ";
        } else if ends_with_chars(&e, &hours) {
            num = strip_once_chars(&e, &hours);
            unit = 3600;
            what = "Invalid hours: ";
        } else if ends_with_chars(&e, &hour) {
            num = strip_once_chars(&e, &hour);
            unit = 3600;
            what = "Invalid hours: ";
        } else if ends_with_chars(&e, &h) {
            num = strip_once_chars(&e, &h);
            unit = 3600;
            what = "Invalid hours: ";
        } else if ends_with_chars(&e, &sec) {
            num = strip_once_chars(&e, &sec);
            unit = 1;
            what = "Invalid seconds: ";
        } else if ends_with_chars(&e, &sx) {
            num = strip_once_chars(&e, &sx);
            unit = 1;
            what = "Invalid seconds: ";
        } else {
            num = e;
            unit = 1;
            what = "Invalid time span: ";
        }
        assert(span_parts(expr@) == (num@, unit as nat));
        match parse_u64(&num) {
            Some(v) => {
                if v > u64::MAX / unit {
                    assert(v * unit > u64::MAX) by (nonlinear_arith)
                        requires v > u64::MAX / unit, unit > 0;
                    Err(span_error(what, expr))
                } else {
                    assert(v * unit <= u64::MAX) by (nonlinear_arith)
                        requires v <= u64::MAX / unit, unit > 0;
                    Ok(v * unit)
                }
            },
            None => {
                proof {
                    if let Some(v) = unsigned_of(num@) {
                        let u = unit as nat;
                        assert(v * u >= v) by (nonlinear_arith)
                            requires u >= 1;
                    }
                }
                Err(span_error(what, expr))
            },
        }
    }

    /// A duration in seconds as text: `45s`, `1min 30s`, `1h 1min`, `1d 1h`.
    pub fn humanize_duration(seconds: u64) -> (r: String)
        ensures
            r@ == duration_text(seconds as nat),
    {
        let mut v: Vec<char>;
        if seconds < 60 {
            v = u64_to_chars(seconds);
            push_str(&mut v, "s");
        } else if seconds < 3600 {
            v = u64_to_chars(seconds / 60);
            if seconds % 60 == 0 {
                push_str(&mut v, "min");
            } else {
                push_str(&mut v, "min ");
                let t = u64_to_chars(seconds % 60);
                push_all(&mut v, &t);
                push_str(&mut v, "s");
            }
        } else if seconds < 86400 {
            v = u64_to_chars(seconds / 3600);
            if (seconds % 3600) / 60 == 0 {
                push_str(&mut v, "h");
            } else {
                push_str(&mut v, "h ");
                let t = u64_to_chars((seconds % 3600) / 60);
                push_all(&mut v, &t);
                push_str(&mut v, "min");
            }
        } else {
            v = u64_to_chars(seconds / 86400);
            if (seconds % 86400) / 3600 == 0 {
                push_str(&mut v, "d");
            } else {
                push_str(&mut v, "d ");
                let t = u64_to_chars((seconds % 86400) / 3600);
                push_all(&mut v, &t);
                push_str(&mut v, "h");
            }
        }
        string_of(&v)
    }
}


pub fn first_index_of(s: &Vec<char>, p: &Vec<char>) -> (r: Option<usize>)
    ensures
        r is Some <==> contains(s@, p@),
        r matches Some(i) ==> i == first_index(s@, p@) && i + p@.len() <= s@.len(),
{
    let r = find_chars(s, p);
    proof {
        if let Some(i) = r {
            assert(occurs_at(s@, p@, i as int));
            let k = first_index(s@, p@);
            assert(first_at(s@, p@, k));
            lemma_first_at_unique(s@, p@, i as int, k);
        }
    }
    r
}

fn mentions_day_hours_exec(e: &Vec<char>) -> (r: bool)
    ensures
        r == mentions_day_hours(e@),
{
    contains_chars(e, &chars_of("08-21")) || contains_chars(e, &chars_of("08:00-21:00"))
}

fn text_string(lit: &str) -> (r: String)
    ensures
        r@ == lit@,
{
    string_of(&chars_of(lit))
}

impl Schedule {
    /// A calendar expression as people read it.
    pub fn humanize_calendar(expression: &str) -> (r: String)
        ensures
            r@ == calendar_text(expression@),
    {
        let raw = chars_of(expression);
        let e = trim_chars(&raw);
        let all_00 = chars_of("00:00");
        if is_text(&e, "*-*-* *:*:*") || is_text(&e, "hourly") {
            return text_string("Hourly");
        }
        if is_text(&e, "daily") || (starts_with_chars(&e, &chars_of("*-*-*")) && contains_chars(
            &e,
            &all_00,
        )) {
            return text_string("Daily at midnight");
        }
        if is_text(&e, "weekly") || (starts_with_chars(&e, &chars_of("Mon")) && contains_chars(
            &e,
            &all_00,
        )) {
            return text_string("Weekly on Monday");
        }
        if is_text(&e, "monthly") {
            return text_string("Monthly");
        }
        let mon_fri = chars_of("Mon-Fri");
        if starts_with_chars(&e, &mon_fri) {
            proof {
                reveal_strlit("Mon-Fri");
            }
            let after = slice_chars(&e, mon_fri.len(), e.len());
            assert(after@ =~= e@.skip(7));
            let time_part = trim_chars(&after);
            if mentions_day_hours_exec(&time_part) {
                return text_string("Mon-Fri, 8 AM - 9 PM");
            }
            let mut v = chars_of("Mon-Fri ");
            push_all(&mut v, &time_part);
            return string_of(&v);
        }
        let days = chars_of("Mon,Wed,Fri");
        if let Some(i) = first_index_of(&e, &days) {
            let rest = slice_chars(&e, i + days.len(), e.len());
            assert(rest@ =~= e@.skip(i + days@.len()));
            let piece = match first_index_of(&rest, &days) {
                Some(j) => {
                    let t = slice_chars(&rest, 0, j);
                    assert(t@ =~= rest@.take(j as int));
                    t
                },
                None => rest,
            };
            let time_part = trim_chars(&piece);
            let mut v = chars_of("Mon, Wed, Fri ");
            push_all(&mut v, &time_part);
            return string_of(&v);
        }
        if (contains_chars(&e, &chars_of("*:00:00")) || contains_chars(&e, &chars_of("*:00")))
            && mentions_day_hours_exec(&e) {
            return text_string("Hourly, 8 AM - 9 PM");
        }
        string_of(&raw)
    }
}


/// One schedule that a timer property gives.
pub enum Part {
    Calendar(Seq<char>),
    OnBoot(nat),
    Recurring(nat),
}

/// The part that a single (not combined) schedule stands for.
pub open spec fn part_of(s: Schedule) -> Option<Part> {
    match s {
        Schedule::Calendar { expression } => Some(Part::Calendar(expression@)),
        Schedule::OnBoot { seconds } => Some(Part::OnBoot(seconds as nat)),
        Schedule::Recurring { seconds } => Some(Part::Recurring(seconds as nat)),
        Schedule::Multiple(_) => None,
    }
}

pub open spec fn opt_view(o: Option<&str>) -> Option<Seq<char>> {
    match o {
        Some(s) => Some(s@),
        None => None,
    }
}

/// Every interval property that is present is a valid time span.
pub open spec fn spans_valid(on_boot: Option<Seq<char>>, on_active: Option<Seq<char>>) -> bool {
    &&& (on_boot matches Some(b) ==> time_span_of(b) is Some)
    &&& (on_active matches Some(a) ==> time_span_of(a) is Some)
}

/// The schedules that the present properties ask for, in the order calendar,
/// boot, activation.
pub open spec fn requested_parts(
    on_calendar: Option<Seq<char>>,
    on_boot: Option<Seq<char>>,
    on_active: Option<Seq<char>>,
) -> Seq<Part> {
    let c = match on_calendar {
        Some(e) => seq![Part::Calendar(e)],
        None => seq![],
    };
    let b = match on_boot {
        Some(e) => seq![Part::OnBoot(time_span_of(e)->0)],
        None => seq![],
    };
    let a = match on_active {
        Some(e) => seq![Part::Recurring(time_span_of(e)->0)],
        None => seq![],
    };
    c + b + a
}

pub open spec fn parts_of(v: Seq<Schedule>) -> Seq<Option<Part>> {
    v.map_values(|s: Schedule| part_of(s))
}

proof fn lemma_item_smaller(s: Schedule, i: int)
    requires
        s matches Schedule::Multiple(v) && 0 <= i < v.len(),
    ensures
        decreases_to!(s => s->Multiple_0[i]),
{
    let v = s->Multiple_0;
    assert(decreases_to!(s => v));
    assert(decreases_to!(v => v[i]));
}

impl Schedule {
    /// The schedule that a timer's calendar, boot and activation properties
    /// describe: one part for each property present, combined where there are
    /// several.
    pub fn parse(on_calendar: Option<&str>, on_boot: Option<&str>, on_active: Option<&str>) -> (r:
        Result<Schedule, TimerError>)
        ensures
            ({
                let parts = requested_parts(
                    opt_view(on_calendar),
                    opt_view(on_boot),
                    opt_view(on_active),
                );
                &&& r is Ok <==> spans_valid(opt_view(on_boot), opt_view(on_active)) && parts.len()
                    > 0
                &&& r matches Err(e) ==> e is ParseError
                &&& r matches Ok(s) ==> (parts.len() == 1 ==> part_of(s) == Some(parts[0]))
                &&& r matches Ok(s) ==> (parts.len() > 1 ==> (s matches Schedule::Multiple(v)
                    && parts_of(v@) == parts.map_values(|p: Part| Some(p))))
            }),
    {
        let ghost parts = requested_parts(opt_view(on_calendar), opt_view(on_boot), opt_view(on_active));
        let ghost c = match opt_view(on_calendar) {
            Some(e) => seq![Part::Calendar(e)],
            None => Seq::<Part>::empty(),
        };
        let ghost b = match opt_view(on_boot) {
            Some(e) => seq![Part::OnBoot(time_span_of(e)->0)],
            None => Seq::<Part>::empty(),
        };
        let mut items: Vec<Schedule> = Vec::new();
        if let Some(expr) = on_calendar {
            items.push(Schedule::Calendar { expression: string_of(&chars_of(expr)) });
        }
        assert(parts_of(items@) =~= c.map_values(|p: Part| Some(p)));
        if let Some(expr) = on_boot {
            match Self::parse_time_span(expr) {
                Ok(seconds) => items.push(Schedule::OnBoot { seconds }),
                Err(e) => return Err(e),
            }
        }
        assert(parts_of(items@) =~= (c + b).map_values(|p: Part| Some(p)));
        if let Some(expr) = on_active {
            match Self::parse_time_span(expr) {
                Ok(seconds) => items.push(Schedule::Recurring { seconds }),
                Err(e) => return Err(e),
            }
        }
        assert(parts_of(items@) =~= parts.map_values(|p: Part| Some(p)));
        assert(items@.len() == parts.len());
        if items.len() == 0 {
            Err(
                TimerError::ParseError {
                    source: text_string("schedule"),
                    reason: text_string("No schedule information found"),
                },
            )
        } else if items.len() == 1 {
            let s = items.pop().unwrap();
            assert(part_of(s) == parts_of(seq![s])[0]);
            Ok(s)
        } else {
            Ok(Schedule::Multiple(items))
        }
    }

    /// The schedule as people read it; several parts are joined by `, `.
    pub fn humanize(&self) -> (r: String)
        ensures
            r@ == schedule_text(*self),
        decreases self,
    {
        match self {
            Schedule::Calendar { expression } => Self::humanize_calendar(expression.as_str()),
            Schedule::OnBoot { seconds } => {
                let mut v = chars_of(Self::humanize_duration(*seconds).as_str());
                push_str(&mut v, " after boot");
                string_of(&v)
            },
            Schedule::Recurring { seconds } => {
                let mut v = chars_of("Every ");
                push_str(&mut v, Self::humanize_duration(*seconds).as_str());
                string_of(&v)
            },
            Schedule::Multiple(items) => {
                let mut acc: Vec<char> = Vec::new();
                let mut i: usize = 0;
                while i < items.len()
                    invariant
                        i <= items.len(),
                        acc@ == joined_text(*items, i as nat),
                        *self == Schedule::Multiple(*items),
                    decreases items.len() - i,
                {
                    proof { lemma_item_smaller(*self, i as int); }
                    let part = items[i].humanize();
                    if i > 0 {
                        push_str(&mut acc, ", ");
                    }
                    push_str(&mut acc, part.as_str());
                    i += 1;
                }
                string_of(&acc)
            },
        }
    }
}

} // verus!
