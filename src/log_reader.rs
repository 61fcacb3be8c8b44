//! The file-based execution history: one log file per run, named by its
//! start, closed by an `[END] <time> exit_code=<n> duration=<n>s` line.
use vstd::prelude::*;
use crate::error::TimerError;
use crate::executor::{CommandExecutor, CommandOutput, arg_views};
use crate::error::ServiceError;
use crate::journal::{ExecutionDetails, ExecutionHistory, ExecutionStatus, HistoryView, TriggerType, history_part, string_views};
use crate::schedule::{strip_all, first_index, first_index_of};
use crate::timers::{SystemctlClient, timer_error_from, timer_error_of};
use crate::text::{
    words, split_words, lines, split_lines, views, keep_some, lemma_keep_some_step, opt_str,
    chars_of, string_of, slice_chars, starts_with, starts_with_chars, contains, parse_u64,
    parse_signed, unsigned_of, signed_of, push_str, push_all, ends_with_chars, is_text,
    trim_chars, trim, ends_with,
};

verus! {

/// The first word of `s`, or nothing.
pub open spec fn first_word(s: Seq<char>) -> Seq<char> {
    if words(s).len() > 0 {
        words(s)[0]
    } else {
        Seq::empty()
    }
}

/// The word after the first `key` in `line`, where `key` occurs.
pub open spec fn value_after_key(line: Seq<char>, key: Seq<char>) -> Option<Seq<char>> {
    if contains(line, key) {
        Some(first_word(line.skip(first_index(line, key) + key.len())))
    } else {
        None
    }
}

pub open spec fn is_end_line(line: Seq<char>) -> bool {
    starts_with(line, "[END]"@)
}

pub open spec fn end_exit_code(line: Seq<char>) -> Option<i32> {
    match value_after_key(line, "exit_code="@) {
        Some(v) => match signed_of(v) {
            Some(c) => if i32::MIN <= c <= i32::MAX {
                Some(c as i32)
            } else {
                None
            },
            None => None,
        },
        None => None,
    }
}

pub open spec fn end_duration(line: Seq<char>) -> Option<u64> {
    match value_after_key(line, "duration="@) {
        Some(v) => match unsigned_of(strip_all(v, "s"@)) {
            Some(d) => if d <= u64::MAX {
                Some(d as u64)
            } else {
                None
            },
            None => None,
        },
        None => None,
    }
}

pub open spec fn end_time_of(line: Seq<char>) -> Option<Seq<char>> {
    if starts_with(line, "[END] "@) && words(line.skip(6)).len() > 0 {
        Some(words(line.skip(6))[0])
    } else {
        None
    }
}

/// What an `[END]` line tells: end time, exit code, duration and status; a
/// line that is no `[END]` line tells that the run is still going.
pub open spec fn end_line_of(line: Seq<char>) -> (
    Option<Seq<char>>,
    Option<i32>,
    Option<u64>,
    ExecutionStatus,
) {
    if !is_end_line(line) {
        (None, None, None, ExecutionStatus::Running)
    } else {
        (
            end_time_of(line),
            end_exit_code(line),
            end_duration(line),
            match end_exit_code(line) {
                Some(c) => if c == 0 {
                    ExecutionStatus::Success
                } else {
                    ExecutionStatus::Failed
                },
                None => ExecutionStatus::Success,
            },
        )
    }
}

/// `YYYY-MM-DD_HHMMSS` as `YYYY-MM-DD HH:MM:SS`; a shorter name as it is.
pub open spec fn datetime_of_name(t: Seq<char>) -> Seq<char> {
    if t.len() >= 17 {
        t.subrange(0, 10) + " "@ + t.subrange(11, 13) + ":"@ + t.subrange(13, 15) + ":"@
            + t.subrange(15, 17)
    } else {
        t
    }
}

/// The run that a log file named by `timestamp` records, given its last line.
pub open spec fn file_history(timestamp: Seq<char>, last_line: Seq<char>) -> HistoryView {
    let (end_time, exit_code, duration_secs, status) = end_line_of(last_line);
    HistoryView {
        invocation_id: timestamp,
        start_time: datetime_of_name(timestamp),
        end_time,
        duration_secs,
        status,
        exit_code,
        trigger: TriggerType::Scheduled,
    }
}

pub open spec fn is_output_line(l: Seq<char>) -> bool {
    !starts_with(l, "[START]"@) && !starts_with(l, "[END]"@)
}

pub open spec fn output_lines(ls: Seq<Seq<char>>) -> Seq<Seq<char>> {
    keep_some(ls, |l: Seq<char>| if is_output_line(l) { Some(l) } else { None })
}

fn opt_string(o: Option<Vec<char>>) -> (r: Option<String>)
    ensures
        opt_str(r) == match o {
            Some(v) => Some(v@),
            None => None,
        },
{
    match o {
        Some(v) => Some(string_of(&v)),
        None => None,
    }
}

/// What `parse_log_file_details` gives for a log file's content.
pub open spec fn file_details(r: Result<ExecutionDetails, TimerError>, content: Seq<char>, timestamp: Seq<char>) -> bool {
    let ls = lines(content);
    &&& (r is Err <==> ls.len() == 0)
    &&& (r matches Err(e) ==> e is ParseError)
    &&& (r matches Ok(d) ==> history_part(d) == file_history(timestamp, ls.last())
        && string_views(d.output@) == output_lines(ls))
}

/// The directory of a service's log files.
pub open spec fn log_dir_of(service: Seq<char>) -> Seq<char> {
    "/var/log/timers/"@ + strip_all(service, ".service"@)
}

/// The log file of the run that started at `timestamp`.
pub open spec fn log_file_of(service: Seq<char>, timestamp: Seq<char>) -> Seq<char> {
    log_dir_of(service) + "/"@ + timestamp + ".log"@
}

pub open spec fn ls_args(service: Seq<char>) -> Seq<Seq<char>> {
    seq!["-1t"@, log_dir_of(service)]
}

pub open spec fn cat_args(service: Seq<char>, timestamp: Seq<char>) -> Seq<Seq<char>> {
    seq![log_file_of(service, timestamp)]
}

pub open spec fn tail_args(path: Seq<char>) -> Seq<Seq<char>> {
    seq!["-n"@, "1"@, path]
}

/// A listed name that is a run's log file.
pub open spec fn is_log_name(f: Seq<char>) -> bool {
    ends_with(f, ".log"@) && f != "latest.log"@
}

/// At most `limit` items of `n`, from the front.
pub open spec fn capped(n: Seq<Seq<char>>, limit: nat) -> Seq<Seq<char>> {
    if n.len() > limit {
        n.take(limit as int)
    } else {
        n
    }
}

/// The log files that a listing names, in its order, at most `limit` of them.
pub open spec fn listed_logs(listing: Seq<char>, limit: nat) -> Seq<Seq<char>> {
    capped(
        keep_some(lines(listing), |f: Seq<char>| if is_log_name(f) { Some(f) } else { None }),
        limit,
    )
}

/// The runs that the files `files` record, given the answers `outs` to
/// reading their last lines; a file whose read failed is left out.
pub open spec fn file_runs(files: Seq<Seq<char>>, outs: Seq<Result<CommandOutput, ServiceError>>) -> Seq<HistoryView>
    decreases files.len(),
{
    if files.len() == 0 || outs.len() == 0 {
        seq![]
    } else {
        let r = file_runs(files.drop_last(), outs.drop_last());
        match outs.last() {
            Ok(t) => r.push(file_history(strip_all(files.last(), ".log"@), trim(t.stdout@))),
            Err(_) => r,
        }
    }
}

/// `outs` are answers of `executor` to reading the last line of each file.
pub open spec fn tails_answered<E: CommandExecutor>(
    executor: E,
    dir: Seq<char>,
    files: Seq<Seq<char>>,
    outs: Seq<Result<CommandOutput, ServiceError>>,
) -> bool {
    outs.len() == files.len() && forall|i: int|
        0 <= i < files.len() ==> #[trigger] executor.answers(
            "tail"@,
            tail_args(dir + "/"@ + files[i]),
            outs[i],
        )
}

/// The names of the run log files in a directory listing, in its order, at
/// most `limit` of them; `latest.log` is not a run's file.
pub fn select_log_files(listing: &str, limit: usize) -> (r: Vec<Vec<char>>)
    ensures
        views(r@) == listed_logs(listing@, limit as nat),
{
    let ls = split_lines(&chars_of(listing));
    let ghost lv = views(ls@);
    let suffix = chars_of(".log");
    let mut r: Vec<Vec<char>> = Vec::new();
    let mut i: usize = 0;
    while i < ls.len()
        invariant
            i <= ls.len(),
            lv == views(ls@),
            lv == lines(listing@),
            suffix@ == ".log"@,
            views(r@) == capped(
                keep_some(lv.take(i as int), |f: Seq<char>| if is_log_name(f) { Some(f) } else { None }),
                limit as nat,
            ),
        decreases ls.len() - i,
    {
        proof {
            lemma_keep_some_step(lv, |f: Seq<char>| if is_log_name(f) { Some(f) } else { None }, i as int);
        }
        let f = &ls[i];
        assert(lv[i as int] == f@);
        let ghost before = keep_some(lv.take(i as int), |f: Seq<char>| if is_log_name(f) { Some(f) } else { None });
        if ends_with_chars(f, &suffix) && !is_text(f, "latest.log") {
            if r.len() < limit {
                let ghost rv = views(r@);
                r.push(slice_chars(f, 0, f.len()));
                assert(f@.subrange(0, f@.len() as int) =~= f@);
                assert(views(r@) =~= rv.push(f@));
            } else {
                assert(before.push(f@).take(limit as int) =~= before.take(limit as int));
            }
        }
        i += 1;
    }
    assert(lv.take(ls.len() as int) =~= lv);
    r
}

/// A run's timestamp as it may name a log file: ASCII letters, digits, `-`
/// and `_` only, so that it cannot leave the service's directory.
pub open spec fn log_stamp_ok(t: Seq<char>) -> bool {
    t.len() > 0 && forall|i: int|
        0 <= i < t.len() ==> {
            let c = #[trigger] t[i];
            ('a' <= c && c <= 'z') || ('A' <= c && c <= 'Z') || ('0' <= c && c <= '9') || c == '-'
                || c == '_'
        }
}

fn log_stamp_exec(t: &str) -> (r: bool)
    ensures
        r == log_stamp_ok(t@),
{
    let v = chars_of(t);
    if v.len() == 0 {
        return false;
    }
    let mut i: usize = 0;
    while i < v.len()
        invariant
            i <= v.len(),
            v@ == t@,
            forall|k: int|
                0 <= k < i ==> {
                    let c = #[trigger] v@[k];
                    ('a' <= c && c <= 'z') || ('A' <= c && c <= 'Z') || ('0' <= c && c <= '9') || c
                        == '-' || c == '_'
                },
        decreases v.len() - i,
    {
        let c = v[i];
        if !(('a' <= c && c <= 'z') || ('A' <= c && c <= 'Z') || ('0' <= c && c <= '9') || c == '-'
            || c == '_') {
            return false;
        }
        i += 1;
    }
    true
}

/// Reads the per-run log files of a service through an executor.
pub struct LogReader<E: CommandExecutor> {
    executor: E,
}

impl<E: CommandExecutor> LogReader<E> {
    /// The executor that the reader runs its commands through.
    pub closed spec fn executor(&self) -> E {
        self.executor
    }

    pub fn new(executor: E) -> (r: Self)
        ensures
            r.executor() == executor,
    {
        LogReader { executor }
    }


    /// The run that a log file records, with every line that is no
    /// `[START]` or `[END]` marker as its output.
    pub fn parse_log_file_details(&self, content: &str, timestamp: &str) -> (r: Result<
        ExecutionDetails,
        TimerError,
    >)
        ensures
            file_details(r, content@, timestamp@),
    {
        let text = chars_of(content);
        let ls = split_lines(&text);
        let ghost lv = views(ls@);
        if ls.len() == 0 {
            return Err(
                TimerError::ParseError {
                    source: string_of(&chars_of("log_file")),
                    reason: string_of(&chars_of("Empty log file")),
                },
            );
        }
        let last = string_of(&ls[ls.len() - 1]);
        assert(lv.last() == last@);
        let start_time = Self::filename_to_datetime(timestamp);
        let (end_time, exit_code, duration_secs, status) = self.parse_end_line(last.as_str());
        let start_mark = chars_of("[START]");
        let end_mark = chars_of("[END]");
        let mut output: Vec<String> = Vec::new();
        let mut i: usize = 0;
        while i < ls.len()
            invariant
                i <= ls.len(),
                lv == views(ls@),
                start_mark@ == "[START]"@,
                end_mark@ == "[END]"@,
                string_views(output@) == output_lines(lv.take(i as int)),
            decreases ls.len() - i,
        {
            proof {
                lemma_keep_some_step(
                    lv,
                    |l: Seq<char>| if is_output_line(l) { Some(l) } else { None },
                    i as int,
                );
            }
            assert(lv[i as int] == ls@[i as int]@);
            if !starts_with_chars(&ls[i], &start_mark) && !starts_with_chars(&ls[i], &end_mark) {
                let ghost before = string_views(output@);
                let line = string_of(&ls[i]);
                output.push(line);
                assert(string_views(output@) =~= before.push(line@));
            }
            i += 1;
        }
        assert(lv.take(i as int) =~= lv);
        Ok(
            ExecutionDetails {
                invocation_id: string_of(&chars_of(timestamp)),
                start_time,
                end_time,
                duration_secs,
                status,
                exit_code,
                trigger: TriggerType::Scheduled,
                output,
            },
        )
    }

    /// The run that the log file `filename` records, given its last line.
    pub fn history_from_last_line(&self, filename: &str, last_line: &str) -> (r: ExecutionHistory)
        ensures
            r@ == file_history(strip_all(filename@, ".log"@), trim(last_line@)),
    {
        let line = string_of(&trim_chars(&chars_of(last_line)));
        let timestamp = string_of(
            &crate::schedule::strip_all_chars(&chars_of(filename), &chars_of(".log")),
        );
        let start_time = Self::filename_to_datetime(timestamp.as_str());
        let (end_time, exit_code, duration_secs, status) = self.parse_end_line(line.as_str());
        ExecutionHistory {
            invocation_id: timestamp,
            start_time,
            end_time,
            duration_secs,
            status,
            exit_code,
            trigger: TriggerType::Scheduled,
        }
    }

    fn log_dir(service_name: &str) -> (r: Vec<char>)
        ensures
            r@ == log_dir_of(service_name@),
    {
        let base = crate::schedule::strip_all_chars(&chars_of(service_name), &chars_of(".service"));
        let mut dir = chars_of("/var/log/timers/");
        push_all(&mut dir, &base);
        dir
    }

    /// Reads the last line of one log file and the run it records.
    fn parse_log_file(&self, log_path: &str, filename: &str) -> (r: Result<ExecutionHistory, TimerError>)
        ensures
            exists|o: Result<CommandOutput, ServiceError>|
                #[trigger] self.executor().answers("tail"@, tail_args(log_path@), o) && match o {
                    Ok(t) => r matches Ok(h) && h@ == file_history(
                        strip_all(filename@, ".log"@),
                        trim(t.stdout@),
                    ),
                    Err(_) => r is Err,
                },
    {
        let args: Vec<&str> = vec!["-n", "1", log_path];
        assert(arg_views(args@) =~= tail_args(log_path@));
        let o = self.executor.execute("tail", args.as_slice());
        assert(self.executor() == self.executor);
        let out = match o {
            Ok(x) => x,
            Err(e) => return Err(timer_error_from(e)),
        };
        Ok(self.history_from_last_line(filename, out.stdout.as_str()))
    }

    /// The runs recorded by the newest `limit` log files of a service, in
    /// the order of the listing; none where its directory cannot be listed.
    /// A file whose last line cannot be read is left out.
    pub fn get_execution_history(&self, service_name: &str, limit: usize) -> (r: Result<
        Vec<ExecutionHistory>,
        TimerError,
    >)
        ensures
            !crate::timers::timer_name_ok(service_name@) ==> r matches Err(TimerError::InvalidInput(_)),
            crate::timers::timer_name_ok(service_name@) ==> exists|o: Result<CommandOutput, ServiceError>|
                #[trigger] self.executor().answers("ls"@, ls_args(service_name@), o)
                    && match o {
                    Err(e) => r matches Err(te) && timer_error_of(e, te),
                    Ok(out) => if out.exit_code != 0 {
                        r matches Ok(v) && v.len() == 0
                    } else {
                        r matches Ok(v) && exists|outs: Seq<Result<CommandOutput, ServiceError>>|
                            #[trigger] tails_answered(
                                self.executor(),
                                log_dir_of(service_name@),
                                listed_logs(out.stdout@, limit as nat),
                                outs,
                            ) && v@.map_values(|h: ExecutionHistory| h@) == file_runs(
                                listed_logs(out.stdout@, limit as nat),
                                outs,
                            )
                    },
                },
    {
        if let Err(e) = SystemctlClient::<E>::validate_timer_name(service_name) {
            return Err(e);
        }
        let dir = string_of(&Self::log_dir(service_name));
        let args: Vec<&str> = vec!["-1t", dir.as_str()];
        assert(arg_views(args@) =~= ls_args(service_name@));
        let o = self.executor.execute("ls", args.as_slice());
        assert(self.executor() == self.executor);
        let output = match o {
            Ok(x) => x,
            Err(e) => return Err(timer_error_from(e)),
        };
        if output.exit_code != 0 {
            return Ok(Vec::new());
        }
        let files = select_log_files(output.stdout.as_str(), limit);
        let ghost fv = views(files@);
        let ghost dv = log_dir_of(service_name@);
        let ghost mut outs: Seq<Result<CommandOutput, ServiceError>> = seq![];
        let mut history: Vec<ExecutionHistory> = Vec::new();
        let mut j: usize = 0;
        while j < files.len()
            invariant
                j <= files.len(),
                fv == views(files@),
                dir@ == dv,
                tails_answered(self.executor(), dv, fv.take(j as int), outs),
                history@.map_values(|h: ExecutionHistory| h@) == file_runs(fv.take(j as int), outs),
            decreases files.len() - j,
        {
            let f = &files[j];
            assert(fv[j as int] == f@);
            let mut path = chars_of(dir.as_str());
            push_str(&mut path, "/");
            push_all(&mut path, f);
            let path = string_of(&path);
            let name = string_of(f);
            let pr = self.parse_log_file(path.as_str(), name.as_str());
            let ghost o = choose|o: Result<CommandOutput, ServiceError>|
                #[trigger] self.executor().answers("tail"@, tail_args(path@), o) && match o {
                    Ok(t) => pr matches Ok(h) && h@ == file_history(
                        strip_all(name@, ".log"@),
                        trim(t.stdout@),
                    ),
                    Err(_) => pr is Err,
                };
            let ghost before = history@.map_values(|h: ExecutionHistory| h@);
            let ghost old_outs = outs;
            proof {
                outs = outs.push(o);
                assert(fv.take(j + 1).drop_last() =~= fv.take(j as int));
                assert(outs.drop_last() =~= old_outs);
                assert(path@ == dv + "/"@ + fv.take(j + 1)[j as int]);
                assert forall|i: int| 0 <= i < fv.take(j + 1).len() implies #[trigger] self.executor().answers(
                    "tail"@,
                    tail_args(dv + "/"@ + fv.take(j + 1)[i]),
                    outs[i],
                ) by {
                    if i < j {
                        assert(fv.take(j + 1)[i] == fv.take(j as int)[i]);
                        assert(outs[i] == old_outs[i]);
                    }
                }
            }
            match pr {
                Ok(entry) => {
                    history.push(entry);
                    assert(history@.map_values(|h: ExecutionHistory| h@) =~= before.push(entry@));
                },
                Err(_) => {},
            }
            j += 1;
        }
        assert(fv.take(files.len() as int) =~= fv);
        Ok(history)
    }

    /// The run recorded by one log file, with its output lines; both the
    /// service name and the timestamp are checked before the file is read.
    pub fn get_execution_details(&self, service_name: &str, timestamp: &str) -> (r: Result<
        ExecutionDetails,
        TimerError,
    >)
        ensures
            !crate::timers::timer_name_ok(service_name@) ==> r matches Err(TimerError::InvalidInput(_)),
            !log_stamp_ok(timestamp@) ==> r matches Err(TimerError::InvalidInput(_)),
            crate::timers::timer_name_ok(service_name@) && log_stamp_ok(timestamp@) ==> exists|
                o: Result<CommandOutput, ServiceError>,
            |
                #[trigger] self.executor().answers(
                    "cat"@,
                    cat_args(service_name@, timestamp@),
                    o,
                ) && match o {
                    Err(e) => r matches Err(te) && timer_error_of(e, te),
                    Ok(out) => if out.exit_code != 0 {
                        r matches Err(e) && e is NotFound
                    } else {
                        file_details(r, out.stdout@, timestamp@)
                    },
                },
    {
        if let Err(e) = SystemctlClient::<E>::validate_timer_name(service_name) {
            return Err(e);
        }
        if !log_stamp_exec(timestamp) {
            return Err(TimerError::InvalidInput(string_of(&chars_of("Invalid log timestamp"))));
        }
        let mut path = Self::log_dir(service_name);
        push_str(&mut path, "/");
        push_str(&mut path, timestamp);
        push_str(&mut path, ".log");
        let path = string_of(&path);
        let args: Vec<&str> = vec![path.as_str()];
        assert(arg_views(args@) =~= cat_args(service_name@, timestamp@));
        let o = self.executor.execute("cat", args.as_slice());
        assert(self.executor() == self.executor);
        let output = match o {
            Ok(x) => x,
            Err(e) => return Err(timer_error_from(e)),
        };
        if output.exit_code != 0 {
            let mut m = chars_of("Log file not found: ");
            push_str(&mut m, path.as_str());
            return Err(TimerError::NotFound(string_of(&m)));
        }
        self.parse_log_file_details(output.stdout.as_str(), timestamp)
    }

    /// The word after the first `key` in `line`, where `key` occurs.
    pub fn extract_value(line: &str, key: &str) -> (r: Option<String>)
        ensures
            opt_str(r) == value_after_key(line@, key@),
    {
        let l = chars_of(line);
        let k = chars_of(key);
        match first_index_of(&l, &k) {
            None => None,
            Some(pos) => {
                let ll = l.len();
                assert(pos + k@.len() <= ll);
                let rest = slice_chars(&l, pos + k.len(), ll);
                assert(rest@ =~= line@.skip(first_index(line@, key@) + key@.len()));
                let w = split_words(&rest);
                if w.len() > 0 {
                    assert(views(w@)[0] == w@[0]@);
                    Some(string_of(&w[0]))
                } else {
                    Some(String::new())
                }
            },
        }
    }

    /// The start of a run from its log file's name.
    pub fn filename_to_datetime(timestamp: &str) -> (r: String)
        ensures
            r@ == datetime_of_name(timestamp@),
    {
        let t = chars_of(timestamp);
        if t.len() >= 17 {
            let mut v = slice_chars(&t, 0, 10);
            push_str(&mut v, " ");
            push_all(&mut v, &slice_chars(&t, 11, 13));
            push_str(&mut v, ":");
            push_all(&mut v, &slice_chars(&t, 13, 15));
            push_str(&mut v, ":");
            push_all(&mut v, &slice_chars(&t, 15, 17));
            string_of(&v)
        } else {
            string_of(&t)
        }
    }

    /// What an `[END]` line tells; see `end_line_of`.
    pub fn parse_end_line(&self, line: &str) -> (r: (Option<String>, Option<i32>, Option<u64>, ExecutionStatus))
        ensures
            (opt_str(r.0), r.1, r.2, r.3) == end_line_of(line@),
    {
        let l = chars_of(line);
        if !starts_with_chars(&l, &chars_of("[END]")) {
            return (None, None, None, ExecutionStatus::Running);
        }
        let exit_code: Option<i32> = match Self::extract_value(line, "exit_code=") {
            Some(v) => match parse_signed(&chars_of(v.as_str()), i32::MIN as i64, i32::MAX as i64) {
                Some(c) => Some(c as i32),
                None => None,
            },
            None => None,
        };
        let duration_secs: Option<u64> = match Self::extract_value(line, "duration=") {
            Some(v) => {
                let d = crate::schedule::strip_all_chars(&chars_of(v.as_str()), &chars_of("s"));
                parse_u64(&d)
            },
            None => None,
        };
        let end_time: Option<Vec<char>> = if starts_with_chars(&l, &chars_of("[END] ")) {
            proof {
                reveal_strlit("[END] ");
            }
            let rest = slice_chars(&l, 6, l.len());
            assert(rest@ =~= line@.skip(6));
            let mut w = split_words(&rest);
            if w.len() > 0 {
                assert(views(w@)[0] == w@[0]@);
                Some(w.remove(0))
            } else {
                None
            }
        } else {
            None
        };
        let status = match exit_code {
            Some(c) => if c == 0 {
                ExecutionStatus::Success
            } else {
                ExecutionStatus::Failed
            },
            None => ExecutionStatus::Success,
        };
        (opt_string(end_time), exit_code, duration_secs, status)
    }
}

} // verus!
