//! Running the control plane's programs: the outcome of one run, the
//! interface that runs them, and a scripted stand-in for tests.
use vstd::prelude::*;
use crate::error::ServiceError;
use crate::text::{chars_of, string_of, push_str, chars_eq};

verus! {

/// What one run of an external program gave back.
#[derive(Debug, Clone)]
pub struct CommandOutput {
    pub exit_code: i32,
    pub stdout: String,
    pub stderr: String,
}

/// The views of an argument vector.
pub open spec fn arg_views(args: Seq<&str>) -> Seq<Seq<char>> {
    args.map_values(|a: &str| a@)
}

/// Runs a program with a discrete argument vector; never through a shell.
pub trait CommandExecutor {
    /// `r` is an answer that this executor may give to the program `cmd`
    /// run with the arguments `args`. An executor that runs real processes
    /// can give any answer; one that answers from a script says which.
    open spec fn answers(&self, cmd: Seq<char>, args: Seq<Seq<char>>, r: Result<CommandOutput, ServiceError>) -> bool {
        true
    }

    fn execute(&self, cmd: &str, args: &[&str]) -> (r: Result<CommandOutput, ServiceError>)
        ensures
            self.answers(cmd@, arg_views(args@), r),
    ;
}

/// Settings of the executor that spawns real processes: how long a run may
/// take before it is abandoned.
pub struct SystemCommandExecutor {
    pub timeout_secs: u64,
}

impl SystemCommandExecutor {
    /// An executor with the default timeout of ten seconds.
    pub fn new() -> (r: Self)
        ensures
            r.timeout_secs == 10,
    {
        SystemCommandExecutor { timeout_secs: 10 }
    }

    pub fn with_timeout(timeout_secs: u64) -> (r: Self)
        ensures
            r.timeout_secs == timeout_secs,
    {
        SystemCommandExecutor { timeout_secs }
    }
}

/// The key under which a scripted answer is kept: the program, a space, and
/// the arguments joined by spaces.
pub open spec fn command_key(cmd: Seq<char>, args: Seq<Seq<char>>) -> Seq<char>
    decreases args.len(),
{
    if args.len() == 0 {
        cmd + " "@
    } else if args.len() == 1 {
        cmd + " "@ + args[0]
    } else {
        command_key(cmd, args.drop_last()) + " "@ + args.last()
    }
}

pub fn make_key(cmd: &str, args: &[&str]) -> (r: Vec<char>)
    ensures
        r@ == command_key(cmd@, arg_views(args@)),
{
    let mut r = chars_of(cmd);
    push_str(&mut r, " ");
    let mut i: usize = 0;
    assert(arg_views(args@.take(0)) =~= Seq::<Seq<char>>::empty());
    while i < args.len()
        invariant
            i <= args.len(),
            r@ == command_key(cmd@, arg_views(args@.take(i as int))),
        decreases args.len() - i,
    {
        if i > 0 {
            push_str(&mut r, " ");
        }
        push_str(&mut r, args[i]);
        assert(arg_views(args@.take(i + 1)).drop_last() =~= arg_views(args@.take(i as int)));
        assert(arg_views(args@.take(i + 1)).last() == args@[i as int]@);
        i += 1;
    }
    assert(args@.take(args@.len() as int) =~= args@);
    r
}

/// The answer recorded last under `key`.
pub open spec fn latest_answer(t: Seq<(Seq<char>, CommandOutput)>, key: Seq<char>) -> Option<
    CommandOutput,
>
    decreases t.len(),
{
    if t.len() == 0 {
        None
    } else if t.last().0 == key {
        Some(t.last().1)
    } else {
        latest_answer(t.drop_last(), key)
    }
}

/// Whether `a` holds what `b` holds.
pub open spec fn same_output(a: CommandOutput, b: CommandOutput) -> bool {
    a.exit_code == b.exit_code && a.stdout@ == b.stdout@ && a.stderr@ == b.stderr@
}

/// Answers from a fixed table instead of running anything.
pub struct MockCommandExecutor {
    responses: Vec<(String, CommandOutput)>,
}

impl MockCommandExecutor {
    pub closed spec fn table(&self) -> Seq<(Seq<char>, CommandOutput)> {
        self.responses@.map_values(|e: (String, CommandOutput)| (e.0@, e.1))
    }

    /// The answer to the command with key `key`: the output recorded last
    /// under it.
    pub open spec fn answer_for(&self, key: Seq<char>) -> Option<CommandOutput> {
        latest_answer(self.table(), key)
    }

    pub fn new() -> (r: Self)
        ensures
            forall|k: Seq<char>| r.answer_for(k) is None,
    {
        let r = MockCommandExecutor { responses: Vec::new() };
        assert(r.table() =~= Seq::<(Seq<char>, CommandOutput)>::empty());
        r
    }

    /// Adds the answer for one program and argument vector; it replaces an
    /// earlier answer for the same command and leaves the others alone.
    pub fn with_response(self, cmd: &str, args: &[&str], output: CommandOutput) -> (r: Self)
        ensures
            r.answer_for(command_key(cmd@, arg_views(args@))) == Some(output),
            forall|k: Seq<char>|
                k != command_key(cmd@, arg_views(args@)) ==> r.answer_for(k) == self.answer_for(k),
    {
        let mut responses = self.responses;
        let key = string_of(&make_key(cmd, args));
        responses.push((key, output));
        let r = MockCommandExecutor { responses };
        assert(r.table() =~= self.table().push((command_key(cmd@, arg_views(args@)), output)));
        assert(r.table().drop_last() =~= self.table());
        r
    }

    /// Adds a successful answer that prints `stdout`.
    pub fn with_stdout(self, cmd: &str, args: &[&str], stdout: &str) -> (r: Self)
        ensures
            r.answer_for(command_key(cmd@, arg_views(args@))) matches Some(o) && o.exit_code == 0
                && o.stdout@ == stdout@ && o.stderr@.len() == 0,
            forall|k: Seq<char>|
                k != command_key(cmd@, arg_views(args@)) ==> r.answer_for(k) == self.answer_for(k),
    {
        let out = CommandOutput {
            exit_code: 0,
            stdout: string_of(&chars_of(stdout)),
            stderr: String::new(),
        };
        self.with_response(cmd, args, out)
    }

    /// Adds a failing answer with the given status and error text.
    pub fn with_error(self, cmd: &str, args: &[&str], exit_code: i32, stderr: &str) -> (r: Self)
        ensures
            r.answer_for(command_key(cmd@, arg_views(args@))) matches Some(o) && o.exit_code
                == exit_code && o.stdout@.len() == 0 && o.stderr@ == stderr@,
            forall|k: Seq<char>|
                k != command_key(cmd@, arg_views(args@)) ==> r.answer_for(k) == self.answer_for(k),
    {
        let out = CommandOutput {
            exit_code,
            stdout: String::new(),
            stderr: string_of(&chars_of(stderr)),
        };
        self.with_response(cmd, args, out)
    }

    /// The answer recorded last under `key`, if any.
    pub fn lookup(&self, key: &Vec<char>) -> (r: Option<&CommandOutput>)
        ensures
            match r {
                Some(o) => self.answer_for(key@) == Some(*o),
                None => self.answer_for(key@) is None,
            },
    {
        let ghost t = self.table();
        let mut i = self.responses.len();
        assert(t.take(i as int) =~= t);
        while i > 0
            invariant
                i <= self.responses.len(),
                t == self.table(),
                latest_answer(t, key@) == latest_answer(t.take(i as int), key@),
            decreases i,
        {
            let k = chars_of(self.responses[i - 1].0.as_str());
            assert(t.take(i as int).last() == (k@, self.responses@[i - 1].1));
            assert(t.take(i as int).drop_last() =~= t.take(i - 1));
            if chars_eq(&k, key) {
                return Some(&self.responses[i - 1].1);
            }
            i -= 1;
        }
        None
    }

    /// The answer recorded last for the command, or `Other` where none is.
    pub fn answer(&self, cmd: &str, args: &[&str]) -> (r: Result<CommandOutput, ServiceError>)
        ensures
            self.answers(cmd@, arg_views(args@), r),
    {
        let key = make_key(cmd, args);
        match self.lookup(&key) {
            Some(o) => Ok(
                CommandOutput {
                    exit_code: o.exit_code,
                    stdout: string_of(&chars_of(o.stdout.as_str())),
                    stderr: string_of(&chars_of(o.stderr.as_str())),
                },
            ),
            None => {
                let mut msg = chars_of("No mock response for command: ");
                crate::text::push_all(&mut msg, &key);
                Err(ServiceError::Other(string_of(&msg)))
            },
        }
    }
}

impl CommandExecutor for MockCommandExecutor {
    /// The output recorded last for the command, or `Other` where none is.
    open spec fn answers(&self, cmd: Seq<char>, args: Seq<Seq<char>>, r: Result<CommandOutput, ServiceError>) -> bool {
        match self.answer_for(command_key(cmd, args)) {
            Some(o) => r matches Ok(x) && same_output(x, o),
            None => r matches Err(e) && e is Other,
        }
    }

    fn execute(&self, cmd: &str, args: &[&str]) -> (r: Result<CommandOutput, ServiceError>) {
        self.answer(cmd, args)
    }
}

} // verus!
