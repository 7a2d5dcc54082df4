//! Failures of external commands, and how they are reported.

use vstd::prelude::*;
use crate::strings::{
    strings_view,
    chars_of, push_chars, push_str, signed_decimal, signed_decimal_chars, string_of, trim, trim_chars,
};

verus! {

/// Error returned when a command fails.
#[derive(Debug)]
pub enum CommandError {
    /// The command could not be spawned (e.g. binary not found); the I/O
    /// error text.
    Io { message: String },
    /// The command ran but exited with a non-zero code.
    ///
    /// `argv` is a pre-formatted representation of the program and
    /// arguments, including a trailing space when non-empty (so the
    /// message reads naturally).
    NonZero { argv: String, code: Option<i32>, stderr: Option<String> },
}

/// `a b c` (items joined by single spaces).
pub open spec fn space_joined(items: Seq<Seq<char>>) -> Seq<char>
    decreases items.len(),
{
    if items.len() == 0 {
        Seq::empty()
    } else if items.len() == 1 {
        items[0]
    } else {
        space_joined(items.drop_last()) + seq![' '] + items.last()
    }
}

/// `` `prog args...` `` followed by a space.
pub open spec fn argv_text(program: Seq<char>, args: Seq<Seq<char>>) -> Seq<char> {
    if args.len() == 0 {
        seq!['`'] + program + seq!['`', ' ']
    } else {
        seq!['`'] + program + seq![' '] + space_joined(args) + seq!['`', ' ']
    }
}

/// Build a backtick-quoted, space-joined representation of a command's
/// program and arguments, with a trailing space.
///
/// e.g. `` `lxc start my-instance` `` (note trailing space).
pub fn argv_string(program: &str, args: &Vec<String>) -> (r: String)
    ensures
        r@ == argv_text(program@, crate::strings::strings_view(args@)),
{
    let ghost a = crate::strings::strings_view(args@);
    let mut v = Vec::new();
    v.push('`');
    push_str(&mut v, program);
    if args.len() > 0 {
        v.push(' ');
        let ghost start = v@;
        let mut i: usize = 0;
        while i < args.len()
            invariant
                i <= args@.len(),
                a == crate::strings::strings_view(args@),
                args@.len() > 0,
                i == 0 ==> v@ == start,
                i > 0 ==> v@ == start + space_joined(a.take(i as int)),
            decreases args@.len() - i,
        {
            let ghost t = a.take(i + 1);
            assert(t.drop_last() =~= a.take(i as int));
            assert(t.last() == args@[i as int]@);
            if i > 0 {
                v.push(' ');
            } else {
                assert(t =~= seq![args@[0]@]);
            }
            push_str(&mut v, args[i].as_str());
            i = i + 1;
        }
        assert(a.take(args@.len() as int) =~= a);
    }
    v.push('`');
    v.push(' ');
    string_of(&v)
}

/// Standard error worth reporting: trimmed, `None` when nothing is left.
pub open spec fn reported_stderr(stderr: Seq<char>) -> Option<Seq<char>> {
    if trim(stderr).len() == 0 {
        None
    } else {
        Some(trim(stderr))
    }
}

/// Extract non-empty, trimmed standard error (already decoded as text).
pub fn extract_stderr(stderr: &str) -> (r: Option<String>)
    ensures
        match r {
            Some(s) => reported_stderr(stderr@) == Some(s@),
            None => reported_stderr(stderr@) is None,
        },
{
    let t = trim_chars(&chars_of(stderr));
    if t.len() == 0 {
        None
    } else {
        Some(string_of(&t))
    }
}

/// How `{:?}` prints an optional exit code.
pub open spec fn code_text(code: Option<i32>) -> Seq<char> {
    match code {
        Some(c) => "Some("@ + signed_decimal(c as int) + ")"@,
        None => "None"@,
    }
}

/// The text of a command error (see [`CommandError::message`]).
pub open spec fn error_text(e: CommandError) -> Seq<char> {
    match e {
        CommandError::Io { message } => "failed to spawn command: "@ + message@,
        CommandError::NonZero { argv, code, stderr } => "command "@ + argv@ + "exited with code "@ + code_text(code)
            + match stderr {
            Some(s) => "\nstderr: "@ + s@,
            None => Seq::<char>::empty(),
        },
    }
}

impl CommandError {
    /// The error text: `failed to spawn command: <io error>`, or
    /// `command <argv>exited with code <code>` followed by the standard
    /// error on a new line when there is one.
    pub fn message(&self) -> (r: String)
        ensures
            r@ == error_text(*self),
            match self {
                CommandError::Io { message } => r@ == "failed to spawn command: "@ + message@,
                CommandError::NonZero { argv, code, stderr } => r@ == "command "@ + argv@
                    + "exited with code "@ + code_text(*code) + match stderr {
                    Some(s) => "\nstderr: "@ + s@,
                    None => Seq::<char>::empty(),
                },
            },
    {
        let mut v = Vec::new();
        match self {
            CommandError::Io { message } => {
                push_str(&mut v, "failed to spawn command: ");
                push_str(&mut v, message.as_str());
            },
            CommandError::NonZero { argv, code, stderr } => {
                push_str(&mut v, "command ");
                push_str(&mut v, argv.as_str());
                push_str(&mut v, "exited with code ");
                match code {
                    Some(c) => {
                        push_str(&mut v, "Some(");
                        let d = signed_decimal_chars(*c as i64);
                        push_chars(&mut v, &d);
                        push_str(&mut v, ")");
                    },
                    None => push_str(&mut v, "None"),
                }
                match stderr {
                    Some(s) => {
                        push_str(&mut v, "\nstderr: ");
                        push_str(&mut v, s.as_str());
                    },
                    None => {
                        assert(v@ + Seq::<char>::empty() =~= v@);
                    },
                }
            },
        }
        string_of(&v)
    }
}

/// Captured standard output as returned by `run_stdout`: trimmed.
pub fn stdout_text(stdout: &str) -> (r: String)
    ensures
        r@ == trim(stdout@),
{
    let t = trim_chars(&chars_of(stdout));
    string_of(&t)
}

/// Runs a command line to completion: work outside the library.
pub trait CommandRunner {
    /// Run `argv` (program first); `Ok` when it exited with status 0.
    fn run(&mut self, argv: &Vec<String>) -> Result<(), CommandError>;

    /// Run `argv` and return what it printed, trimmed (see
    /// [`stdout_text`]).
    fn run_stdout(&mut self, argv: &Vec<String>) -> Result<String, CommandError>;
}

/// A command line handed to a runner (as text), and what it answered.
pub enum Ran {
    /// Through [`CommandRunner::run`].
    Run(Seq<Seq<char>>, Result<(), CommandError>),
    /// Through [`CommandRunner::run_stdout`].
    Stdout(Seq<Seq<char>>, Result<String, CommandError>),
}

/// A runner together with the record of every command line it was handed
/// through this wrapper, in order, with its answer.
pub struct Logged<R> {
    pub runner: R,
    log: Ghost<Seq<Ran>>,
}

impl<R: CommandRunner> Logged<R> {
    /// Start recording `runner`, with nothing recorded yet.
    pub fn new(runner: R) -> (r: Self)
        ensures
            r.inner() == runner,
            r.history() == Seq::<Ran>::empty(),
    {
        Logged { runner, log: Ghost(Seq::empty()) }
    }

    /// The wrapped runner.
    pub closed spec fn inner(&self) -> R {
        self.runner
    }

    /// What the runner was handed so far, oldest first.
    pub closed spec fn history(&self) -> Seq<Ran> {
        self.log@
    }

    /// Run `argv` through the runner and record it with its answer.
    pub fn run(&mut self, argv: &Vec<String>) -> (r: Result<(), CommandError>)
        ensures
            final(self).history() == old(self).history().push(Ran::Run(strings_view(argv@), r)),
    {
        let r = self.runner.run(argv);
        self.log = Ghost(self.log@.push(Ran::Run(strings_view(argv@), r)));
        r
    }

    /// Run `argv` through the runner, capturing its output, and record it
    /// with its answer.
    pub fn run_stdout(&mut self, argv: &Vec<String>) -> (r: Result<String, CommandError>)
        ensures
            final(self).history() == old(self).history().push(Ran::Stdout(strings_view(argv@), r)),
    {
        let r = self.runner.run_stdout(argv);
        self.log = Ghost(self.log@.push(Ran::Stdout(strings_view(argv@), r)));
        r
    }
}

/// `new` starts with `old` and goes on with `added`.
pub open spec fn extends(old: Seq<Ran>, new: Seq<Ran>, added: Seq<Ran>) -> bool {
    new == old + added
}

/// What was handed to a runner after `old`, given that `new` starts with
/// `old`.
pub open spec fn added_since(old: Seq<Ran>, new: Seq<Ran>) -> Seq<Ran> {
    new.skip(old.len() as int)
}

/// `recs` is running `cmds` one after another through `run`, stopping at
/// the first failure: `r` is that failure's error, else `Ok`.
pub open spec fn ran_in_order(cmds: Seq<Seq<Seq<char>>>, recs: Seq<Ran>, r: Result<(), CommandError>) -> bool
    decreases cmds.len(),
{
    if cmds.len() == 0 {
        recs.len() == 0 && r is Ok
    } else {
        &&& recs.len() >= 1
        &&& match recs[0] {
            Ran::Run(a, res) => a == cmds[0] && match res {
                Ok(_) => ran_in_order(cmds.drop_first(), recs.drop_first(), r),
                Err(e) => recs.len() == 1 && r == Err::<(), CommandError>(e),
            },
            Ran::Stdout(..) => false,
        }
    }
}

/// One command run on its own.
pub proof fn lemma_ran_single(c: Seq<Seq<char>>, res: Result<(), CommandError>)
    ensures
        ran_in_order(seq![c], seq![Ran::Run(c, res)], res),
{
    assert(seq![c].drop_first() =~= Seq::<Seq<Seq<char>>>::empty());
    assert(seq![Ran::Run(c, res)].drop_first() =~= Seq::<Ran>::empty());
    if res is Ok {
        assert(ran_in_order(seq![c].drop_first(), seq![Ran::Run(c, res)].drop_first(), res));
    }
}

/// A run of `c1` that succeeded followed by a run of `c2` is a run of
/// both.
pub proof fn lemma_ran_append(
    c1: Seq<Seq<Seq<char>>>,
    recs1: Seq<Ran>,
    r1: Result<(), CommandError>,
    c2: Seq<Seq<Seq<char>>>,
    recs2: Seq<Ran>,
    r: Result<(), CommandError>,
)
    requires
        ran_in_order(c1, recs1, r1),
        r1 is Ok,
        ran_in_order(c2, recs2, r),
    ensures
        ran_in_order(c1 + c2, recs1 + recs2, r),
    decreases c1.len(),
{
    if c1.len() == 0 {
        assert(c1 + c2 =~= c2);
        assert(recs1 + recs2 =~= recs2);
    } else {
        lemma_ran_append(c1.drop_first(), recs1.drop_first(), r1, c2, recs2, r);
        assert((c1 + c2).drop_first() =~= c1.drop_first() + c2);
        assert((recs1 + recs2).drop_first() =~= recs1.drop_first() + recs2);
        assert((c1 + c2)[0] == c1[0]);
        assert((recs1 + recs2)[0] == recs1[0]);
    }
}

/// A run of `c1` that stopped at a failure is also a run of `c1` followed
/// by anything.
pub proof fn lemma_ran_stopped(c1: Seq<Seq<Seq<char>>>, recs: Seq<Ran>, c2: Seq<Seq<Seq<char>>>, e: CommandError)
    requires
        ran_in_order(c1, recs, Err::<(), CommandError>(e)),
    ensures
        ran_in_order(c1 + c2, recs, Err::<(), CommandError>(e)),
    decreases c1.len(),
{
    if c1.len() > 0 {
        assert((c1 + c2)[0] == c1[0]);
        assert((c1 + c2).drop_first() =~= c1.drop_first() + c2);
        if recs[0] matches Ran::Run(_, Ok(_)) {
            lemma_ran_stopped(c1.drop_first(), recs.drop_first(), c2, e);
        }
    }
}


/// The exit code to report for a command that ran with the terminal
/// attached: its own, or 1 when it had none (it was killed by a signal).
pub fn exit_code(code: Option<i32>) -> (r: i32)
    ensures
        r == match code {
            Some(c) => c,
            None => 1,
        },
{
    match code {
        Some(c) => c,
        None => 1,
    }
}

} // verus!
