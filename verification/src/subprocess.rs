//! Launching subprocesses: what to launch, and what to make of how it went.
//!
//! A child gets an environment built from nothing, an empty standard input,
//! and a standard output that is inherited or captured. Launching and
//! waiting are the driver's part.

use crate::err::{
    check_child_status, diagnostic, is_cause_text, map_io_err, ChildStatus, HLError,
};
use crate::pids::{
    all_pid_numerals, list_text, numeral_values, parse_pid_output, words,
};
use crate::signals::signal_name_of;
use crate::text::{join_words, push_joined, str_views, string_views};
use libc::pid_t;
use nix::sys::signal::SigSet;
use std::io;
use vstd::prelude::*;
use vstd::string::*;
use vstd::utf8::{decode_utf8, valid_utf8};

verus! {

/// What every child is launched with.
pub struct ChildEnv {
    /// The environment variables of the child, all of them.
    pub env: Vec<(String, String)>,
    /// The signal mask from before the supervisor blocked its signals.
    pub mask: SigSet,
    /// Whether each command line is shown before it is run.
    pub verbose: bool,
    /// Whether a stand-in that does nothing is run in place of each
    /// command.
    pub dryrun: bool,
}

impl ChildEnv {
    /// Whether work is shown before it is done: in a verbose run, and in
    /// every dry run, which does nothing but show.
    pub open spec fn shows_work(self) -> bool {
        self.verbose || self.dryrun
    }
}

/// Where the standard output of a child goes.
#[derive(Clone, Copy, Debug, PartialEq, Eq, Structural)]
pub enum Stdout {
    /// To the standard output of the supervisor.
    Inherit,
    /// To the supervisor, which reads all of it.
    Piped,
}

/// Where the standard input of a child comes from.
#[derive(Clone, Copy, Debug, PartialEq, Eq, Structural)]
pub enum Stdin {
    /// From nowhere: the child finds its input at its end.
    Null,
}

/// A subprocess to launch.
#[derive(Debug)]
pub struct Launch {
    /// The program to run.
    pub program: String,
    /// Where its standard input comes from: it is always empty, so that no
    /// child reads what is meant for the supervisor.
    pub stdin: Stdin,
    /// Its arguments, without the program's name.
    pub args: Vec<String>,
    /// Its environment, all of it.
    pub env: Vec<(String, String)>,
    /// Where its standard output goes.
    pub stdout: Stdout,
    /// The line to show before the launch, if any.
    pub echo: Option<String>,
}

/// The view of an optional string.
pub open spec fn option_view(text: Option<String>) -> Option<Seq<char>> {
    match text {
        Some(t) => Some(t@),
        None => None,
    }
}

fn copy_env(env: &Vec<(String, String)>) -> (r: Vec<(String, String)>)
    ensures
        r@ == env@,
{
    let mut out: Vec<(String, String)> = Vec::new();
    let mut i: usize = 0;
    while i < env.len()
        invariant
            0 <= i <= env.len(),
            out@ == env@.take(i as int),
        decreases env.len() - i,
    {
        out.push((env[i].0.clone(), env[i].1.clone()));
        assert(out@ =~= env@.take(i as int + 1));
        i += 1;
    }
    assert(env@.take(i as int) =~= env@);
    out
}

/// The launch of the command `argv` under `env`, with its output going to
/// `stdout`. In a dry run the program `true` stands in for the command's
/// own, with the same arguments. The line that is shown, in a verbose run
/// and in every dry run, is the real command's. The environment is that of
/// `env` and nothing else.
pub fn internal_spawn(argv: &[&str], env: &ChildEnv, stdout: Stdout) -> (r: Launch)
    requires
        argv@.len() > 0,
    ensures
        r.program@ == (if env.dryrun {
            "true"@
        } else {
            argv@[0]@
        }),
        string_views(r.args@) == str_views(argv@).skip(1),
        r.env@ == env.env@,
        r.stdin == Stdin::Null,
        r.stdout == stdout,
        option_view(r.echo) == (if env.shows_work() {
            Some(join_words(str_views(argv@)))
        } else {
            None
        }),
{
    let echo = if env.verbose || env.dryrun {
        let mut line = String::new();
        push_joined(&mut line, argv);
        Some(line)
    } else {
        None
    };
    let program = if env.dryrun {
        String::from_str("true")
    } else {
        String::from_str(argv[0])
    };
    let mut args: Vec<String> = Vec::new();
    let mut i: usize = 1;
    while i < argv.len()
        invariant
            1 <= i <= argv.len(),
            args@.len() == i - 1,
            string_views(args@) == str_views(argv@).subrange(1, i as int),
        decreases argv.len() - i,
    {
        let ghost before = args@;
        args.push(String::from_str(argv[i]));
        assert forall|j: int| 0 <= j < args@.len() implies string_views(args@)[j] == str_views(
            argv@,
        ).subrange(1, i as int + 1)[j] by {
            if j < before.len() {
                assert(string_views(before)[j] == str_views(argv@).subrange(1, i as int)[j]);
            }
        }
        assert(string_views(args@) =~= str_views(argv@).subrange(1, i as int + 1));
        i += 1;
    }
    assert(str_views(argv@).subrange(1, i as int) =~= str_views(argv@).skip(1));
    Launch { program, stdin: Stdin::Null, args, env: copy_env(&env.env), stdout, echo }
}

/// The launch of the command `argv` under `env`, with the supervisor's own
/// standard output.
pub fn spawn(argv: &[&str], env: &ChildEnv) -> (r: Launch)
    requires
        argv@.len() > 0,
    ensures
        r.program@ == (if env.dryrun {
            "true"@
        } else {
            argv@[0]@
        }),
        string_views(r.args@) == str_views(argv@).skip(1),
        r.env@ == env.env@,
        r.stdin == Stdin::Null,
        r.stdout == Stdout::Inherit,
        option_view(r.echo) == (if env.shows_work() {
            Some(join_words(str_views(argv@)))
        } else {
            None
        }),
{
    internal_spawn(argv, env, Stdout::Inherit)
}

/// How launching a subprocess and waiting for it went.
#[derive(Debug)]
pub enum Completion {
    /// It could not be launched.
    SpawnFailed(io::Error),
    /// It was launched, and waiting for it failed.
    WaitFailed(io::Error),
    /// It ran and ended.
    Ended(ChildStatus),
}

/// Whether the child ran and exited with code 0.
pub open spec fn succeeded(completion: Completion) -> bool {
    completion matches Completion::Ended(status) && status.is_success()
}

/// Whether `error` is the error of an operation `what` on the command whose
/// first word is `program`, caused by `cause`.
pub open spec fn is_io_failure(
    error: HLError,
    what: Seq<char>,
    program: Seq<char>,
    cause: io::Error,
) -> bool {
    error matches HLError::IOError { cause: c, detail } && c == cause && detail@ == what
        + program
}

/// Whether `error` is the error for the command `argv` having ended
/// unsuccessfully as `status` says.
pub open spec fn is_child_failure(error: HLError, argv: Seq<&str>, status: ChildStatus) -> bool {
    error matches HLError::UnsuccessfulChild { status: s, cmdline: c } && s@
        == crate::err::status_text(
        status,
        match status {
            ChildStatus::Signaled(number) => signal_name_of(number),
            ChildStatus::Exited(_) => None,
        },
    ) && c@ == join_words(str_views(argv))
}

/// Whether `error` is what is made of the completion of the command
/// `argv`, where `waiting` names the waiting that may have failed.
pub open spec fn is_failure_of(
    error: HLError,
    argv: Seq<&str>,
    completion: Completion,
    waiting: Seq<char>,
) -> bool {
    match completion {
        Completion::SpawnFailed(cause) => is_io_failure(error, "spawn "@, argv[0]@, cause),
        Completion::WaitFailed(cause) => is_io_failure(error, waiting, argv[0]@, cause),
        Completion::Ended(status) => !status.is_success() && is_child_failure(
            error,
            argv,
            status,
        ),
    }
}

fn io_failure(what: &str, program: &str, cause: io::Error) -> (r: HLError)
    ensures
        is_io_failure(r, what@, program@, cause),
{
    let mut detail = String::from_str(what);
    detail.append(program);
    map_io_err(cause, detail)
}

fn settle(argv: &[&str], completion: Completion, waiting: &str) -> (r: Result<(), HLError>)
    requires
        argv@.len() > 0,
    ensures
        r is Ok <==> succeeded(completion),
        r matches Err(e) ==> is_failure_of(e, argv@, completion, waiting@),
{
    match completion {
        Completion::SpawnFailed(cause) => Err(io_failure("spawn ", argv[0], cause)),
        Completion::WaitFailed(cause) => Err(io_failure(waiting, argv[0], cause)),
        Completion::Ended(status) => check_child_status(argv, &status),
    }
}

/// What running the command `argv` came to, given how launching it and
/// waiting for it went: success for a child that exited with code 0, and
/// otherwise the error that says what went wrong.
pub fn run(argv: &[&str], completion: Completion) -> (r: Result<(), HLError>)
    requires
        argv@.len() > 0,
    ensures
        r is Ok <==> succeeded(completion),
        r matches Err(e) ==> is_failure_of(e, argv@, completion, "wait for "@),
{
    settle(argv, completion, "wait for ")
}

/// What running the command `argv` for its output came to: the output of a
/// child that exited with code 0, and otherwise the error that says what
/// went wrong.
pub fn run_get_output(argv: &[&str], completion: Completion, output: Vec<u8>) -> (r: Result<
    Vec<u8>,
    HLError,
>)
    requires
        argv@.len() > 0,
    ensures
        r is Ok <==> succeeded(completion),
        r matches Ok(bytes) ==> bytes == output,
        r matches Err(e) ==> is_failure_of(e, argv@, completion, "reading from "@),
{
    match settle(argv, completion, "reading from ") {
        Ok(()) => Ok(output),
        Err(e) => Err(e),
    }
}

/// What running the command `argv` for a list of process ids came to: the
/// process ids that the output of a successful child lists. The error is
/// that of the command where it did not succeed, and that of reading the
/// list where its output is no list of process ids.
pub fn run_get_output_pids(argv: &[&str], completion: Completion, output: Vec<u8>) -> (r: Result<
    Vec<pid_t>,
    HLError,
>)
    requires
        argv@.len() > 0,
    ensures
        match r {
            Ok(pids) => {
                &&& succeeded(completion)
                &&& valid_utf8(output@)
                &&& all_pid_numerals(words(decode_utf8(output@)))
                &&& pids@ == numeral_values(words(decode_utf8(output@)))
            },
            Err(e) => if succeeded(completion) {
                match e {
                    HLError::UTF8Error { detail, .. } => !valid_utf8(output@) && detail@
                        == list_text(output@),
                    HLError::PIError { detail, .. } => valid_utf8(output@) && !all_pid_numerals(
                        words(decode_utf8(output@)),
                    ) && detail@ == "expected process id"@,
                    _ => false,
                }
            } else {
                is_failure_of(e, argv@, completion, "reading from "@)
            },
        },
{
    match run_get_output(argv, completion, output) {
        Ok(bytes) => parse_pid_output(bytes.as_slice()),
        Err(e) => Err(e),
    }
}

/// What running the command `argv` came to, where a failure stops
/// nothing: the line to log for a command that did not succeed, and `None`
/// for one that did.
pub fn run_ignore_failure(argv: &[&str], completion: Completion) -> (r: Option<String>)
    requires
        argv@.len() > 0,
    ensures
        r is None <==> succeeded(completion),
        r matches Some(line) ==> exists|e: HLError, cause: String|
            is_failure_of(e, argv@, completion, "wait for "@) && is_cause_text(e, cause) && line@
                == diagnostic(e, cause@),
{
    match run(argv, completion) {
        Ok(()) => None,
        Err(e) => {
            let line = e.message();
            proof {
                let cause = choose|cause: String|
                    is_cause_text(e, cause) && line@ == diagnostic(e, cause@);
                assert(is_failure_of(e, argv@, completion, "wait for "@) && is_cause_text(e, cause)
                    && line@ == diagnostic(e, cause@));
            }
            Some(line)
        },
    }
}

/// What is to be done about a configuration directory.
#[derive(Debug)]
pub struct DirWork {
    /// The directory.
    pub path: String,
    /// The line to show before the work, if any.
    pub echo: Option<String>,
    /// Whether the work is done at all: not in a dry run.
    pub perform: bool,
}

/// The line that shows work on a directory: the command that would do it,
/// with the directory in double quotes.
pub open spec fn dir_echo(verb: Seq<char>, path: Seq<char>) -> Seq<char> {
    verb + " \""@ + path + "\""@
}

/// What is to be done to create the directory `path`, with its parents, or
/// to remove it with all that is in it, under `env`. The work is shown in
/// a verbose run and in every dry run, and is done unless this is a dry
/// run.
pub fn dir_work(path: String, remove: bool, env: &ChildEnv) -> (r: DirWork)
    ensures
        r.path == path,
        r.perform == !env.dryrun,
        option_view(r.echo) == (if env.shows_work() {
            Some(dir_echo(if remove { "rm -rf"@ } else { "mkdir"@ }, path@))
        } else {
            None
        }),
{
    let echo = if env.verbose || env.dryrun {
        let mut line = String::from_str(if remove { "rm -rf" } else { "mkdir" });
        line.append(" \"");
        line.append(path.as_str());
        line.append("\"");
        Some(line)
    } else {
        None
    };
    DirWork { path, echo, perform: !env.dryrun }
}

} // verus!
