//! The error type of the helpers, and how a child's fate is put into words.

use crate::signals::{signal_name, signal_name_of};
use crate::text::{join_words, push_joined, push_signed_decimal, signed_decimal, str_views};
use nix::errno::Errno;
use std::io;
use std::num::ParseIntError;
use std::str::Utf8Error;
use vstd::prelude::*;
use vstd::string::*;

verus! {

/// `std::io::Error`: carried as the cause of an error, and never looked
/// into.
#[verifier::external_type_specification]
#[verifier::external_body]
pub struct ExIoError(io::Error);

/// `nix::errno::Errno`, which is what `nix` reports its errors as: carried
/// as the cause of an error, and never looked into.
#[verifier::external_type_specification]
#[verifier::external_body]
pub struct ExErrno(Errno);

/// `std::num::ParseIntError`: carried as the cause of an error, and never
/// looked into.
#[verifier::external_type_specification]
#[verifier::external_body]
pub struct ExParseIntError(ParseIntError);

/// `std::str::Utf8Error`: carried as the cause of an error, and never
/// looked into.
#[verifier::external_type_specification]
#[verifier::external_body]
pub struct ExUtf8Error(Utf8Error);

/// Everything that can go wrong in a helper, with enough context for a
/// one-line diagnostic.
#[derive(Debug)]
#[allow(inconsistent_fields)]
pub enum HLError {
    /// A child process did not succeed.
    UnsuccessfulChild { status: String, cmdline: String },
    /// An operation of the standard library failed.
    IOError { cause: io::Error, detail: String },
    /// A call into the operating system failed.
    NixError { cause: Errno, detail: String },
    /// A number could not be parsed.
    PIError { cause: ParseIntError, detail: String },
    /// Text was expected and the bytes were no valid UTF-8.
    UTF8Error { cause: Utf8Error, detail: String },
}

/// How a child process ended.
#[derive(Clone, Copy, Debug, PartialEq, Eq, Structural)]
pub enum ChildStatus {
    /// It exited with this code.
    Exited(i32),
    /// It was killed by the signal with this number.
    Signaled(i32),
}

impl ChildStatus {
    /// A child succeeds by exiting with code 0, and in no other way.
    pub open spec fn is_success(self) -> bool {
        self == ChildStatus::Exited(0)
    }

    /// Whether the child succeeded.
    pub fn success(&self) -> (r: bool)
        ensures
            r == self.is_success(),
    {
        match self {
            ChildStatus::Exited(code) => *code == 0,
            ChildStatus::Signaled(_) => false,
        }
    }
}

/// The words that say how an unsuccessful child ended, given the name of
/// the signal that killed it, where it has one.
pub open spec fn status_text(status: ChildStatus, name: Option<Seq<char>>) -> Seq<char> {
    match status {
        ChildStatus::Exited(code) => "exited unsuccessfully (code "@ + signed_decimal(code as int)
            + ")"@,
        ChildStatus::Signaled(number) => match name {
            Some(name) => "killed by "@ + name,
            None => "killed by signal "@ + signed_decimal(number as int),
        },
    }
}

/// The error for a child that ended as `status` says, where `name` is the
/// name of the signal that killed it, if it has one. `cmdline` is what was
/// run.
pub fn unsuccessful_child(status: &ChildStatus, name: Option<String>, cmdline: &[&str]) -> (r:
    HLError)
    ensures
        r matches HLError::UnsuccessfulChild { status: s, cmdline: c } && s@ == status_text(
            *status,
            match name {
                Some(n) => Some(n@),
                None => None,
            },
        ) && c@ == join_words(str_views(cmdline@)),
{
    let mut text = String::new();
    match status {
        ChildStatus::Exited(code) => {
            text.append("exited unsuccessfully (code ");
            push_signed_decimal(&mut text, *code as i64);
            text.append(")");
        },
        ChildStatus::Signaled(number) => match name {
            Some(name) => {
                text.append("killed by ");
                text.append(name.as_str());
            },
            None => {
                text.append("killed by signal ");
                push_signed_decimal(&mut text, *number as i64);
            },
        },
    }
    let mut cmd = String::new();
    push_joined(&mut cmd, cmdline);
    HLError::UnsuccessfulChild { status: text, cmdline: cmd }
}

/// The error for a child that ended as `status` says: it records the exit
/// code or the signal, by name where the signal has one, and the command
/// line.
pub fn map_unsuc_child(status: &ChildStatus, cmdline: &[&str]) -> (r: HLError)
    ensures
        r matches HLError::UnsuccessfulChild { status: s, cmdline: c } && s@ == status_text(
            *status,
            match *status {
                ChildStatus::Signaled(number) => signal_name_of(number),
                ChildStatus::Exited(_) => None,
            },
        ) && c@ == join_words(str_views(cmdline@)),
{
    let name = match status {
        ChildStatus::Signaled(number) => signal_name(*number),
        ChildStatus::Exited(_) => None,
    };
    unsuccessful_child(status, name, cmdline)
}

/// `Ok` for a child that succeeded, the error of [`map_unsuc_child`] for
/// any other.
pub fn check_child_status(argv: &[&str], status: &ChildStatus) -> (r: Result<(), HLError>)
    ensures
        r is Ok <==> status.is_success(),
        r matches Err(e) ==> e matches HLError::UnsuccessfulChild { status: s, cmdline: c }
            && s@ == status_text(
            *status,
            match *status {
                ChildStatus::Signaled(number) => signal_name_of(number),
                ChildStatus::Exited(_) => None,
            },
        ) && c@ == join_words(str_views(argv@)),
{
    if status.success() {
        Ok(())
    } else {
        Err(map_unsuc_child(status, argv))
    }
}

pub fn map_io_err(cause: io::Error, detail: String) -> (r: HLError)
    ensures
        r == (HLError::IOError { cause, detail }),
{
    HLError::IOError { cause, detail }
}

pub fn map_nix_err(cause: Errno, detail: String) -> (r: HLError)
    ensures
        r == (HLError::NixError { cause, detail }),
{
    HLError::NixError { cause, detail }
}

pub fn map_pi_err(cause: ParseIntError, detail: String) -> (r: HLError)
    ensures
        r == (HLError::PIError { cause, detail }),
{
    HLError::PIError { cause, detail }
}

pub fn map_utf8_err(cause: Utf8Error, detail: String) -> (r: HLError)
    ensures
        r == (HLError::UTF8Error { cause, detail }),
{
    HLError::UTF8Error { cause, detail }
}

/// The one-line diagnostic for `error`, where `cause` is the text of the
/// cause that it carries. An unsuccessful child carries no cause, and
/// `cause` is not used for it.
pub open spec fn diagnostic(error: HLError, cause: Seq<char>) -> Seq<char> {
    match error {
        HLError::UnsuccessfulChild { status, cmdline } => "Child process '"@ + cmdline@ + "' "@
            + status@ + "."@,
        HLError::IOError { detail, .. } => detail@ + ": "@ + cause + "."@,
        HLError::NixError { detail, .. } => detail@ + ": "@ + cause + "."@,
        HLError::PIError { detail, .. } => "Invalid integer "@ + detail@ + ": "@ + cause + "."@,
        HLError::UTF8Error { detail, .. } => "Invalid UTF-8 in "@ + detail@ + ": "@ + cause
            + "."@,
    }
}

/// Whether `text` is what the cause that `error` carries displays as. An
/// unsuccessful child carries no cause: its text is empty.
pub open spec fn is_cause_text(error: HLError, text: String) -> bool {
    match error {
        HLError::UnsuccessfulChild { .. } => text@ == Seq::<char>::empty(),
        HLError::IOError { cause, .. } => to_string_from_display_ensures::<io::Error>(
            &cause,
            text,
        ),
        HLError::NixError { cause, .. } => to_string_from_display_ensures::<Errno>(&cause, text),
        HLError::PIError { cause, .. } => to_string_from_display_ensures::<ParseIntError>(
            &cause,
            text,
        ),
        HLError::UTF8Error { cause, .. } => to_string_from_display_ensures::<Utf8Error>(
            &cause,
            text,
        ),
    }
}

impl HLError {
    /// What kind of error this is, in a few fixed words.
    pub open spec fn spec_description(self) -> Seq<char> {
        match self {
            HLError::UnsuccessfulChild { .. } => "Child process failed"@,
            HLError::IOError { .. } => "I/O error"@,
            HLError::NixError { .. } => "System error"@,
            HLError::PIError { .. } => "Invalid integer"@,
            HLError::UTF8Error { .. } => "Invalid UTF-8 text"@,
        }
    }

    /// What kind of error this is, in a few fixed words.
    pub fn description(&self) -> (r: &'static str)
        ensures
            r@ == self.spec_description(),
    {
        match self {
            HLError::UnsuccessfulChild { .. } => "Child process failed",
            HLError::IOError { .. } => "I/O error",
            HLError::NixError { .. } => "System error",
            HLError::PIError { .. } => "Invalid integer",
            HLError::UTF8Error { .. } => "Invalid UTF-8 text",
        }
    }

    /// Whether this error carries an underlying cause: all do, but an
    /// unsuccessful child.
    pub fn has_cause(&self) -> (r: bool)
        ensures
            r == !(self is UnsuccessfulChild),
    {
        match self {
            HLError::UnsuccessfulChild { .. } => false,
            _ => true,
        }
    }

    /// The text that the cause of this error displays as; empty where it
    /// carries none.
    pub fn cause_text(&self) -> (r: String)
        ensures
            is_cause_text(*self, r),
    {
        match self {
            HLError::UnsuccessfulChild { .. } => String::new(),
            HLError::IOError { cause, .. } => cause.to_string(),
            HLError::NixError { cause, .. } => cause.to_string(),
            HLError::PIError { cause, .. } => cause.to_string(),
            HLError::UTF8Error { cause, .. } => cause.to_string(),
        }
    }

    /// The one-line diagnostic for this error, given the text of its cause.
    pub fn diagnostic_with(&self, cause: &str) -> (r: String)
        ensures
            r@ == diagnostic(*self, cause@),
    {
        let mut out = String::new();
        match self {
            HLError::UnsuccessfulChild { status, cmdline } => {
                out.append("Child process '");
                out.append(cmdline.as_str());
                out.append("' ");
                out.append(status.as_str());
            },
            HLError::IOError { detail, .. } => {
                out.append(detail.as_str());
                out.append(": ");
                out.append(cause);
            },
            HLError::NixError { detail, .. } => {
                out.append(detail.as_str());
                out.append(": ");
                out.append(cause);
            },
            HLError::PIError { detail, .. } => {
                out.append("Invalid integer ");
                out.append(detail.as_str());
                out.append(": ");
                out.append(cause);
            },
            HLError::UTF8Error { detail, .. } => {
                out.append("Invalid UTF-8 in ");
                out.append(detail.as_str());
                out.append(": ");
                out.append(cause);
            },
        }
        out.append(".");
        out
    }

    /// The one-line diagnostic for this error: what went wrong, and the
    /// text of the cause where there is one.
    pub fn message(&self) -> (r: String)
        ensures
            exists|cause: String| is_cause_text(*self, cause) && r@ == diagnostic(*self, cause@),
    {
        let cause = self.cause_text();
        self.diagnostic_with(cause.as_str())
    }
}

} // verus!
