//! What is asked of a run, and which requests are accepted.

use crate::text::{decimal, push_decimal};
use vstd::prelude::*;
use vstd::string::*;

verus! {

/// The smallest number of namespaces that can be asked for.
pub const MIN_NAMESPACES: u32 = 1;

/// The largest number of namespaces that can be asked for.
pub const MAX_NAMESPACES: u32 = 1024;

/// What is asked of a run.
#[derive(Debug)]
pub struct Args {
    /// What the names of the namespaces begin with.
    pub prefix: String,
    /// How many namespaces to create.
    pub n_namespaces: u32,
    /// Whether to perform nothing and only show what would be done.
    pub dryrun: bool,
    /// Whether to show each action as it is performed.
    pub verbose: bool,
}

/// Why a request is not accepted.
#[derive(Clone, Copy, Debug, PartialEq, Eq, Structural)]
pub enum ArgsError {
    /// The prefix holds a character that is no ASCII letter, digit or
    /// underscore.
    InvalidPrefix,
    /// The number of namespaces, which this is, is not from 1 to 1024.
    CountOutOfRange(u32),
}

/// Whether a character may stand in a prefix: an ASCII letter, a digit or
/// an underscore.
pub open spec fn is_prefix_char(c: char) -> bool {
    ||| 'a' <= c <= 'z'
    ||| 'A' <= c <= 'Z'
    ||| '0' <= c <= '9'
    ||| c == '_'
}

/// Whether every character of `prefix` may stand in a prefix.
pub open spec fn is_valid_prefix(prefix: Seq<char>) -> bool {
    forall|i: int| 0 <= i < prefix.len() ==> is_prefix_char(#[trigger] prefix[i])
}

/// Whether `count` namespaces can be asked for.
pub open spec fn is_valid_count(count: u32) -> bool {
    MIN_NAMESPACES <= count <= MAX_NAMESPACES
}

fn prefix_char(c: char) -> (r: bool)
    ensures
        r == is_prefix_char(c),
{
    ('a' <= c && c <= 'z') || ('A' <= c && c <= 'Z') || ('0' <= c && c <= '9') || c == '_'
}

/// Checks a request. The prefix is looked at first, then the number of
/// namespaces. A dry run shows its actions whether or not that was asked
/// for.
pub fn check_args(prefix: &str, n_namespaces: u32, dryrun: bool, verbose: bool) -> (r: Result<
    Args,
    ArgsError,
>)
    ensures
        match r {
            Ok(args) => {
                &&& is_valid_prefix(prefix@)
                &&& is_valid_count(n_namespaces)
                &&& args.prefix@ == prefix@
                &&& args.n_namespaces == n_namespaces
                &&& args.dryrun == dryrun
                &&& args.verbose == (verbose || dryrun)
            },
            Err(ArgsError::InvalidPrefix) => !is_valid_prefix(prefix@),
            Err(ArgsError::CountOutOfRange(n)) => is_valid_prefix(prefix@) && !is_valid_count(
                n_namespaces,
            ) && n == n_namespaces,
        },
{
    let len = prefix.unicode_len();
    let mut i: usize = 0;
    while i < len
        invariant
            0 <= i <= len,
            len == prefix@.len(),
            forall|k: int| 0 <= k < i ==> is_prefix_char(#[trigger] prefix@[k]),
        decreases len - i,
    {
        if !prefix_char(prefix.get_char(i)) {
            return Err(ArgsError::InvalidPrefix);
        }
        i += 1;
    }
    if n_namespaces < MIN_NAMESPACES || n_namespaces > MAX_NAMESPACES {
        return Err(ArgsError::CountOutOfRange(n_namespaces));
    }
    Ok(
        Args {
            prefix: String::from_str(prefix),
            n_namespaces,
            dryrun,
            verbose: verbose || dryrun,
        },
    )
}

/// The words that say why a number of namespaces is not accepted.
pub open spec fn count_message(count: u32) -> Seq<char> {
    "n_namespaces must be from 1 to 1024, not "@ + decimal(count as nat)
}

/// The words that say why a number of namespaces is not accepted.
pub fn count_out_of_range(count: u32) -> (r: String)
    ensures
        r@ == count_message(count),
{
    let mut text = String::from_str("n_namespaces must be from 1 to 1024, not ");
    push_decimal(&mut text, count as u64);
    text
}

} // verus!
