//! Signal identities and the set of signals that the supervisor blocks.
//!
//! A signal is identified by its number. Names are resolved, and sets of
//! signals are kept, by the `nix` crate; what this module relies on from
//! there is stated on the items that call it.

use nix::sys::signal::{SigSet, Signal};
use std::str::FromStr;
use vstd::prelude::*;

verus! {

/// `nix::sys::signal::SigSet`, a set of signals as the operating system
/// keeps it. What it holds is spoken of through [`sigset_members`].
#[verifier::external_type_specification]
#[verifier::external_body]
pub struct ExSigSet(SigSet);

/// The number that `nix` gives to the signal called `name`, if it knows a
/// signal of that name on the platform the crate is built for.
pub uninterp spec fn signal_number_named(name: Seq<char>) -> Option<i32>;

/// The name under which `nix` knows signal `number`, if it knows it.
pub uninterp spec fn signal_name_of(number: i32) -> Option<Seq<char>>;

/// The numbers of the signals known to `nix` that `set` holds.
pub uninterp spec fn sigset_members(set: SigSet) -> Set<i32>;

/// Whether `number` identifies a signal at all.
pub open spec fn is_signal(number: i32) -> bool {
    signal_name_of(number) is Some
}

/// Calls `Signal::from_str` and takes the number of the signal it finds.
/// The result is a function of the name alone: a fixed table in `nix`. The
/// signal that `nix` finds under a name is a variant of its `Signal`, whose
/// number is its own and whose derived `Debug` writes that name: so the
/// number found is that of a signal which `nix` knows under the same name.
#[verifier::external_body]
pub(crate) fn signal_number(name: &str) -> (r: Option<i32>)
    ensures
        r == signal_number_named(name@),
        r matches Some(number) ==> signal_name_of(number) == Some(name@),
{
    Signal::from_str(name).ok().map(|sig| sig as i32)
}

/// Calls `Signal::try_from` and renders the signal it finds with its
/// derived `Debug`, which writes the variant's name. The result is a function
/// of the number alone: a fixed table in `nix`.
#[verifier::external_body]
pub(crate) fn signal_name(number: i32) -> (r: Option<String>)
    ensures
        match r {
            Some(text) => signal_name_of(number) == Some(text@),
            None => signal_name_of(number) is None,
        },
{
    Signal::try_from(number).ok().map(|sig| format!("{:?}", sig))
}

/// Calls `SigSet::empty` (`sigemptyset`): the set holds no signal.
#[verifier::external_body]
pub(crate) fn sigset_empty() -> (r: SigSet)
    ensures
        sigset_members(r) == Set::<i32>::empty(),
{
    SigSet::empty()
}

/// Calls `SigSet::add` (`sigaddset`) for the signal with this number: that
/// signal is in the set afterwards, and nothing else changes. A number that
/// is no signal is in no set, and nothing is added for it.
#[verifier::external_body]
pub(crate) fn sigset_add(set: &mut SigSet, number: i32)
    ensures
        sigset_members(*final(set)) == (if is_signal(number) {
            sigset_members(*old(set)).insert(number)
        } else {
            sigset_members(*old(set))
        }),
{
    if let Ok(sig) = Signal::try_from(number) {
        set.add(sig);
    }
}

/// The names of the signals that the supervisor blocks: the signals whose
/// default action is to end the process without a core dump, and the
/// signal that tells of a child's exit.
///
/// Four kinds of signal are not among them and keep their default
/// disposition: what cannot be blocked (`SIGKILL`, `SIGSTOP`), what
/// suspends or resumes the process (`SIGTSTP`, `SIGTTIN`, `SIGTTOU`,
/// `SIGCONT`), what is ignored by default (`SIGURG`, `SIGWINCH`), and what
/// reports a fatal exception or asks for an abort, with a core dump
/// (`SIGABRT`, `SIGBUS`, `SIGFPE`, `SIGILL`, `SIGQUIT`, `SIGSEGV`, `SIGSYS`,
/// `SIGTRAP`, `SIGXCPU`, `SIGXFSZ`): a crash then looks like a crash, and
/// not like a supervisor that hangs.
pub open spec fn blocked_names() -> Seq<Seq<char>> {
    seq![
        "SIGHUP"@,
        "SIGINT"@,
        "SIGPIPE"@,
        "SIGALRM"@,
        "SIGTERM"@,
        "SIGUSR1"@,
        "SIGUSR2"@,
        "SIGSTKFLT"@,
        "SIGVTALRM"@,
        "SIGPROF"@,
        "SIGIO"@,
        "SIGPWR"@,
        "SIGCHLD"@,
    ]
}

/// The names of the signals that keep their default disposition, by kind:
/// what cannot be blocked, what suspends or resumes the process, what is
/// ignored by default, and what reports a fatal exception or asks for an
/// abort.
pub open spec fn unblocked_names() -> Seq<Seq<char>> {
    seq![
        "SIGKILL"@,
        "SIGSTOP"@,
        "SIGTSTP"@,
        "SIGTTIN"@,
        "SIGTTOU"@,
        "SIGCONT"@,
        "SIGURG"@,
        "SIGWINCH"@,
        "SIGABRT"@,
        "SIGBUS"@,
        "SIGFPE"@,
        "SIGILL"@,
        "SIGQUIT"@,
        "SIGSEGV"@,
        "SIGSYS"@,
        "SIGTRAP"@,
        "SIGXCPU"@,
        "SIGXFSZ"@,
    ]
}

/// What tells the names of signals apart: the length, and the first two
/// characters after `SIG`.
spec fn mark(name: Seq<char>) -> (nat, char, char) {
    (name.len(), name[3], name[4])
}

/// No signal that keeps its default disposition goes by the name of one
/// that is blocked.
pub proof fn lemma_unblocked_names_are_not_blocked()
    ensures
        forall|i: int|
            0 <= i < unblocked_names().len() ==> !blocked_names().contains(
                #[trigger] unblocked_names()[i],
            ),
{
    reveal_strlit("SIGHUP");
    reveal_strlit("SIGINT");
    reveal_strlit("SIGPIPE");
    reveal_strlit("SIGALRM");
    reveal_strlit("SIGTERM");
    reveal_strlit("SIGUSR1");
    reveal_strlit("SIGUSR2");
    reveal_strlit("SIGSTKFLT");
    reveal_strlit("SIGVTALRM");
    reveal_strlit("SIGPROF");
    reveal_strlit("SIGIO");
    reveal_strlit("SIGPWR");
    reveal_strlit("SIGCHLD");
    reveal_strlit("SIGKILL");
    reveal_strlit("SIGSTOP");
    reveal_strlit("SIGTSTP");
    reveal_strlit("SIGTTIN");
    reveal_strlit("SIGTTOU");
    reveal_strlit("SIGCONT");
    reveal_strlit("SIGURG");
    reveal_strlit("SIGWINCH");
    reveal_strlit("SIGABRT");
    reveal_strlit("SIGBUS");
    reveal_strlit("SIGFPE");
    reveal_strlit("SIGILL");
    reveal_strlit("SIGQUIT");
    reveal_strlit("SIGSEGV");
    reveal_strlit("SIGSYS");
    reveal_strlit("SIGTRAP");
    reveal_strlit("SIGXCPU");
    reveal_strlit("SIGXFSZ");
    assert(mark("SIGHUP"@) == (6nat, 'H', 'U'));
    assert(mark("SIGINT"@) == (6nat, 'I', 'N'));
    assert(mark("SIGPIPE"@) == (7nat, 'P', 'I'));
    assert(mark("SIGALRM"@) == (7nat, 'A', 'L'));
    assert(mark("SIGTERM"@) == (7nat, 'T', 'E'));
    assert(mark("SIGUSR1"@) == (7nat, 'U', 'S'));
    assert(mark("SIGUSR2"@) == (7nat, 'U', 'S'));
    assert(mark("SIGSTKFLT"@) == (9nat, 'S', 'T'));
    assert(mark("SIGVTALRM"@) == (9nat, 'V', 'T'));
    assert(mark("SIGPROF"@) == (7nat, 'P', 'R'));
    assert(mark("SIGIO"@) == (5nat, 'I', 'O'));
    assert(mark("SIGPWR"@) == (6nat, 'P', 'W'));
    assert(mark("SIGCHLD"@) == (7nat, 'C', 'H'));
    assert(mark("SIGKILL"@) == (7nat, 'K', 'I'));
    assert(mark("SIGSTOP"@) == (7nat, 'S', 'T'));
    assert(mark("SIGTSTP"@) == (7nat, 'T', 'S'));
    assert(mark("SIGTTIN"@) == (7nat, 'T', 'T'));
    assert(mark("SIGTTOU"@) == (7nat, 'T', 'T'));
    assert(mark("SIGCONT"@) == (7nat, 'C', 'O'));
    assert(mark("SIGURG"@) == (6nat, 'U', 'R'));
    assert(mark("SIGWINCH"@) == (8nat, 'W', 'I'));
    assert(mark("SIGABRT"@) == (7nat, 'A', 'B'));
    assert(mark("SIGBUS"@) == (6nat, 'B', 'U'));
    assert(mark("SIGFPE"@) == (6nat, 'F', 'P'));
    assert(mark("SIGILL"@) == (6nat, 'I', 'L'));
    assert(mark("SIGQUIT"@) == (7nat, 'Q', 'U'));
    assert(mark("SIGSEGV"@) == (7nat, 'S', 'E'));
    assert(mark("SIGSYS"@) == (6nat, 'S', 'Y'));
    assert(mark("SIGTRAP"@) == (7nat, 'T', 'R'));
    assert(mark("SIGXCPU"@) == (7nat, 'X', 'C'));
    assert(mark("SIGXFSZ"@) == (7nat, 'X', 'F'));
    let kept = unblocked_names();
    let held = blocked_names();
    assert forall|i: int, j: int| 0 <= i < kept.len() && 0 <= j < held.len() implies held[j]
        != kept[i] by {
        assert(mark(held[j]) != mark(kept[i]));
    }
}

/// Whether signal `number` goes by one of the first `count` names of the
/// signals that are blocked.
pub open spec fn blocked_among(number: i32, count: int) -> bool {
    exists|i: int|
        0 <= i < count && i < blocked_names().len() && #[trigger] signal_number_named(
            blocked_names()[i],
        ) == Some(number)
}

/// Whether signal `number` is one that the supervisor blocks.
pub open spec fn is_blocked(number: i32) -> bool {
    blocked_among(number, blocked_names().len() as int)
}

/// The set of signals that the supervisor blocks and receives
/// synchronously: those that go by one of the names of [`blocked_names`],
/// as far as the platform has them, and no other. Every member is a signal
/// that `nix` knows under one of these names, and no signal that goes by
/// one of the names of [`unblocked_names`] is a member.
pub fn sigset_normal_termination() -> (ss: SigSet)
    ensures
        forall|n: i32| sigset_members(ss).contains(n) <==> is_blocked(n),
        forall|name: Seq<char>|
            blocked_names().contains(name) ==> (#[trigger] signal_number_named(
                name,
            ) matches Some(n) ==> sigset_members(ss).contains(n)),
        forall|n: i32|
            sigset_members(ss).contains(n) ==> (signal_name_of(n) matches Some(name)
                && blocked_names().contains(name)),
        forall|n: i32|
            (signal_name_of(n) matches Some(name) && unblocked_names().contains(name))
                ==> !sigset_members(ss).contains(n),
{
    let names: [&str; 13] = [
        "SIGHUP",
        "SIGINT",
        "SIGPIPE",
        "SIGALRM",
        "SIGTERM",
        "SIGUSR1",
        "SIGUSR2",
        "SIGSTKFLT",
        "SIGVTALRM",
        "SIGPROF",
        "SIGIO",
        "SIGPWR",
        "SIGCHLD",
    ];
    assert(blocked_names().len() == 13);
    assert(forall|i: int| 0 <= i < 13 ==> names@[i]@ == blocked_names()[i]);
    let mut ss = sigset_empty();
    let mut k: usize = 0;
    while k < 13
        invariant
            0 <= k <= 13,
            names@.len() == 13,
            blocked_names().len() == 13,
            forall|i: int| 0 <= i < 13 ==> names@[i]@ == blocked_names()[i],
            forall|n: i32| sigset_members(ss).contains(n) <==> blocked_among(n, k as int),
            forall|i: int|
                0 <= i < k ==> (#[trigger] signal_number_named(blocked_names()[i]) matches Some(
                    number,
                ) ==> signal_name_of(number) == Some(blocked_names()[i])),
        decreases 13 - k,
    {
        let found = signal_number(names[k]);
        let ghost before = sigset_members(ss);
        match found {
            Some(number) => {
                sigset_add(&mut ss, number);
            },
            None => {},
        }
        k += 1;
        proof {
            let k0 = k as int - 1;
            assert(found == signal_number_named(blocked_names()[k0]));
            assert forall|n: i32|
                sigset_members(ss).contains(n) <==> blocked_among(n, k as int) by {
                assert(before.contains(n) <==> blocked_among(n, k0));
                assert(sigset_members(ss).contains(n) <==> before.contains(n) || found == Some(n));
                if blocked_among(n, k as int) {
                    let i = choose|i: int|
                        0 <= i < k as int && i < blocked_names().len()
                            && #[trigger] signal_number_named(blocked_names()[i]) == Some(n);
                    if i < k0 {
                        assert(blocked_among(n, k0));
                    }
                }
                if blocked_among(n, k0) {
                    let i = choose|i: int|
                        0 <= i < k0 && i < blocked_names().len()
                            && #[trigger] signal_number_named(blocked_names()[i]) == Some(n);
                    assert(0 <= i < k as int);
                }
                if found == Some(n) {
                    assert(signal_number_named(blocked_names()[k0]) == Some(n));
                }
            }
        }
    }
    proof {
        assert forall|n: i32| sigset_members(ss).contains(n) implies (signal_name_of(
            n,
        ) matches Some(name) && blocked_names().contains(name)) by {
            assert(blocked_among(n, k as int));
            let i = choose|i: int|
                0 <= i < k as int && i < blocked_names().len() && #[trigger] signal_number_named(
                    blocked_names()[i],
                ) == Some(n);
            assert(signal_name_of(n) == Some(blocked_names()[i]));
            assert(blocked_names().contains(blocked_names()[i]));
        }
        assert forall|name: Seq<char>| blocked_names().contains(name) implies (
        #[trigger] signal_number_named(name) matches Some(n) ==> sigset_members(ss).contains(
            n,
        )) by {
            let i = choose|i: int| 0 <= i < blocked_names().len() && blocked_names()[i] == name;
            if signal_number_named(name) is Some {
                let n = signal_number_named(name)->0;
                assert(signal_number_named(blocked_names()[i]) == Some(n));
                assert(blocked_among(n, k as int));
            }
        }
        lemma_unblocked_names_are_not_blocked();
        assert forall|n: i32|
            (signal_name_of(n) matches Some(name) && unblocked_names().contains(
                name,
            )) implies !sigset_members(ss).contains(n) by {
            let name = signal_name_of(n)->0;
            let i = choose|i: int| 0 <= i < unblocked_names().len() && unblocked_names()[i] == name;
            assert(!blocked_names().contains(unblocked_names()[i]));
        }
    }
    ss
}

/// The byte that stands for a signal in the signal channel: its number.
/// Signal numbers are small; one that does not fit into a byte cannot go
/// through the channel.
pub fn serialize_signal(number: i32) -> (r: u8)
    requires
        0 <= number < 256,
    ensures
        r as int == number as int,
{
    number as u8
}

/// The signal that a byte from the signal channel stands for. The byte
/// has to be the number of a signal.
pub fn deserialize_signal(token: u8) -> (r: i32)
    requires
        is_signal(token as i32),
    ensures
        r as int == token as int,
{
    token as i32
}

/// The signal that a byte from the signal channel stands for, or `None`
/// for a byte that is the number of no signal.
pub fn try_deserialize_signal(token: u8) -> (r: Option<i32>)
    ensures
        r == (if is_signal(token as i32) {
            Some(token as i32)
        } else {
            None
        }),
{
    match signal_name(token as i32) {
        Some(_) => Some(deserialize_signal(token)),
        None => None,
    }
}

/// The outcome of one read of one byte from the signal channel.
#[derive(Clone, Copy, Debug, PartialEq, Eq, Structural)]
pub enum TokenRead {
    /// The read would have blocked: nothing is queued.
    WouldBlock,
    /// The read returned no byte.
    Empty,
    /// The read returned this byte.
    Token(u8),
}

/// Reads the outcome of one read from the signal channel: the signal that
/// was queued, or `None` where none was. That nothing is queued now does
/// not mean that nothing will come. A byte that stands for no signal is
/// handed back as the error.
pub fn next_signal(read: TokenRead) -> (r: Result<Option<i32>, u8>)
    ensures
        r == match read {
            TokenRead::WouldBlock => Ok::<Option<i32>, u8>(None),
            TokenRead::Empty => Ok(None),
            TokenRead::Token(token) => if is_signal(token as i32) {
                Ok(Some(token as i32))
            } else {
                Err(token)
            },
        },
{
    match read {
        TokenRead::WouldBlock => Ok(None),
        TokenRead::Empty => Ok(None),
        TokenRead::Token(token) => match try_deserialize_signal(token) {
            Some(number) => Ok(Some(number)),
            None => Err(token),
        },
    }
}

} // verus!
