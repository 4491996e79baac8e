//! Reading a list of process ids: numbers separated by white space.

use crate::err::{map_pi_err, map_utf8_err, HLError};
use crate::text::{decimal, push_decimal};
use libc::pid_t;
use std::num::ParseIntError;
use std::str::Utf8Error;
use vstd::prelude::*;
use vstd::string::*;
use vstd::utf8::{decode_utf8, encode_utf8_decode_utf8, valid_utf8};

verus! {

/// Whether a character is white space: the characters with the Unicode
/// property `White_Space`.
pub open spec fn is_space(c: char) -> bool {
    let u = c as u32;
    ||| 0x09 <= u <= 0x0d
    ||| u == 0x20
    ||| u == 0x85
    ||| u == 0xa0
    ||| u == 0x1680
    ||| 0x2000 <= u <= 0x200a
    ||| u == 0x2028
    ||| u == 0x2029
    ||| u == 0x202f
    ||| u == 0x205f
    ||| u == 0x3000
}

/// How many characters at the start of `s` are no white space.
pub open spec fn word_len(s: Seq<char>) -> nat
    decreases s.len(),
{
    if s.len() == 0 || is_space(s[0]) {
        0
    } else {
        1 + word_len(s.drop_first())
    }
}

/// A word is no longer than the text that it starts.
pub proof fn lemma_word_len_bound(s: Seq<char>)
    ensures
        word_len(s) <= s.len(),
    decreases s.len(),
{
    if s.len() > 0 && !is_space(s[0]) {
        lemma_word_len_bound(s.drop_first());
    }
}

/// The words of `s`: its longest stretches without white space, in order.
pub open spec fn words(s: Seq<char>) -> Seq<Seq<char>>
    decreases s.len(),
{
    if s.len() == 0 {
        Seq::empty()
    } else if is_space(s[0]) {
        words(s.drop_first())
    } else {
        proof {
            lemma_word_len_bound(s);
        }
        seq![s.take(word_len(s) as int)] + words(s.skip(word_len(s) as int))
    }
}

/// Whether a character is a decimal digit.
pub open spec fn is_digit(c: char) -> bool {
    0x30 <= c as u32 <= 0x39
}

/// The number that a sequence of decimal digits stands for.
pub open spec fn digits_value(s: Seq<char>) -> int
    decreases s.len(),
{
    if s.len() == 0 {
        0
    } else {
        digits_value(s.drop_last()) * 10 + (s.last() as u32 - 0x30)
    }
}

/// A numeral without its sign.
pub open spec fn unsigned_part(s: Seq<char>) -> Seq<char> {
    if s.len() > 0 && (s[0] == '+' || s[0] == '-') {
        s.drop_first()
    } else {
        s
    }
}

/// The number that a numeral stands for.
pub open spec fn numeral_value(s: Seq<char>) -> int {
    if s.len() > 0 && s[0] == '-' {
        -digits_value(unsigned_part(s))
    } else {
        digits_value(unsigned_part(s))
    }
}

/// Whether `s` is the numeral of a process id: an optional sign and then
/// one or more decimal digits, for a number that a process id can hold.
pub open spec fn is_pid_numeral(s: Seq<char>) -> bool {
    &&& unsigned_part(s).len() > 0
    &&& forall|i: int| 0 <= i < unsigned_part(s).len() ==> is_digit(#[trigger] unsigned_part(s)[i])
    &&& pid_t::MIN <= numeral_value(s) <= pid_t::MAX
}

/// The numbers that `tokens` stand for.
pub open spec fn numeral_values(tokens: Seq<Seq<char>>) -> Seq<pid_t> {
    Seq::new(tokens.len(), |i: int| numeral_value(tokens[i]) as pid_t)
}

/// Whether every one of `tokens` is the numeral of a process id.
pub open spec fn all_pid_numerals(tokens: Seq<Seq<char>>) -> bool {
    forall|i: int| 0 <= i < tokens.len() ==> is_pid_numeral(#[trigger] tokens[i])
}

/// The bytes of a list as they are written between its brackets: decimal,
/// with a comma and a space between neighbours.
pub open spec fn list_items(bytes: Seq<u8>) -> Seq<char>
    decreases bytes.len(),
{
    if bytes.len() == 0 {
        Seq::empty()
    } else if bytes.len() == 1 {
        decimal(bytes[0] as nat)
    } else {
        list_items(bytes.drop_last()) + ", "@ + decimal(bytes.last() as nat)
    }
}

/// A list of bytes written out: `[1, 2, 3]`.
pub open spec fn list_text(bytes: Seq<u8>) -> Seq<char> {
    "["@ + list_items(bytes) + "]"@
}

/// Calls `str::from_utf8`, which succeeds on well-formed UTF-8, and on
/// nothing else, with a string slice over the same bytes.
#[verifier::external_body]
fn text_of(raw: &[u8]) -> (r: Result<&str, Utf8Error>)
    ensures
        r is Ok <==> valid_utf8(raw@),
        r matches Ok(text) ==> text.spec_bytes() == raw@,
{
    std::str::from_utf8(raw)
}

/// Calls `str::parse::<pid_t>`, which accepts an optional sign followed by
/// one or more decimal digits, where the number fits, and gives that number.
#[verifier::external_body]
fn parse_pid(token: &str) -> (r: Result<pid_t, ParseIntError>)
    ensures
        r is Ok <==> is_pid_numeral(token@),
        r matches Ok(pid) ==> pid == numeral_value(token@),
{
    token.parse::<pid_t>()
}

fn is_space_char(c: char) -> (r: bool)
    ensures
        r == is_space(c),
{
    let u = c as u32;
    (0x09 <= u && u <= 0x0d) || u == 0x20 || u == 0x85 || u == 0xa0 || u == 0x1680 || (0x2000 <= u
        && u <= 0x200a) || u == 0x2028 || u == 0x2029 || u == 0x202f || u == 0x205f || u == 0x3000
}

/// The bytes of `raw` written out as a list.
pub fn bytes_text(raw: &[u8]) -> (r: String)
    ensures
        r@ == list_text(raw@),
{
    let mut out = String::from_str("[");
    let mut i: usize = 0;
    while i < raw.len()
        invariant
            0 <= i <= raw.len(),
            out@ == "["@ + list_items(raw@.take(i as int)),
        decreases raw.len() - i,
    {
        if i > 0 {
            out.append(", ");
        }
        push_decimal(&mut out, raw[i] as u64);
        proof {
            let next = raw@.take(i + 1);
            assert(next.drop_last() =~= raw@.take(i as int));
            assert(next.last() == raw@[i as int]);
            assert(out@ =~= "["@ + list_items(next));
        }
        i += 1;
    }
    assert(raw@.take(i as int) =~= raw@);
    out.append("]");
    out
}

proof fn lemma_word_len(s: Seq<char>, n: int)
    requires
        0 <= n <= s.len(),
        forall|k: int| 0 <= k < n ==> !is_space(s[k]),
        n == s.len() || is_space(s[n]),
    ensures
        word_len(s) == n,
    decreases n,
{
    if n > 0 {
        let rest = s.drop_first();
        assert forall|k: int| 0 <= k < n - 1 implies !is_space(rest[k]) by {
            assert(rest[k] == s[k + 1]);
        }
        lemma_word_len(rest, n - 1);
    }
}

/// The process ids that `text` lists: the numbers that its words stand
/// for, in order. Fails with the error of the first word that is no
/// numeral of a process id.
pub fn parse_pids(text: &str) -> (r: Result<Vec<pid_t>, HLError>)
    ensures
        match r {
            Ok(pids) => all_pid_numerals(words(text@)) && pids@ == numeral_values(words(text@)),
            Err(HLError::PIError { detail, .. }) => !all_pid_numerals(words(text@)) && detail@
                == "expected process id"@,
            Err(_) => false,
        },
{
    let n = text.unicode_len();
    let mut pids: Vec<pid_t> = Vec::new();
    let ghost mut seen: Seq<Seq<char>> = Seq::empty();
    let mut i: usize = 0;
    assert(text@.skip(0) =~= text@);
    while i < n
        invariant
            0 <= i <= n,
            n == text@.len(),
            words(text@) == seen + words(text@.skip(i as int)),
            all_pid_numerals(seen),
            pids@ == numeral_values(seen),
        decreases n - i,
    {
        let ghost tail = text@.skip(i as int);
        if is_space_char(text.get_char(i)) {
            assert(tail.drop_first() =~= text@.skip(i + 1));
            i += 1;
        } else {
            let mut j: usize = i + 1;
            while j < n && !is_space_char(text.get_char(j))
                invariant
                    i < j <= n,
                    n == text@.len(),
                    forall|k: int| i <= k < j ==> !is_space(text@[k]),
                decreases n - j,
            {
                j += 1;
            }
            let token = text.substring_char(i, j);
            proof {
                lemma_word_len(tail, j - i);
                assert(tail.take(j - i) =~= token@);
                assert(tail.skip(j - i) =~= text@.skip(j as int));
                assert(words(text@) =~= seen.push(token@) + words(text@.skip(j as int)));
            }
            match parse_pid(token) {
                Ok(pid) => {
                    pids.push(pid);
                    proof {
                        seen = seen.push(token@);
                        assert(pids@ =~= numeral_values(seen));
                    }
                },
                Err(e) => {
                    proof {
                        let all = words(text@);
                        assert(all[seen.len() as int] == token@);
                    }
                    return Err(map_pi_err(e, String::from_str("expected process id")));
                },
            }
            i = j;
        }
    }
    proof {
        assert(text@.skip(n as int) =~= Seq::<char>::empty());
        assert(words(text@) =~= seen);
    }
    Ok(pids)
}

/// The process ids that the output `raw` of an enumeration lists. Output
/// that is no well-formed UTF-8 is an error that shows the bytes; a word
/// that is no numeral of a process id is an error too.
pub fn parse_pid_output(raw: &[u8]) -> (r: Result<Vec<pid_t>, HLError>)
    ensures
        match r {
            Ok(pids) => valid_utf8(raw@) && all_pid_numerals(words(decode_utf8(raw@))) && pids@
                == numeral_values(words(decode_utf8(raw@))),
            Err(HLError::UTF8Error { detail, .. }) => !valid_utf8(raw@) && detail@ == list_text(
                raw@,
            ),
            Err(HLError::PIError { detail, .. }) => valid_utf8(raw@) && !all_pid_numerals(
                words(decode_utf8(raw@)),
            ) && detail@ == "expected process id"@,
            Err(_) => false,
        },
{
    match text_of(raw) {
        Ok(text) => {
            proof {
                encode_utf8_decode_utf8(text@);
            }
            parse_pids(text)
        },
        Err(e) => Err(map_utf8_err(e, bytes_text(raw))),
    }
}

} // verus!
