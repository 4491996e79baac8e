//! The environment that children are given: built from nothing, with a few
//! variables passed on and a fixed search path, each once, in a fixed
//! order.

use vstd::prelude::*;
use vstd::string::*;
use vstd::utf8::{encode_utf8, encode_utf8_decode_utf8};

verus! {

/// Whether the bytes `a` come before the bytes `b`, or are the same:
/// compared byte by byte, and the shorter first where one starts the other.
pub open spec fn bytes_le(a: Seq<u8>, b: Seq<u8>) -> bool
    decreases a.len(),
{
    if a.len() == 0 {
        true
    } else if b.len() == 0 {
        false
    } else if a[0] != b[0] {
        a[0] < b[0]
    } else {
        bytes_le(a.drop_first(), b.drop_first())
    }
}

/// The order of strings: that of their bytes in UTF-8.
pub open spec fn text_le(a: Seq<char>, b: Seq<char>) -> bool {
    bytes_le(encode_utf8(a), encode_utf8(b))
}

/// Whether the string `a` comes before the string `b` and is another.
pub open spec fn text_lt(a: Seq<char>, b: Seq<char>) -> bool {
    text_le(a, b) && a != b
}

/// Whether the keys of `entries` ascend: each entry's key comes before the
/// keys of all that follow, so that no key occurs twice.
pub open spec fn keys_ascend(entries: Seq<(Seq<char>, Seq<char>)>) -> bool {
    forall|i: int, j: int| 0 <= i < j < entries.len() ==> text_lt(entries[i].0, entries[j].0)
}

/// Environment entries as keys and values of characters.
pub open spec fn entry_views(entries: Seq<(String, String)>) -> Seq<(Seq<char>, Seq<char>)> {
    Seq::new(entries.len(), |i: int| (entries[i].0@, entries[i].1@))
}

/// Whether the variable `key` is passed on to children: the terminal type,
/// the time zone and the locale settings.
pub open spec fn is_passed_on(key: Seq<char>) -> bool {
    ||| key == "TERM"@
    ||| key == "TZ"@
    ||| key == "LANG"@
    ||| (key.len() >= 3 && key[0] == 'L' && key[1] == 'C' && key[2] == '_')
}

/// The search path that every child gets.
pub open spec fn search_path() -> (Seq<char>, Seq<char>) {
    ("PATH"@, "/usr/local/bin:/usr/bin:/bin:/usr/local/sbin:/usr/sbin:/sbin"@)
}

/// Whether `entry` is offered to the children of a supervisor whose own
/// variables are `vars`: it is the fixed search path, or one of `vars`
/// that is passed on.
pub open spec fn is_offered(
    vars: Seq<(Seq<char>, Seq<char>)>,
    entry: (Seq<char>, Seq<char>),
) -> bool {
    entry == search_path() || (is_passed_on(entry.0) && vars.contains(entry))
}

/// Whether `entries` holds the variable of `entry`, with the value of
/// `entry` or one that comes after it.
pub open spec fn covers(
    entries: Seq<(Seq<char>, Seq<char>)>,
    entry: (Seq<char>, Seq<char>),
) -> bool {
    exists|i: int|
        0 <= i < entries.len() && (#[trigger] entries[i]).0 == entry.0 && text_le(
            entry.1,
            entries[i].1,
        )
}

proof fn lemma_bytes_le_reflexive(a: Seq<u8>)
    ensures
        bytes_le(a, a),
    decreases a.len(),
{
    if a.len() > 0 {
        lemma_bytes_le_reflexive(a.drop_first());
    }
}

proof fn lemma_bytes_le_total(a: Seq<u8>, b: Seq<u8>)
    ensures
        bytes_le(a, b) || bytes_le(b, a),
    decreases a.len(),
{
    if a.len() > 0 && b.len() > 0 && a[0] == b[0] {
        lemma_bytes_le_total(a.drop_first(), b.drop_first());
    }
}

proof fn lemma_bytes_le_antisymmetric(a: Seq<u8>, b: Seq<u8>)
    requires
        bytes_le(a, b),
        bytes_le(b, a),
    ensures
        a == b,
    decreases a.len(),
{
    if a.len() > 0 {
        lemma_bytes_le_antisymmetric(a.drop_first(), b.drop_first());
        assert(a =~= seq![a[0]] + a.drop_first());
        assert(b =~= seq![b[0]] + b.drop_first());
    } else {
        assert(a =~= b);
    }
}

proof fn lemma_bytes_le_transitive(a: Seq<u8>, b: Seq<u8>, c: Seq<u8>)
    requires
        bytes_le(a, b),
        bytes_le(b, c),
    ensures
        bytes_le(a, c),
    decreases a.len(),
{
    if a.len() > 0 && a[0] == b[0] && b[0] == c[0] {
        lemma_bytes_le_transitive(a.drop_first(), b.drop_first(), c.drop_first());
    }
}

proof fn lemma_text_equal(a: Seq<char>, b: Seq<char>)
    requires
        encode_utf8(a) == encode_utf8(b),
    ensures
        a == b,
{
    encode_utf8_decode_utf8(a);
    encode_utf8_decode_utf8(b);
}

proof fn lemma_text_lt_transitive(a: Seq<char>, b: Seq<char>, c: Seq<char>)
    requires
        text_lt(a, b),
        text_le(b, c),
    ensures
        text_lt(a, c),
{
    lemma_bytes_le_transitive(encode_utf8(a), encode_utf8(b), encode_utf8(c));
    if a == c {
        lemma_bytes_le_antisymmetric(encode_utf8(a), encode_utf8(b));
        lemma_text_equal(a, b);
    }
}

/// How two sequences of bytes compare.
#[derive(Clone, Copy, Debug, PartialEq, Eq, Structural)]
pub enum Order {
    Before,
    Same,
    After,
}

proof fn lemma_common_prefix(a: Seq<u8>, b: Seq<u8>, n: int)
    requires
        0 <= n <= a.len(),
        n <= b.len(),
        a.take(n) == b.take(n),
    ensures
        bytes_le(a, b) == bytes_le(a.skip(n), b.skip(n)),
    decreases n,
{
    if n > 0 {
        assert(a[0] == a.take(n)[0]);
        assert(b[0] == b.take(n)[0]);
        let a1 = a.drop_first();
        let b1 = b.drop_first();
        assert(a1.take(n - 1) =~= a.take(n).drop_first());
        assert(b1.take(n - 1) =~= b.take(n).drop_first());
        lemma_common_prefix(a1, b1, n - 1);
        assert(a1.skip(n - 1) =~= a.skip(n));
        assert(b1.skip(n - 1) =~= b.skip(n));
    } else {
        assert(a.skip(0) =~= a);
        assert(b.skip(0) =~= b);
    }
}

/// Compares two sequences of bytes in the order of [`bytes_le`].
pub fn compare_bytes(a: &[u8], b: &[u8]) -> (r: Order)
    ensures
        r == Order::Same <==> a@ == b@,
        r == Order::Before <==> bytes_le(a@, b@) && a@ != b@,
        r == Order::After <==> !bytes_le(a@, b@),
{
    let mut i: usize = 0;
    while i < a.len() && i < b.len() && a[i] == b[i]
        invariant
            0 <= i <= a.len(),
            i <= b.len(),
            a@.take(i as int) == b@.take(i as int),
        decreases a.len() - i,
    {
        assert(a@.take(i as int + 1) =~= a@.take(i as int).push(a@[i as int]));
        assert(b@.take(i as int + 1) =~= b@.take(i as int).push(b@[i as int]));
        i += 1;
    }
    proof {
        lemma_common_prefix(a@, b@, i as int);
        lemma_common_prefix(b@, a@, i as int);
        let x = a@.skip(i as int);
        let y = b@.skip(i as int);
        if i == a.len() && i == b.len() {
            assert(a@ =~= a@.take(i as int));
            assert(b@ =~= b@.take(i as int));
        } else if i < a.len() && i < b.len() {
            assert(x[0] == a@[i as int]);
            assert(y[0] == b@[i as int]);
        }
    }
    if i == a.len() {
        if i == b.len() {
            Order::Same
        } else {
            Order::Before
        }
    } else if i == b.len() {
        Order::After
    } else if a[i] < b[i] {
        Order::Before
    } else {
        Order::After
    }
}

/// Compares two strings in the order of [`text_le`].
fn compare_text(a: &String, b: &String) -> (r: Order)
    ensures
        r == Order::Before <==> text_lt(a@, b@),
        r == Order::Same <==> a@ == b@,
        r == Order::After <==> text_lt(b@, a@),
{
    let r = compare_bytes(a.as_str().as_bytes(), b.as_str().as_bytes());
    proof {
        lemma_bytes_le_total(encode_utf8(a@), encode_utf8(b@));
        lemma_bytes_le_reflexive(encode_utf8(a@));
        if encode_utf8(a@) == encode_utf8(b@) {
            lemma_text_equal(a@, b@);
        }
        if text_le(a@, b@) && text_le(b@, a@) {
            lemma_bytes_le_antisymmetric(encode_utf8(a@), encode_utf8(b@));
        }
    }
    r
}

/// Puts `entry` into `out` at the place of its key. Where `out` holds the
/// key already, it keeps the value that comes later in the order of
/// strings.
fn place(out: &mut Vec<(String, String)>, entry: (String, String))
    requires
        keys_ascend(entry_views(old(out)@)),
    ensures
        keys_ascend(entry_views(final(out)@)),
        covers(entry_views(final(out)@), (entry.0@, entry.1@)),
        forall|j: int|
            0 <= j < final(out)@.len() ==> (#[trigger] entry_views(final(out)@)[j]) == (
                entry.0@,
                entry.1@,
            ) || entry_views(old(out)@).contains(entry_views(final(out)@)[j]),
        forall|c: (Seq<char>, Seq<char>)| #[trigger]
            covers(entry_views(old(out)@), c) ==> covers(entry_views(final(out)@), c),
{
    let ghost e = (entry.0@, entry.1@);
    let ghost before = entry_views(out@);
    let mut at: usize = 0;
    while at < out.len() && compare_text(&out[at].0, &entry.0) == Order::Before
        invariant
            0 <= at <= out.len(),
            out@ == old(out)@,
            before == entry_views(out@),
            e == (entry.0@, entry.1@),
            forall|k: int| 0 <= k < at ==> text_lt((#[trigger] before[k]).0, e.0),
        decreases out.len() - at,
    {
        at += 1;
    }
    if at < out.len() && compare_text(&out[at].0, &entry.0) == Order::Same {
        if compare_text(&out[at].1, &entry.1) == Order::Before {
            out.set(at, entry);
            proof {
                let after = entry_views(out@);
                assert(after =~= before.update(at as int, e));
                assert forall|i: int, j: int| 0 <= i < j < after.len() implies text_lt(
                    after[i].0,
                    after[j].0,
                ) by {
                    assert(after[i].0 == before[i].0 && after[j].0 == before[j].0);
                }
                lemma_bytes_le_reflexive(encode_utf8(e.1));
                assert(after[at as int] == e);
                assert forall|j: int| 0 <= j < after.len() implies (#[trigger] after[j]) == e
                    || before.contains(after[j]) by {
                    if j != at {
                        assert(after[j] == before[j]);
                    }
                }
                assert forall|c: (Seq<char>, Seq<char>)| #[trigger]
                    covers(before, c) implies covers(after, c) by {
                    let i = choose|i: int|
                        0 <= i < before.len() && (#[trigger] before[i]).0 == c.0 && text_le(
                            c.1,
                            before[i].1,
                        );
                    if i == at {
                        lemma_bytes_le_transitive(
                            encode_utf8(c.1),
                            encode_utf8(before[i].1),
                            encode_utf8(e.1),
                        );
                    }
                    assert(after[i].0 == c.0 && text_le(c.1, after[i].1));
                }
            }
        } else {
            proof {
                lemma_bytes_le_reflexive(encode_utf8(e.1));
                assert(before[at as int] == (out@[at as int].0@, out@[at as int].1@));
                assert(before[at as int].0 == e.0 && text_le(e.1, before[at as int].1));
                assert forall|j: int| 0 <= j < before.len() implies (#[trigger] before[j]) == e
                    || before.contains(before[j]) by {}
            }
        }
    } else {
        proof {
            let after = before.insert(at as int, e);
            assert(entry_views(out@.insert(at as int, entry)) =~= after);
            assert forall|i: int, j: int| 0 <= i < j < after.len() implies text_lt(
                after[i].0,
                after[j].0,
            ) by {
                if j == at {
                    assert(after[i] == before[i]);
                } else if i == at {
                    assert(after[j] == before[j - 1]);
                    assert(text_lt(e.0, before[at as int].0));
                    if j - 1 > at {
                        assert(text_lt(before[at as int].0, before[j - 1].0));
                        lemma_text_lt_transitive(e.0, before[at as int].0, before[j - 1].0);
                    }
                } else {
                    let i0 = if i < at { i } else { i - 1 };
                    let j0 = if j < at { j } else { j - 1 };
                    assert(after[i] == before[i0] && after[j] == before[j0]);
                }
            }
            lemma_bytes_le_reflexive(encode_utf8(e.1));
            assert(after[at as int] == e);
            assert forall|j: int| 0 <= j < after.len() implies (#[trigger] after[j]) == e
                || before.contains(after[j]) by {
                if j < at {
                    assert(after[j] == before[j]);
                } else if j > at {
                    assert(after[j] == before[j - 1]);
                }
            }
            assert forall|c: (Seq<char>, Seq<char>)| #[trigger]
                covers(before, c) implies covers(after, c) by {
                let i = choose|i: int|
                    0 <= i < before.len() && (#[trigger] before[i]).0 == c.0 && text_le(
                        c.1,
                        before[i].1,
                    );
                let i1 = if i < at { i } else { i + 1 };
                assert(after[i1] == before[i]);
            }
        }
        out.insert(at, entry);
    }
}

fn passes_on(key: &str) -> (r: bool)
    ensures
        r == is_passed_on(key@),
{
    proof {
        reveal_strlit("TERM");
        reveal_strlit("TZ");
        reveal_strlit("LANG");
    }
    let n = key.unicode_len();
    if n >= 3 && key.get_char(0) == 'L' && key.get_char(1) == 'C' && key.get_char(2) == '_' {
        true
    } else if n == 4 {
        let term = key.get_char(0) == 'T' && key.get_char(1) == 'E' && key.get_char(2) == 'R'
            && key.get_char(3) == 'M';
        let lang = key.get_char(0) == 'L' && key.get_char(1) == 'A' && key.get_char(2) == 'N'
            && key.get_char(3) == 'G';
        assert(term == (key@ =~= "TERM"@));
        assert(lang == (key@ =~= "LANG"@));
        term || lang
    } else if n == 2 {
        let tz = key.get_char(0) == 'T' && key.get_char(1) == 'Z';
        assert(tz == (key@ =~= "TZ"@));
        tz
    } else {
        false
    }
}

proof fn lemma_search_path_is_not_passed_on()
    ensures
        !is_passed_on(search_path().0),
{
    reveal_strlit("PATH");
    reveal_strlit("TERM");
    reveal_strlit("TZ");
    reveal_strlit("LANG");
    let path = "PATH"@;
    assert(path[0] == 'P');
    assert("TERM"@[0] == 'T');
    assert("LANG"@[0] == 'L');
    assert("TZ"@.len() == 2);
}

/// The environment for children, made from the variables `vars` of the
/// supervisor: the variables that are passed on, and the fixed search
/// path, and nothing else. Every variable is there once, in the order of
/// the keys. Where `vars` names a variable more than once, the value that
/// comes last in the order of strings is kept. Whatever search path `vars`
/// holds is left behind.
pub fn prepare_child_env(vars: &Vec<(String, String)>) -> (r: Vec<(String, String)>)
    ensures
        keys_ascend(entry_views(r@)),
        forall|j: int|
            0 <= j < r@.len() ==> is_offered(entry_views(vars@), #[trigger] entry_views(r@)[j]),
        forall|entry: (Seq<char>, Seq<char>)| #[trigger]
            is_offered(entry_views(vars@), entry) ==> covers(entry_views(r@), entry),
        entry_views(r@).contains(search_path()),
{
    let mut out: Vec<(String, String)> = Vec::new();
    let ghost all = entry_views(vars@);
    let mut i: usize = 0;
    while i < vars.len()
        invariant
            0 <= i <= vars.len(),
            all == entry_views(vars@),
            keys_ascend(entry_views(out@)),
            forall|j: int|
                0 <= j < out@.len() ==> is_passed_on((#[trigger] entry_views(out@)[j]).0)
                    && all.contains(entry_views(out@)[j]),
            forall|m: int|
                0 <= m < i && is_passed_on((#[trigger] all[m]).0) ==> covers(
                    entry_views(out@),
                    all[m],
                ),
        decreases vars.len() - i,
    {
        if passes_on(vars[i].0.as_str()) {
            let ghost before = entry_views(out@);
            place(&mut out, (vars[i].0.clone(), vars[i].1.clone()));
            proof {
                let after = entry_views(out@);
                assert(all[i as int] == (vars@[i as int].0@, vars@[i as int].1@));
                assert forall|j: int| 0 <= j < after.len() implies is_passed_on(
                    (#[trigger] after[j]).0,
                ) && all.contains(after[j]) by {
                    if after[j] != all[i as int] {
                        let k = choose|k: int| 0 <= k < before.len() && before[k] == after[j];
                        assert(is_passed_on(before[k].0) && all.contains(before[k]));
                    }
                }
                assert forall|m: int| 0 <= m < i + 1 && is_passed_on(
                    (#[trigger] all[m]).0,
                ) implies covers(after, all[m]) by {
                    if m < i {
                        assert(covers(before, all[m]));
                    }
                }
            }
        }
        i += 1;
    }
    let ghost before = entry_views(out@);
    place(
        &mut out,
        (
            String::from_str("PATH"),
            String::from_str("/usr/local/bin:/usr/bin:/bin:/usr/local/sbin:/usr/sbin:/sbin"),
        ),
    );
    proof {
        let after = entry_views(out@);
        lemma_search_path_is_not_passed_on();
        assert forall|j: int| 0 <= j < after.len() implies is_offered(all, #[trigger] after[j]) by {
            if after[j] != search_path() {
                let k = choose|k: int| 0 <= k < before.len() && before[k] == after[j];
                assert(is_passed_on(before[k].0) && all.contains(before[k]));
            }
        }
        assert forall|entry: (Seq<char>, Seq<char>)| #[trigger]
            is_offered(all, entry) implies covers(after, entry) by {
            if entry != search_path() {
                let m = choose|m: int| 0 <= m < all.len() && all[m] == entry;
                assert(covers(before, all[m]));
            }
        }
        let p = choose|p: int|
            0 <= p < after.len() && (#[trigger] after[p]).0 == search_path().0 && text_le(
                search_path().1,
                after[p].1,
            );
        assert(is_offered(all, after[p]));
        assert(after[p] == search_path());
    }
    out
}

} // verus!
