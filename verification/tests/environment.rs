use openvpn_netns_tools::environment::{compare_bytes, prepare_child_env, Order};

const SEARCH_PATH: &str = "/usr/local/bin:/usr/bin:/bin:/usr/local/sbin:/usr/sbin:/sbin";

fn pairs(entries: &[(&str, &str)]) -> Vec<(String, String)> {
    entries.iter().map(|(k, v)| (String::from(*k), String::from(*v))).collect()
}

#[test]
fn only_the_allowed_variables_are_passed_on() {
    let vars = pairs(&[
        ("HOME", "/root"),
        ("TERM", "xterm"),
        ("LD_PRELOAD", "/tmp/evil.so"),
        ("TZ", "UTC"),
        ("USER", "root"),
        ("LANG", "en_US.UTF-8"),
        ("LC_ALL", "C"),
        ("TMPDIR", "/tmp"),
    ]);
    assert_eq!(
        prepare_child_env(&vars),
        pairs(&[
            ("LANG", "en_US.UTF-8"),
            ("LC_ALL", "C"),
            ("PATH", SEARCH_PATH),
            ("TERM", "xterm"),
            ("TZ", "UTC"),
        ])
    );
}

#[test]
fn search_path_is_fixed_whatever_was_inherited() {
    let vars = pairs(&[("PATH", "/tmp/evil:/usr/bin")]);
    assert_eq!(prepare_child_env(&vars), pairs(&[("PATH", SEARCH_PATH)]));
}

#[test]
fn empty_environment_gets_the_search_path() {
    assert_eq!(prepare_child_env(&Vec::new()), pairs(&[("PATH", SEARCH_PATH)]));
}

#[test]
fn every_locale_variable_is_passed_on() {
    let vars = pairs(&[("LC_TIME", "de"), ("LC_", "x"), ("LC_COLLATE", "C"), ("LC", "no")]);
    assert_eq!(
        prepare_child_env(&vars),
        pairs(&[("LC_", "x"), ("LC_COLLATE", "C"), ("LC_TIME", "de"), ("PATH", SEARCH_PATH)])
    );
}

#[test]
fn names_that_only_resemble_allowed_ones_are_dropped() {
    let vars = pairs(&[
        ("TERMINFO", "/lib"),
        ("term", "x"),
        ("TZDIR", "/usr"),
        ("LANGUAGE", "en"),
        ("lc_all", "C"),
        ("XLC_ALL", "C"),
        ("", "empty"),
        ("T", "t"),
    ]);
    assert_eq!(prepare_child_env(&vars), pairs(&[("PATH", SEARCH_PATH)]));
}

#[test]
fn result_is_in_the_order_of_the_standard_library() {
    let vars = pairs(&[
        ("TZ", "b"),
        ("LC_b", "2"),
        ("LC_B", "1"),
        ("TERM", "z"),
        ("LC_\u{e9}", "3"),
        ("LANG", "c"),
        ("LC_a", "0"),
        ("LC_", ""),
        ("LC_ab", "4"),
    ]);
    let mut expected: Vec<(String, String)> = vars.clone();
    expected.push((String::from("PATH"), String::from(SEARCH_PATH)));
    expected.sort();
    assert_eq!(prepare_child_env(&vars), expected);
}

#[test]
fn variable_named_twice_is_passed_on_once() {
    let vars = pairs(&[("TERM", "b"), ("TERM", "a"), ("TERM", "ab")]);
    assert_eq!(prepare_child_env(&vars), pairs(&[("PATH", SEARCH_PATH), ("TERM", "b")]));
    let vars = pairs(&[("TZ", "a"), ("LANG", "x"), ("TZ", "c"), ("TZ", "b"), ("LANG", "x")]);
    assert_eq!(
        prepare_child_env(&vars),
        pairs(&[("LANG", "x"), ("PATH", SEARCH_PATH), ("TZ", "c")])
    );
}

#[test]
fn child_sees_what_the_last_setting_of_a_variable_would_give() {
    let vars = pairs(&[("LC_ALL", "C"), ("TERM", "vt100"), ("LC_ALL", "de_DE"), ("TERM", "ansi")]);
    let mut in_order = vars.clone();
    in_order.push((String::from("PATH"), String::from(SEARCH_PATH)));
    in_order.sort();
    let mut seen = std::collections::BTreeMap::new();
    for (k, v) in in_order {
        seen.insert(k, v);
    }
    let expected: Vec<(String, String)> = seen.into_iter().collect();
    assert_eq!(prepare_child_env(&vars), expected);
}

#[test]
fn no_key_occurs_twice() {
    let vars = pairs(&[("LC_A", "1"), ("LC_A", "1"), ("LC_A", "2"), ("LC_B", "1"), ("LC_A", "0")]);
    let env = prepare_child_env(&vars);
    for i in 1..env.len() {
        assert!(env[i - 1].0 < env[i].0);
    }
    assert_eq!(env.len(), 3);
}

#[test]
fn input_is_left_as_it_was() {
    let vars = pairs(&[("TZ", "UTC"), ("HOME", "/root")]);
    let copy = vars.clone();
    prepare_child_env(&vars);
    assert_eq!(vars, copy);
}

#[test]
fn bytes_compare_like_in_a_dictionary() {
    assert_eq!(compare_bytes(b"", b""), Order::Same);
    assert_eq!(compare_bytes(b"abc", b"abc"), Order::Same);
    assert_eq!(compare_bytes(b"", b"a"), Order::Before);
    assert_eq!(compare_bytes(b"a", b""), Order::After);
    assert_eq!(compare_bytes(b"ab", b"abc"), Order::Before);
    assert_eq!(compare_bytes(b"abc", b"ab"), Order::After);
    assert_eq!(compare_bytes(b"abc", b"abd"), Order::Before);
    assert_eq!(compare_bytes(b"b", b"abc"), Order::After);
    assert_eq!(compare_bytes(&[0x7f], &[0x80]), Order::Before);
    assert_eq!(compare_bytes(&[0xff], &[0x00, 0x01]), Order::After);
}
