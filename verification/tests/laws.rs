use rustit::config::load_config;
use rustit::selection::{expand_lists, list_selection};

fn names(v: &[&str]) -> Vec<String> {
    v.iter().map(|s| s.to_string()).collect()
}

const CONF: &str = "repos: {a: /a, b: /b, c: /c}
lists: {ab: [a, b], bc: [b, c], nested: [ab, c]}
ssh_priv: k
ssh_pub: p
signature_name: n
signature_mail: m
";

#[test]
fn expansion_holds_what_requests_bring() {
    let c = load_config(CONF).unwrap();
    let req = names(&["c", "ab", "nested", "bc", "ab", "x"]);
    let mut got = expand_lists(&req, &c, false).names;
    let mut brought = names(&["c", "a", "b", "ab", "c", "b", "c", "a", "b", "x"]);
    got.sort();
    brought.sort();
    assert_eq!(got, brought);
}

#[test]
fn listing_without_all_shows_each_name_once() {
    let c = load_config(CONF).unwrap();
    let l = list_selection(&names(&["ab", "bc", "a", "ab"]), &c);
    assert_eq!(l.names, names(&["a", "b", "c"]));
    let mut sorted = l.names.clone();
    sorted.dedup();
    assert_eq!(sorted.len(), l.names.len());
}

#[test]
fn listing_dedup_is_stable_under_repetition() {
    let c = load_config(CONF).unwrap();
    let once = list_selection(&names(&["c", "b", "c", "a"]), &c).names;
    let twice = list_selection(&once, &c).names;
    assert_eq!(once, names(&["c", "b", "a"]));
    assert_eq!(once, twice);
}
