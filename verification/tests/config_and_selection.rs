use rustit::config::{config_from_documents, load_config, ConfigError, RepoConfig, YamlNode};
use rustit::selection::{exec_selection, expand_lists, find_entry, list_selection};

const CONF: &str = "repos:
  alpha: /src/alpha
  beta: /src/beta
  gamma: /src/gamma
lists:
  pair: [alpha, beta]
  solo:
    - gamma
ssh_priv: /keys/id
ssh_pub: /keys/id.pub
signature_name: Ann
signature_mail: ann@example.org
";

fn names(v: &[&str]) -> Vec<String> {
    v.iter().map(|s| s.to_string()).collect()
}

fn config() -> RepoConfig {
    load_config(CONF).expect("configuration")
}

#[test]
fn reads_configuration() {
    let c = config();
    assert_eq!(
        c.repos,
        vec![
            ("alpha".to_string(), "/src/alpha".to_string()),
            ("beta".to_string(), "/src/beta".to_string()),
            ("gamma".to_string(), "/src/gamma".to_string()),
        ]
    );
    assert_eq!(c.lists, vec![("pair".to_string(), names(&["alpha", "beta"])), ("solo".to_string(), names(&["gamma"]))]);
    assert_eq!(c.ssh_priv, "/keys/id");
    assert_eq!(c.ssh_pub, "/keys/id.pub");
    assert_eq!(c.signature_name, "Ann");
    assert_eq!(c.signature_mail, "ann@example.org");
}

#[test]
fn list_that_is_not_a_sequence_has_no_members() {
    let text = CONF.replace("  solo:\n    - gamma\n", "  solo: gamma\n");
    let c = load_config(&text).unwrap();
    assert_eq!(c.lists[1], ("solo".to_string(), Vec::<String>::new()));
}

fn err_of(text: &str) -> ConfigError {
    match load_config(text) {
        Ok(_) => panic!("expected an error"),
        Err(e) => e,
    }
}

#[test]
fn configuration_errors() {
    assert!(matches!(err_of("repos: [unclosed"), ConfigError::Malformed(_)));
    assert!(matches!(err_of(""), ConfigError::NoDocument));
    assert!(matches!(err_of("lists: {}\n"), ConfigError::ReposNotMapping));
    assert!(matches!(err_of("repos: {1: /x}\nlists: {}\n"), ConfigError::RepoNameNotText));
    assert!(matches!(err_of("repos: {a: 3}\nlists: {}\n"), ConfigError::RepoPathNotText));
    assert!(matches!(err_of("repos: {a: /x}\n"), ConfigError::ListsNotMapping));
    assert!(matches!(err_of("repos: {a: /x}\nlists: {l: [a, 2]}\n"), ConfigError::ListMemberNotText));
    assert!(matches!(err_of("repos: {a: /x}\nlists: {7: [a]}\n"), ConfigError::ListNameNotText));
    assert!(matches!(err_of("repos: {a: /x}\nlists: {7: [3]}\n"), ConfigError::ListMemberNotText));
    assert!(matches!(err_of("repos: {}\nlists: {}\n"), ConfigError::MissingSshPrivateKey));
    assert!(matches!(err_of("repos: {}\nlists: {}\nssh_priv: k\n"), ConfigError::MissingSshPublicKey));
    assert!(matches!(err_of("repos: {}\nlists: {}\nssh_priv: k\nssh_pub: p\n"), ConfigError::MissingSignatureName));
    assert!(matches!(
        err_of("repos: {}\nlists: {}\nssh_priv: k\nssh_pub: p\nsignature_name: n\nsignature_mail: 5\n"),
        ConfigError::MissingSignatureMail
    ));
}

#[test]
fn later_entry_with_same_name_replaces_earlier_in_place() {
    let s = |t: &str| YamlNode::Str(t.to_string());
    let doc = YamlNode::Hash(vec![
        (s("repos"), YamlNode::Hash(vec![(s("a"), s("/1")), (s("b"), s("/2")), (s("a"), s("/3"))])),
        (s("lists"), YamlNode::Hash(vec![])),
        (s("ssh_priv"), s("k")),
        (s("ssh_pub"), s("p")),
        (s("signature_name"), s("n")),
        (s("signature_mail"), s("m")),
    ]);
    let c = config_from_documents(&vec![doc]).unwrap();
    assert_eq!(c.repos, vec![("a".to_string(), "/3".to_string()), ("b".to_string(), "/2".to_string())]);
    assert_eq!(find_entry(&c.repos, &"a".to_string()), Some(&"/3".to_string()));
    assert_eq!(find_entry(&c.repos, &"c".to_string()), None);
}

#[test]
fn expansion_replaces_list_names_by_members() {
    let c = config();
    let e = expand_lists(&names(&["gamma", "pair", "alpha"]), &c, false);
    assert_eq!(e.names, names(&["gamma", "alpha", "alpha", "beta"]));
    assert_eq!(e.notes, names(&["deleting pair", "found a list : pair"]));
    let e = expand_lists(&names(&["pair", "solo", "pair"]), &c, true);
    assert_eq!(e.names, names(&["alpha", "beta", "gamma", "alpha", "beta"]));
    assert_eq!(e.notes.len(), 2 * 3 + 2 + 1 + 2);
    assert_eq!(e.notes[2], "these are the contents\"pair\"");
}

#[test]
fn members_that_are_lists_stay_unexpanded() {
    let text = CONF.replace("  solo:\n    - gamma\n", "  solo:\n    - pair\n");
    let c = load_config(&text).unwrap();
    let e = expand_lists(&names(&["solo"]), &c, false);
    assert_eq!(e.names, names(&["pair"]));
    let e = expand_lists(&names(&["solo", "pair"]), &c, false);
    assert_eq!(e.names, names(&["pair", "alpha", "beta"]));
}

#[test]
fn listing_with_unknown_and_duplicates() {
    let c = config();
    let l = list_selection(&names(&["alpha", "pair", "nope"]), &c);
    assert_eq!(l.names, names(&["alpha", "nope", "beta"]));
    assert_eq!(
        l.lines,
        vec![
            "Path for alpha is :  \n/src/alpha\n-----------------------------------".to_string(),
            "\nNo repository found with name nope\n-----------------------------------".to_string(),
            "Path for beta is :  \n/src/beta\n-----------------------------------".to_string(),
        ]
    );
}

#[test]
fn listing_all_appends_every_repository() {
    let c = config();
    let l = list_selection(&names(&["all"]), &c);
    assert_eq!(l.names, names(&["all", "alpha", "beta", "gamma"]));
    assert!(l.lines[0].starts_with("\nNo repository found with name all"));
    let l = list_selection(&names(&["beta", "all"]), &c);
    assert_eq!(l.names, names(&["beta", "all", "alpha", "beta", "gamma"]));
}

#[test]
fn exec_plan_splits_command_and_targets() {
    let c = config();
    let p = exec_selection(&names(&["solo", "beta", "ghost"]), &names(&["git", "log", "-1"]), &c);
    assert_eq!(p.program, "git");
    assert_eq!(p.arguments, names(&["log", "-1"]));
    let t: Vec<(String, Option<String>)> = p.targets.iter().map(|t| (t.name.clone(), t.path.clone())).collect();
    assert_eq!(
        t,
        vec![
            ("beta".to_string(), Some("/src/beta".to_string())),
            ("ghost".to_string(), None),
            ("gamma".to_string(), Some("/src/gamma".to_string())),
        ]
    );
    assert_eq!(p.notes, names(&["deleting solo", "found a list : solo", "these are the contents\"solo\""]));
}
