use rustit::plan::{
    batch, clone_banner, multi_commit, multi_fetch, multi_merge, multi_pull, multi_push, multi_status, pull, Job, MergeAction,
    MergeEvent, MergeMachine, MergeStage, Operation, Settings, Step,
};

fn dirs() -> Vec<String> {
    vec!["/r/a".to_string(), "/r/b".to_string()]
}

fn s(t: &str) -> String {
    t.to_string()
}

fn describe(steps: &[Step]) -> Vec<String> {
    steps
        .iter()
        .map(|st| match st {
            Step::Say(t) => format!("say {}", t),
            Step::Pause(n) => format!("pause {}", n),
            Step::Run { job, on_failure } => {
                let j = match job {
                    Job::Fetch { path, ssh_priv, ssh_pub } => format!("fetch {} {} {}", path, ssh_priv, ssh_pub),
                    Job::Merge { path, signature_name, signature_mail } => format!("merge {} {} {}", path, signature_name, signature_mail),
                    Job::Push { path, ssh_priv, ssh_pub } => format!("push {} {} {}", path, ssh_priv, ssh_pub),
                    Job::Status { path } => format!("status {}", path),
                    Job::Commit { path, message, signature_name, signature_mail } => {
                        format!("commit {} [{}] {} {}", path, message, signature_name, signature_mail)
                    }
                };
                match on_failure {
                    Some(m) => format!("{} or stop: {}", j, m),
                    None => j,
                }
            }
        })
        .collect()
}

#[test]
fn pull_fetches_then_merges() {
    let steps = pull(&s("/r/a"), &s("Ann"), &s("ann@x"), &s("/k"), &s("/k.pub"));
    assert_eq!(
        describe(&steps),
        vec!["fetch /r/a /k /k.pub or stop: fetch of pull failed", "merge /r/a Ann ann@x or stop: merge of pull failed"]
    );
}

#[test]
fn batch_of_pulls() {
    let steps = multi_pull(&dirs(), &s("Ann"), &s("ann@x"), &s("/k"), &s("/k.pub"));
    assert_eq!(
        describe(&steps),
        vec![
            "say Repository path : /r/a ...",
            "fetch /r/a /k /k.pub or stop: fetch of pull failed",
            "merge /r/a Ann ann@x or stop: merge of pull failed",
            "say Repository path : /r/b ...",
            "fetch /r/b /k /k.pub or stop: fetch of pull failed",
            "merge /r/b Ann ann@x or stop: merge of pull failed",
            "say ",
            "pause 2",
        ]
    );
}

#[test]
fn other_batches() {
    assert_eq!(
        describe(&multi_push(&dirs(), &s("/k"), &s("/k.pub"))),
        vec!["say Repository path : /r/a ...", "push /r/a /k /k.pub", "say Repository path : /r/b ...", "push /r/b /k /k.pub", "say ", "pause 4"]
    );
    assert_eq!(
        describe(&multi_fetch(&dirs(), &s("/k"), &s("/k.pub"))),
        vec!["say Repository path : /r/a ...", "fetch /r/a /k /k.pub", "say Repository path : /r/b ...", "fetch /r/b /k /k.pub", "say ", "pause 3"]
    );
    assert_eq!(
        describe(&multi_merge(&dirs(), &s("Ann"), &s("ann@x"))),
        vec![
            "say Repository path : /r/a ...",
            "merge /r/a Ann ann@x or stop: merge failed",
            "say Repository path : /r/b ...",
            "merge /r/b Ann ann@x or stop: merge failed",
            "say ",
            "pause 4"
        ]
    );
    assert_eq!(
        describe(&multi_status(&vec![s("/r/a")])),
        vec![
            "say Statuses of repositories are...\n",
            "say Repository path : /r/a ...",
            "status /r/a",
            "say ",
            "say If there is no explaining for repositories. It is probably clean and up-to-date...",
            "say You may check. Just to be sure...",
            "say ",
            "pause 4"
        ]
    );
    assert_eq!(
        describe(&multi_commit(&dirs(), "  tidy up\n", &s("Ann"), &s("ann@x"))),
        vec![
            "say Repository path : /r/a ...",
            "commit /r/a [tidy up] Ann ann@x",
            "say Repository path : /r/b ...",
            "commit /r/b [tidy up] Ann ann@x"
        ]
    );
    assert!(describe(&multi_pull(&vec![], &s("a"), &s("b"), &s("c"), &s("d"))) == vec!["say ", "pause 2"]);
    let settings = Settings { ssh_priv: s("k"), ssh_pub: s("p"), signature_name: s("n"), signature_mail: s("m"), message: s("msg") };
    assert_eq!(describe(&batch(Operation::Commit, &vec![s("/x")], &settings)), vec!["say Repository path : /x ...", "commit /x [msg] n m"]);
}

fn act(a: &MergeAction) -> String {
    match a {
        MergeAction::CheckConflicts => s("check"),
        MergeAction::Commit(m) => format!("commit {}", m),
        MergeAction::MergeFetched => s("merge"),
        MergeAction::Finish { report, success } => format!("finish {:?} {}", report, success),
    }
}

#[test]
fn merge_without_conflicts_commits_then_merges() {
    let mut m = MergeMachine::new();
    assert_eq!(act(&m.step(MergeEvent::Opened(s("/r/a/.git/")))), "check");
    assert_eq!(act(&m.step(MergeEvent::Conflicts(false))), "commit merging origin/master to master");
    assert_eq!(act(&m.step(MergeEvent::Committed(true))), "check");
    assert_eq!(act(&m.step(MergeEvent::Conflicts(false))), "merge");
    assert_eq!(act(&m.step(MergeEvent::Merged(true))), "finish None true");
    assert_eq!(m.stage, MergeStage::Finished);
}

#[test]
fn merge_with_conflicts_reports_them() {
    let mut m = MergeMachine::new();
    m.step(MergeEvent::Opened(s("/r/a/.git/")));
    assert_eq!(act(&m.step(MergeEvent::Conflicts(true))), "check");
    assert_eq!(
        act(&m.step(MergeEvent::Conflicts(true))),
        "finish Some(\"/r/a/.git/ index has conflicts. Resolve them first. Merge failed...\") true"
    );
}

#[test]
fn merge_failures_end_it() {
    let mut m = MergeMachine::new();
    assert_eq!(act(&m.step(MergeEvent::OpenFailed)), "finish None false");
    let mut m = MergeMachine::new();
    m.step(MergeEvent::Opened(s("g")));
    m.step(MergeEvent::Conflicts(false));
    assert_eq!(act(&m.step(MergeEvent::Committed(false))), "finish None false");
    let mut m = MergeMachine::new();
    m.step(MergeEvent::Opened(s("g")));
    m.step(MergeEvent::Conflicts(false));
    m.step(MergeEvent::Committed(true));
    m.step(MergeEvent::Conflicts(false));
    assert_eq!(act(&m.step(MergeEvent::Merged(false))), "finish None false");
}

#[test]
fn clone_announcement() {
    assert_eq!(clone_banner(&s("git@h:x.git"), &s("/tmp/x")), "url  git@h:x.git\npath  /tmp/x");
}
