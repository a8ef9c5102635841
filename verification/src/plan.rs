//! Plans of git work over repositories: the jobs to run in order, what to
//! say between them and which failures end the run.

use vstd::prelude::*;

verus! {

/// One piece of git work on one repository.
pub enum Job {
    /// Download from `origin` and update the remote-tracking references.
    Fetch { path: String, ssh_priv: String, ssh_pub: String },
    /// Merge the fetched head into the current branch.
    Merge { path: String, signature_name: String, signature_mail: String },
    /// Push `master` to `origin`.
    Push { path: String, ssh_priv: String, ssh_pub: String },
    /// Print the long status report.
    Status { path: String },
    /// Stage everything and commit it with `message`.
    Commit { path: String, message: String, signature_name: String, signature_mail: String },
}

/// One step of a plan.
pub enum Step {
    /// Print a line.
    Say(String),
    /// Run a job; when it fails and `on_failure` holds a message, stop the
    /// whole run with that message, else go on.
    Run { job: Job, on_failure: Option<String> },
    /// Wait this many seconds.
    Pause(u64),
}

pub enum JobView {
    Fetch { path: Seq<char>, ssh_priv: Seq<char>, ssh_pub: Seq<char> },
    Merge { path: Seq<char>, signature_name: Seq<char>, signature_mail: Seq<char> },
    Push { path: Seq<char>, ssh_priv: Seq<char>, ssh_pub: Seq<char> },
    Status { path: Seq<char> },
    Commit { path: Seq<char>, message: Seq<char>, signature_name: Seq<char>, signature_mail: Seq<char> },
}

pub enum StepView {
    Say(Seq<char>),
    Run { job: JobView, on_failure: Option<Seq<char>> },
    Pause(u64),
}

impl View for Job {
    type V = JobView;

    open spec fn view(&self) -> JobView {
        match self {
            Job::Fetch { path, ssh_priv, ssh_pub } => JobView::Fetch {
                path: path@,
                ssh_priv: ssh_priv@,
                ssh_pub: ssh_pub@,
            },
            Job::Merge { path, signature_name, signature_mail } => JobView::Merge {
                path: path@,
                signature_name: signature_name@,
                signature_mail: signature_mail@,
            },
            Job::Push { path, ssh_priv, ssh_pub } => JobView::Push {
                path: path@,
                ssh_priv: ssh_priv@,
                ssh_pub: ssh_pub@,
            },
            Job::Status { path } => JobView::Status { path: path@ },
            Job::Commit { path, message, signature_name, signature_mail } => JobView::Commit {
                path: path@,
                message: message@,
                signature_name: signature_name@,
                signature_mail: signature_mail@,
            },
        }
    }
}

impl View for Step {
    type V = StepView;

    open spec fn view(&self) -> StepView {
        match self {
            Step::Say(s) => StepView::Say(s@),
            Step::Run { job, on_failure } => StepView::Run {
                job: job@,
                on_failure: match on_failure {
                    Some(m) => Some(m@),
                    None => None,
                },
            },
            Step::Pause(n) => StepView::Pause(*n),
        }
    }
}

pub open spec fn steps_view(v: Seq<Step>) -> Seq<StepView> {
    v.map_values(|s: Step| s@)
}

/// The steps of a pull: fetch, then merge; either failing ends the run.
pub open spec fn pull_spec(
    path: Seq<char>,
    signature_name: Seq<char>,
    signature_mail: Seq<char>,
    ssh_priv: Seq<char>,
    ssh_pub: Seq<char>,
) -> Seq<StepView> {
    seq![
        StepView::Run {
            job: JobView::Fetch { path, ssh_priv, ssh_pub },
            on_failure: Some("fetch of pull failed"@),
        },
        StepView::Run {
            job: JobView::Merge { path, signature_name, signature_mail },
            on_failure: Some("merge of pull failed"@),
        },
    ]
}

fn push_step(steps: &mut Vec<Step>, s: Step)
    ensures
        steps_view(final(steps)@) == steps_view(old(steps)@).push(s@),
{
    steps.push(s);
    assert(steps_view(steps@) =~= steps_view(old(steps)@).push(s@));
}

/// Pulls one repository: fetch from `origin`, then merge what was fetched.
pub fn pull(path: &String, sign_name: &String, sign_mail: &String, ssh_priv: &String, ssh_pub: &String) -> (steps: Vec<Step>)
    ensures
        steps_view(steps@) == pull_spec(path@, sign_name@, sign_mail@, ssh_priv@, ssh_pub@),
{
    let mut steps: Vec<Step> = Vec::new();
    push_step(&mut steps, Step::Run {
        job: Job::Fetch { path: path.clone(), ssh_priv: ssh_priv.clone(), ssh_pub: ssh_pub.clone() },
        on_failure: Some(String::from_str("fetch of pull failed")),
    });
    push_step(&mut steps, Step::Run {
        job: Job::Merge { path: path.clone(), signature_name: sign_name.clone(), signature_mail: sign_mail.clone() },
        on_failure: Some(String::from_str("merge of pull failed")),
    });
    assert(steps_view(steps@) =~= pull_spec(path@, sign_name@, sign_mail@, ssh_priv@, ssh_pub@));
    steps
}

/// The work that a batch does in each repository.
#[derive(Clone, Copy, PartialEq, Eq, Structural, Debug)]
pub enum Operation {
    Pull,
    Push,
    Fetch,
    Merge,
    Status,
    Commit,
}

/// The keys and the signature that jobs use, and the commit message.
pub struct Settings {
    pub ssh_priv: String,
    pub ssh_pub: String,
    pub signature_name: String,
    pub signature_mail: String,
    pub message: String,
}

pub struct SettingsView {
    pub ssh_priv: Seq<char>,
    pub ssh_pub: Seq<char>,
    pub signature_name: Seq<char>,
    pub signature_mail: Seq<char>,
    pub message: Seq<char>,
}

impl View for Settings {
    type V = SettingsView;

    open spec fn view(&self) -> SettingsView {
        SettingsView {
            ssh_priv: self.ssh_priv@,
            ssh_pub: self.ssh_pub@,
            signature_name: self.signature_name@,
            signature_mail: self.signature_mail@,
            message: self.message@,
        }
    }
}

/// The line that announces a repository.
pub open spec fn dir_header(dir: Seq<char>) -> Seq<char> {
    "Repository path : "@ + dir + " ..."@
}

/// The steps for one repository: its announcement, then its job.
pub open spec fn dir_steps(op: Operation, dir: Seq<char>, s: SettingsView) -> Seq<StepView> {
    seq![StepView::Say(dir_header(dir))] + match op {
        Operation::Pull => pull_spec(dir, s.signature_name, s.signature_mail, s.ssh_priv, s.ssh_pub),
        Operation::Push => seq![StepView::Run {
            job: JobView::Push { path: dir, ssh_priv: s.ssh_priv, ssh_pub: s.ssh_pub },
            on_failure: None,
        }],
        Operation::Fetch => seq![StepView::Run {
            job: JobView::Fetch { path: dir, ssh_priv: s.ssh_priv, ssh_pub: s.ssh_pub },
            on_failure: None,
        }],
        Operation::Merge => seq![StepView::Run {
            job: JobView::Merge { path: dir, signature_name: s.signature_name, signature_mail: s.signature_mail },
            on_failure: Some("merge failed"@),
        }],
        Operation::Status => seq![StepView::Run { job: JobView::Status { path: dir }, on_failure: None }],
        Operation::Commit => seq![StepView::Run {
            job: JobView::Commit {
                path: dir,
                message: s.message,
                signature_name: s.signature_name,
                signature_mail: s.signature_mail,
            },
            on_failure: None,
        }],
    }
}

/// The steps for every repository, in order.
pub open spec fn over_dirs(op: Operation, dirs: Seq<Seq<char>>, s: SettingsView) -> Seq<StepView>
    decreases dirs.len(),
{
    if dirs.len() == 0 {
        Seq::empty()
    } else {
        over_dirs(op, dirs.drop_last(), s) + dir_steps(op, dirs.last(), s)
    }
}

/// What a batch says before its repositories.
pub open spec fn batch_opening(op: Operation) -> Seq<StepView> {
    match op {
        Operation::Status => seq![StepView::Say("Statuses of repositories are...\n"@)],
        _ => Seq::empty(),
    }
}

/// What a batch says and waits after its repositories.
pub open spec fn batch_closing(op: Operation) -> Seq<StepView> {
    match op {
        Operation::Pull => seq![StepView::Say(""@), StepView::Pause(2)],
        Operation::Push => seq![StepView::Say(""@), StepView::Pause(4)],
        Operation::Fetch => seq![StepView::Say(""@), StepView::Pause(3)],
        Operation::Merge => seq![StepView::Say(""@), StepView::Pause(4)],
        Operation::Status => seq![
            StepView::Say(""@),
            StepView::Say("If there is no explaining for repositories. It is probably clean and up-to-date..."@),
            StepView::Say("You may check. Just to be sure..."@),
            StepView::Say(""@),
            StepView::Pause(4),
        ],
        Operation::Commit => Seq::empty(),
    }
}

/// The whole batch.
pub open spec fn batch_spec(op: Operation, dirs: Seq<Seq<char>>, s: SettingsView) -> Seq<StepView> {
    batch_opening(op) + over_dirs(op, dirs, s) + batch_closing(op)
}

fn say(text: &str) -> (st: Step)
    ensures
        st@ == StepView::Say(text@),
{
    Step::Say(String::from_str(text))
}

fn add_dir_steps(steps: &mut Vec<Step>, op: &Operation, dir: &String, s: &Settings)
    ensures
        steps_view(final(steps)@) == steps_view(old(steps)@) + dir_steps(*op, dir@, s@),
{
    let mut header = String::from_str("Repository path : ");
    header.append(dir.as_str());
    header.append(" ...");
    push_step(steps, Step::Say(header));
    let ghost mid = steps_view(steps@);
    match op {
        Operation::Pull => {
            let mut more = pull(dir, &s.signature_name, &s.signature_mail, &s.ssh_priv, &s.ssh_pub);
            let ghost mv = more@;
            steps.append(&mut more);
            assert(steps_view(steps@) =~= mid + steps_view(mv));
        },
        Operation::Push => {
            push_step(steps, Step::Run {
                job: Job::Push { path: dir.clone(), ssh_priv: s.ssh_priv.clone(), ssh_pub: s.ssh_pub.clone() },
                on_failure: None,
            });
        },
        Operation::Fetch => {
            push_step(steps, Step::Run {
                job: Job::Fetch { path: dir.clone(), ssh_priv: s.ssh_priv.clone(), ssh_pub: s.ssh_pub.clone() },
                on_failure: None,
            });
        },
        Operation::Merge => {
            push_step(steps, Step::Run {
                job: Job::Merge {
                    path: dir.clone(),
                    signature_name: s.signature_name.clone(),
                    signature_mail: s.signature_mail.clone(),
                },
                on_failure: Some(String::from_str("merge failed")),
            });
        },
        Operation::Status => {
            push_step(steps, Step::Run { job: Job::Status { path: dir.clone() }, on_failure: None });
        },
        Operation::Commit => {
            push_step(steps, Step::Run {
                job: Job::Commit {
                    path: dir.clone(),
                    message: s.message.clone(),
                    signature_name: s.signature_name.clone(),
                    signature_mail: s.signature_mail.clone(),
                },
                on_failure: None,
            });
        },
    }
    assert(steps_view(steps@) =~= steps_view(old(steps)@) + dir_steps(*op, dir@, s@));
}

/// The plan of a batch over several repositories: announce and work on each
/// in turn, then say and wait what the operation calls for.
pub fn batch(op: Operation, dirs: &Vec<String>, s: &Settings) -> (steps: Vec<Step>)
    ensures
        steps_view(steps@) == batch_spec(op, dirs.deep_view(), s@),
{
    let mut steps: Vec<Step> = Vec::new();
    match op {
        Operation::Status => push_step(&mut steps, say("Statuses of repositories are...\n")),
        _ => {},
    }
    let ghost start = steps_view(steps@);
    assert(start =~= batch_opening(op));
    let mut i: usize = 0;
    while i < dirs.len()
        invariant
            i <= dirs@.len(),
            steps_view(steps@) == start + over_dirs(op, dirs.deep_view().take(i as int), s@),
        decreases dirs@.len() - i,
    {
        add_dir_steps(&mut steps, &op, &dirs[i], s);
        assert(dirs.deep_view().take(i + 1).drop_last() =~= dirs.deep_view().take(i as int));
        assert(steps_view(steps@) =~= start + over_dirs(op, dirs.deep_view().take(i + 1), s@));
        i = i + 1;
    }
    assert(dirs.deep_view().take(i as int) =~= dirs.deep_view());
    let ghost body = steps_view(steps@);
    match op {
        Operation::Pull => {
            push_step(&mut steps, say(""));
            push_step(&mut steps, Step::Pause(2));
        },
        Operation::Push => {
            push_step(&mut steps, say(""));
            push_step(&mut steps, Step::Pause(4));
        },
        Operation::Fetch => {
            push_step(&mut steps, say(""));
            push_step(&mut steps, Step::Pause(3));
        },
        Operation::Merge => {
            push_step(&mut steps, say(""));
            push_step(&mut steps, Step::Pause(4));
        },
        Operation::Status => {
            push_step(&mut steps, say(""));
            push_step(&mut steps, say("If there is no explaining for repositories. It is probably clean and up-to-date..."));
            push_step(&mut steps, say("You may check. Just to be sure..."));
            push_step(&mut steps, say(""));
            push_step(&mut steps, Step::Pause(4));
        },
        Operation::Commit => {},
    }
    assert(steps_view(steps@) =~= body + batch_closing(op));
    steps
}


fn copy_settings(s: &Settings) -> (r: Settings)
    ensures
        r@ == s@,
{
    Settings {
        ssh_priv: s.ssh_priv.clone(),
        ssh_pub: s.ssh_pub.clone(),
        signature_name: s.signature_name.clone(),
        signature_mail: s.signature_mail.clone(),
        message: s.message.clone(),
    }
}

fn settings(ssh_priv: &String, ssh_pub: &String, signature_name: &String, signature_mail: &String, message: &String) -> (r: Settings)
    ensures
        r@ == (SettingsView {
            ssh_priv: ssh_priv@,
            ssh_pub: ssh_pub@,
            signature_name: signature_name@,
            signature_mail: signature_mail@,
            message: message@,
        }),
{
    copy_settings(&Settings {
        ssh_priv: ssh_priv.clone(),
        ssh_pub: ssh_pub.clone(),
        signature_name: signature_name.clone(),
        signature_mail: signature_mail.clone(),
        message: message.clone(),
    })
}

/// Pulls every repository in turn; a failed fetch or merge ends the run.
pub fn multi_pull(dirs: &Vec<String>, sign_name: &String, sign_mail: &String, ssh_priv: &String, ssh_pub: &String) -> (steps: Vec<Step>)
    ensures
        steps_view(steps@) == batch_spec(
            Operation::Pull,
            dirs.deep_view(),
            SettingsView {
                ssh_priv: ssh_priv@,
                ssh_pub: ssh_pub@,
                signature_name: sign_name@,
                signature_mail: sign_mail@,
                message: ""@,
            },
        ),
{
    let empty = String::from_str("");
    batch(Operation::Pull, dirs, &settings(ssh_priv, ssh_pub, sign_name, sign_mail, &empty))
}

/// Pushes every repository in turn; failures are passed over.
pub fn multi_push(dirs: &Vec<String>, ssh_priv: &String, ssh_pub: &String) -> (steps: Vec<Step>)
    ensures
        steps_view(steps@) == batch_spec(
            Operation::Push,
            dirs.deep_view(),
            SettingsView { ssh_priv: ssh_priv@, ssh_pub: ssh_pub@, signature_name: ""@, signature_mail: ""@, message: ""@ },
        ),
{
    let empty = String::from_str("");
    batch(Operation::Push, dirs, &settings(ssh_priv, ssh_pub, &empty, &empty, &empty))
}

/// Fetches every repository in turn; failures are passed over.
pub fn multi_fetch(dirs: &Vec<String>, ssh_priv: &String, ssh_public: &String) -> (steps: Vec<Step>)
    ensures
        steps_view(steps@) == batch_spec(
            Operation::Fetch,
            dirs.deep_view(),
            SettingsView { ssh_priv: ssh_priv@, ssh_pub: ssh_public@, signature_name: ""@, signature_mail: ""@, message: ""@ },
        ),
{
    let empty = String::from_str("");
    batch(Operation::Fetch, dirs, &settings(ssh_priv, ssh_public, &empty, &empty, &empty))
}

/// Merges every repository in turn; a failed merge ends the run.
pub fn multi_merge(dirs: &Vec<String>, sign_name: &String, sign_mail: &String) -> (steps: Vec<Step>)
    ensures
        steps_view(steps@) == batch_spec(
            Operation::Merge,
            dirs.deep_view(),
            SettingsView { ssh_priv: ""@, ssh_pub: ""@, signature_name: sign_name@, signature_mail: sign_mail@, message: ""@ },
        ),
{
    let empty = String::from_str("");
    batch(Operation::Merge, dirs, &settings(&empty, &empty, sign_name, sign_mail, &empty))
}

/// Reports the status of every repository in turn.
pub fn multi_status(dirs: &Vec<String>) -> (steps: Vec<Step>)
    ensures
        steps_view(steps@) == batch_spec(
            Operation::Status,
            dirs.deep_view(),
            SettingsView { ssh_priv: ""@, ssh_pub: ""@, signature_name: ""@, signature_mail: ""@, message: ""@ },
        ),
{
    let empty = String::from_str("");
    batch(Operation::Status, dirs, &settings(&empty, &empty, &empty, &empty, &empty))
}

/// `part` stands in `whole` as a contiguous run of characters.
pub open spec fn is_infix(part: Seq<char>, whole: Seq<char>) -> bool {
    exists|i: int| 0 <= i && i + part.len() <= whole.len() && #[trigger] whole.subrange(i, i + part.len()) == part
}

/// What trimming leaves of a text.
pub uninterp spec fn trimmed(s: Seq<char>) -> Seq<char>;

/// `str::trim`: the text without its leading and trailing white space, which
/// is a contiguous part of it. Which characters count as white space is not
/// stated.
#[verifier::external_body]
fn trim_text(s: &str) -> (r: String)
    ensures
        r@ == trimmed(s@),
        is_infix(r@, s@),
{
    s.trim().to_string()
}

/// Commits every repository in turn with the message typed by the user,
/// trimmed; failures are passed over.
pub fn multi_commit(dirs: &Vec<String>, typed_message: &str, sign_name: &String, sign_mail: &String) -> (steps: Vec<Step>)
    ensures
        steps_view(steps@) == batch_spec(
            Operation::Commit,
            dirs.deep_view(),
            SettingsView {
                ssh_priv: ""@,
                ssh_pub: ""@,
                signature_name: sign_name@,
                signature_mail: sign_mail@,
                message: trimmed(typed_message@),
            },
        ),
{
    let empty = String::from_str("");
    let message = trim_text(typed_message);
    batch(Operation::Commit, dirs, &settings(&empty, &empty, sign_name, sign_mail, &message))
}

/// Where a merge stands.
#[derive(Clone, Copy, PartialEq, Eq, Structural, Debug)]
pub enum MergeStage {
    /// The repository is being opened.
    Start,
    /// The index is checked for conflicts before committing.
    FirstCheck,
    /// The pending work is being committed.
    Committing,
    /// The index is checked for conflicts again.
    SecondCheck,
    /// The fetched head is being merged and the branch reset to it.
    Merging,
    /// The merge is over.
    Finished,
}

/// What the git side reports back to the merge.
pub enum MergeEvent {
    /// The repository opened; its git directory, as displayed.
    Opened(String),
    /// The repository could not be opened.
    OpenFailed,
    /// Whether the index has conflicts.
    Conflicts(bool),
    /// Whether the commit succeeded.
    Committed(bool),
    /// Whether merging the fetched head and resetting succeeded.
    Merged(bool),
}

/// What the merge asks the git side to do next.
pub enum MergeAction {
    /// Check the index for conflicts.
    CheckConflicts,
    /// Stage everything and commit it with this message.
    Commit(String),
    /// Merge the fetched head, clean up and reset the branch to `origin/master`.
    MergeFetched,
    /// Stop; print `report` if there is one; the merge succeeded or failed.
    Finish { report: Option<String>, success: bool },
}

pub enum MergeActionView {
    CheckConflicts,
    Commit(Seq<char>),
    MergeFetched,
    Finish { report: Option<Seq<char>>, success: bool },
}

impl View for MergeAction {
    type V = MergeActionView;

    open spec fn view(&self) -> MergeActionView {
        match self {
            MergeAction::CheckConflicts => MergeActionView::CheckConflicts,
            MergeAction::Commit(m) => MergeActionView::Commit(m@),
            MergeAction::MergeFetched => MergeActionView::MergeFetched,
            MergeAction::Finish { report, success } => MergeActionView::Finish {
                report: match report {
                    Some(r) => Some(r@),
                    None => None,
                },
                success: *success,
            },
        }
    }
}

/// A merge in progress: where it stands and the repository's git directory.
pub struct MergeMachine {
    pub stage: MergeStage,
    pub git_dir: String,
}

/// Whether the event answers what the merge asked for at this stage.
pub open spec fn answers(stage: MergeStage, ev: MergeEvent) -> bool {
    match stage {
        MergeStage::Start => ev is Opened || ev is OpenFailed,
        MergeStage::FirstCheck => ev is Conflicts,
        MergeStage::Committing => ev is Committed,
        MergeStage::SecondCheck => ev is Conflicts,
        MergeStage::Merging => ev is Merged,
        MergeStage::Finished => false,
    }
}

pub open spec fn conflict_report(git_dir: Seq<char>) -> Seq<char> {
    git_dir + " index has conflicts. Resolve them first. Merge failed..."@
}

/// The next stage and action of a merge. Work is committed only when the
/// first check finds no conflicts; the fetched head is merged only when the
/// second check finds none; conflicts at the second check end the merge,
/// reported, without failing it; any failure of git ends it as failed.
pub open spec fn merge_next(stage: MergeStage, git_dir: Seq<char>, ev: MergeEvent) -> (MergeStage, MergeActionView) {
    match (stage, ev) {
        (MergeStage::Start, MergeEvent::Opened(_)) => (MergeStage::FirstCheck, MergeActionView::CheckConflicts),
        (MergeStage::FirstCheck, MergeEvent::Conflicts(false)) => (
            MergeStage::Committing,
            MergeActionView::Commit("merging origin/master to master"@),
        ),
        (MergeStage::FirstCheck, MergeEvent::Conflicts(true)) => (MergeStage::SecondCheck, MergeActionView::CheckConflicts),
        (MergeStage::Committing, MergeEvent::Committed(true)) => (MergeStage::SecondCheck, MergeActionView::CheckConflicts),
        (MergeStage::SecondCheck, MergeEvent::Conflicts(true)) => (
            MergeStage::Finished,
            MergeActionView::Finish { report: Some(conflict_report(git_dir)), success: true },
        ),
        (MergeStage::SecondCheck, MergeEvent::Conflicts(false)) => (MergeStage::Merging, MergeActionView::MergeFetched),
        (MergeStage::Merging, MergeEvent::Merged(ok)) => (
            MergeStage::Finished,
            MergeActionView::Finish { report: None, success: ok },
        ),
        _ => (MergeStage::Finished, MergeActionView::Finish { report: None, success: false }),
    }
}

impl MergeMachine {
    /// A merge about to open its repository.
    pub fn new() -> (m: MergeMachine)
        ensures
            m.stage == MergeStage::Start,
            m.git_dir@ == Seq::<char>::empty(),
    {
        MergeMachine { stage: MergeStage::Start, git_dir: String::new() }
    }

    /// Takes in what the git side reports and says what to do next.
    pub fn step(&mut self, ev: MergeEvent) -> (act: MergeAction)
        requires
            answers(old(self).stage, ev),
        ensures
            final(self).git_dir@ == (match ev {
                MergeEvent::Opened(d) => d@,
                _ => old(self).git_dir@,
            }),
            (final(self).stage, act@) == merge_next(old(self).stage, final(self).git_dir@, ev),
    {
        match ev {
            MergeEvent::Opened(d) => {
                self.git_dir = d;
                self.stage = MergeStage::FirstCheck;
                MergeAction::CheckConflicts
            },
            MergeEvent::OpenFailed => {
                self.stage = MergeStage::Finished;
                MergeAction::Finish { report: None, success: false }
            },
            MergeEvent::Conflicts(conflicts) => {
                if self.stage == MergeStage::FirstCheck {
                    if conflicts {
                        self.stage = MergeStage::SecondCheck;
                        MergeAction::CheckConflicts
                    } else {
                        self.stage = MergeStage::Committing;
                        MergeAction::Commit(String::from_str("merging origin/master to master"))
                    }
                } else if conflicts {
                    self.stage = MergeStage::Finished;
                    let mut report = self.git_dir.clone();
                    report.append(" index has conflicts. Resolve them first. Merge failed...");
                    MergeAction::Finish { report: Some(report), success: true }
                } else {
                    self.stage = MergeStage::Merging;
                    MergeAction::MergeFetched
                }
            },
            MergeEvent::Committed(ok) => {
                if ok {
                    self.stage = MergeStage::SecondCheck;
                    MergeAction::CheckConflicts
                } else {
                    self.stage = MergeStage::Finished;
                    MergeAction::Finish { report: None, success: false }
                }
            },
            MergeEvent::Merged(ok) => {
                self.stage = MergeStage::Finished;
                MergeAction::Finish { report: None, success: ok }
            },
        }
    }
}

/// What cloning a repository announces: its URL and the path it is cloned to.
pub open spec fn clone_banner_spec(url: Seq<char>, path: Seq<char>) -> Seq<char> {
    "url  "@ + url + "\npath  "@ + path
}

/// The announcement of a clone.
pub fn clone_banner(url: &String, path: &String) -> (line: String)
    ensures
        line@ == clone_banner_spec(url@, path@),
{
    let mut line = String::from_str("url  ");
    line.append(url.as_str());
    line.append("\npath  ");
    line.append(path.as_str());
    assert(line@ =~= clone_banner_spec(url@, path@));
    line
}


/// The order of the stages of a merge.
pub open spec fn stage_rank(stage: MergeStage) -> nat {
    match stage {
        MergeStage::Start => 0,
        MergeStage::FirstCheck => 1,
        MergeStage::Committing => 2,
        MergeStage::SecondCheck => 3,
        MergeStage::Merging => 4,
        MergeStage::Finished => 5,
    }
}

/// Every step of a merge moves it to a later stage, so a merge finishes
/// after at most five steps; a commit is asked for only after the first
/// check found no conflicts, the fetched head is merged only after the
/// second check found none, and a finished merge is a success only when the
/// merge went through or conflicts were reported.
pub proof fn lemma_merge_progress(stage: MergeStage, git_dir: Seq<char>, ev: MergeEvent)
    requires
        answers(stage, ev),
    ensures
        stage_rank(merge_next(stage, git_dir, ev).0) > stage_rank(stage),
        merge_next(stage, git_dir, ev).1 is Commit ==> stage == MergeStage::FirstCheck && ev == MergeEvent::Conflicts(false),
        merge_next(stage, git_dir, ev).1 is MergeFetched ==> stage == MergeStage::SecondCheck && ev == MergeEvent::Conflicts(false),
        merge_next(stage, git_dir, ev).1 matches MergeActionView::Finish { report, success: true } ==> (
            (stage == MergeStage::Merging && ev == MergeEvent::Merged(true) && report is None)
            || (stage == MergeStage::SecondCheck && ev == MergeEvent::Conflicts(true) && report == Some(
                conflict_report(git_dir),
            ))),
{
}


/// The repository a job works on.
pub open spec fn job_path(j: JobView) -> Seq<char> {
    match j {
        JobView::Fetch { path, .. } => path,
        JobView::Merge { path, .. } => path,
        JobView::Push { path, .. } => path,
        JobView::Status { path } => path,
        JobView::Commit { path, .. } => path,
    }
}

/// How many steps a batch spends on each repository.
pub open spec fn per_dir(op: Operation) -> int {
    if op == Operation::Pull { 3 } else { 2 }
}

/// The first job a batch runs in a repository is of the operation's kind
/// (a pull starts with a fetch).
pub open spec fn first_job_fits(op: Operation, j: JobView) -> bool {
    match op {
        Operation::Pull => j is Fetch,
        Operation::Push => j is Push,
        Operation::Fetch => j is Fetch,
        Operation::Merge => j is Merge,
        Operation::Status => j is Status,
        Operation::Commit => j is Commit,
    }
}

/// Steps `at` and following: an announcement of `dir`, then the
/// operation's job on `dir` (for a pull, a fetch and then a merge on `dir`).
pub open spec fn block_at(steps: Seq<StepView>, at: int, op: Operation, dir: Seq<char>) -> bool {
    &&& steps[at] == StepView::Say("Repository path : "@ + dir + " ..."@)
    &&& steps[at + 1] matches StepView::Run { job, .. } && first_job_fits(op, job) && job_path(job) == dir
    &&& op == Operation::Pull ==> (steps[at + 2] matches StepView::Run { job, .. } && job is Merge && job_path(job) == dir)
}

proof fn lemma_over_dirs_layout(op: Operation, dirs: Seq<Seq<char>>, s: SettingsView)
    ensures
        over_dirs(op, dirs, s).len() == per_dir(op) * dirs.len(),
        forall|i: int| 0 <= i < dirs.len() ==> block_at(over_dirs(op, dirs, s), per_dir(op) * i, op, #[trigger] dirs[i]),
    decreases dirs.len(),
{
    if dirs.len() > 0 {
        let d = dirs.drop_last();
        lemma_over_dirs_layout(op, d, s);
        let prev = over_dirs(op, d, s);
        let blk = dir_steps(op, dirs.last(), s);
        let all = over_dirs(op, dirs, s);
        assert(all == prev + blk);
        assert(blk.len() == per_dir(op));
        assert forall|i: int| 0 <= i < dirs.len() implies block_at(all, per_dir(op) * i, op, #[trigger] dirs[i]) by {
            if i < d.len() {
                assert(dirs[i] == d[i]);
                assert(block_at(prev, per_dir(op) * i, op, d[i]));
                assert(per_dir(op) * i + per_dir(op) <= prev.len()) by (nonlinear_arith)
                    requires prev.len() == per_dir(op) * d.len(), i < d.len(), per_dir(op) > 0;
                assert(all[per_dir(op) * i] == prev[per_dir(op) * i]);
                assert(all[per_dir(op) * i + 1] == prev[per_dir(op) * i + 1]);
                if op == Operation::Pull {
                    assert(all[per_dir(op) * i + 2] == prev[per_dir(op) * i + 2]);
                }
            } else {
                assert(i == d.len());
                assert(per_dir(op) * i == prev.len());
                assert(all[per_dir(op) * i] == blk[0]);
                assert(all[per_dir(op) * i + 1] == blk[1]);
                if op == Operation::Pull {
                    assert(all[per_dir(op) * i + 2] == blk[2]);
                }
            }
        }
    }
}

/// A batch announces every repository and runs the operation's job on it,
/// in the given order and nothing else in between: after what the batch
/// says first (one line for status reports), repository `i` takes the steps
/// from `per_dir(op) * i` on, and the closing lines and pause come after all
/// of them: a blank line and a pause of two seconds for a pull, three for a
/// fetch, four for a push or a merge; the all-clean hint, blank lines and a
/// pause of four seconds for status reports; nothing after commits.
pub proof fn lemma_batch_layout(op: Operation, dirs: Seq<Seq<char>>, s: SettingsView)
    ensures
        batch_spec(op, dirs, s).len() == batch_opening(op).len() + per_dir(op) * dirs.len() + batch_closing(op).len(),
        batch_opening(op).len() == (if op == Operation::Status { 1int } else { 0int }),
        op != Operation::Commit ==> batch_spec(op, dirs, s).last() == StepView::Pause(
            if op == Operation::Pull { 2u64 } else if op == Operation::Fetch { 3u64 } else { 4u64 },
        ),
        batch_spec(op, dirs, s).take(batch_opening(op).len() as int) == (if op == Operation::Status {
            seq![StepView::Say("Statuses of repositories are...\n"@)]
        } else {
            Seq::empty()
        }),
        batch_spec(op, dirs, s).skip(batch_opening(op).len() + per_dir(op) * dirs.len()) == (match op {
            Operation::Pull => seq![StepView::Say(""@), StepView::Pause(2)],
            Operation::Push => seq![StepView::Say(""@), StepView::Pause(4)],
            Operation::Fetch => seq![StepView::Say(""@), StepView::Pause(3)],
            Operation::Merge => seq![StepView::Say(""@), StepView::Pause(4)],
            Operation::Status => seq![
                StepView::Say(""@),
                StepView::Say("If there is no explaining for repositories. It is probably clean and up-to-date..."@),
                StepView::Say("You may check. Just to be sure..."@),
                StepView::Say(""@),
                StepView::Pause(4),
            ],
            Operation::Commit => Seq::<StepView>::empty(),
        }),
        forall|i: int|
            0 <= i < dirs.len() ==> block_at(
                batch_spec(op, dirs, s),
                batch_opening(op).len() + per_dir(op) * i,
                op,
                #[trigger] dirs[i],
            ),
{
    lemma_over_dirs_layout(op, dirs, s);
    let o = batch_opening(op);
    let m = over_dirs(op, dirs, s);
    let b = batch_spec(op, dirs, s);
    assert(b == o + m + batch_closing(op));
    assert(b.take(o.len() as int) =~= o);
    assert(b.skip(o.len() + per_dir(op) * dirs.len()) =~= batch_closing(op));
    assert forall|i: int| 0 <= i < dirs.len() implies block_at(b, o.len() + per_dir(op) * i, op, #[trigger] dirs[i]) by {
        assert(block_at(m, per_dir(op) * i, op, dirs[i]));
        assert(per_dir(op) * i + per_dir(op) <= m.len()) by (nonlinear_arith)
            requires m.len() == per_dir(op) * dirs.len(), i < dirs.len(), per_dir(op) > 0;
        assert(b[o.len() + per_dir(op) * i] == m[per_dir(op) * i]);
        assert(b[o.len() + per_dir(op) * i + 1] == m[per_dir(op) * i + 1]);
        if op == Operation::Pull {
            assert(b[o.len() + per_dir(op) * i + 2] == m[per_dir(op) * i + 2]);
        }
    }
}

} // verus!
