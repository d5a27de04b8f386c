//! Session workspaces: which git commands bring one into being, in which
//! order, and how a turn is committed in it.
//!
//! The program around the library runs one step at a time and hands back what
//! came of it: the standard output, or an error in words.

use vstd::prelude::*;

use crate::protocol::{ProfileView, SessionProfile};
use crate::runner;
use crate::runner::WorkspaceStep;
use crate::text;

verus! {

/// What came of a step.
pub open spec fn outcome(result: Result<String, String>) -> Result<Seq<char>, Seq<char>> {
    match result {
        Ok(output) => Ok(output@),
        Err(error) => Err(error@),
    }
}

/// An error under what was being done.
pub open spec fn under(context: Seq<char>, error: Seq<char>) -> Seq<char> {
    context + ": "@ + error
}

/// An error under what was being done.
fn told(context: &str, error: &str) -> (message: String)
    ensures
        message@ == under(context@, error@),
{
    let mut message: String = context.to_string();
    message.append(": ");
    message.append(error);
    message
}

/// The configuration that git runs under: a session's repository is untrusted
/// content, and its hooks never run.
pub fn git_env() -> (env: Vec<(String, String)>)
    ensures
        env@.map_values(|pair: (String, String)| (pair.0@, pair.1@)) == seq![
            ("GIT_CONFIG_COUNT"@, "1"@),
            ("GIT_CONFIG_KEY_0"@, "core.hooksPath"@),
            ("GIT_CONFIG_VALUE_0"@, "/dev/null"@),
        ],
{
    let mut env: Vec<(String, String)> = Vec::new();
    env.push(("GIT_CONFIG_COUNT".to_string(), "1".to_string()));
    env.push(("GIT_CONFIG_KEY_0".to_string(), "core.hooksPath".to_string()));
    env.push(("GIT_CONFIG_VALUE_0".to_string(), "/dev/null".to_string()));
    assert(env@.map_values(|pair: (String, String)| (pair.0@, pair.1@)) =~= seq![
        ("GIT_CONFIG_COUNT"@, "1"@),
        ("GIT_CONFIG_KEY_0"@, "core.hooksPath"@),
        ("GIT_CONFIG_VALUE_0"@, "/dev/null"@),
    ]);
    env
}

// ---------------------------------------------------------------------------
// Preparing
// ---------------------------------------------------------------------------

/// A step of preparing a workspace.
#[derive(Debug, Clone, Copy, PartialEq, Eq, Structural)]
pub enum PrepStep {
    /// Clone the repository, in the session's directory.
    Clone,
    /// Ask the remote for the session's branch.
    List,
    /// Fetch that branch.
    Fetch,
    /// Check it out.
    Resume,
    /// Make the directory of a scratch workspace.
    MakeDir,
    /// Make it a repository.
    Init,
    /// Give it a first commit.
    FirstCommit,
    /// The same under an identity of its own.
    OwnIdentity,
    /// Cut the session's branch.
    Branch,
    /// Check out the branch, which is there already.
    OldBranch,
}

/// Where preparing a workspace stands.
#[derive(Debug)]
pub enum Prep {
    Run { step: PrepStep },
    Ready,
    Failed { message: String },
}

/// The view of where preparing stands.
pub enum PrepView {
    Run { step: PrepStep },
    Ready,
    Failed { message: Seq<char> },
}

impl View for Prep {
    type V = PrepView;

    open spec fn view(&self) -> PrepView {
        match self {
            Prep::Run { step } => PrepView::Run { step: *step },
            Prep::Ready => PrepView::Ready,
            Prep::Failed { message } => PrepView::Failed { message: message@ },
        }
    }
}

/// The first step towards a workspace, and the arguments of a clone.
pub open spec fn begins(
    exists: bool,
    profile: ProfileView,
    prep: PrepView,
    args: Seq<Seq<char>>,
) -> bool {
    if exists {
        prep == PrepView::Ready && args.len() == 0
    } else if profile.repo_url is None {
        prep == (PrepView::Run { step: PrepStep::MakeDir }) && args.len() == 0
    } else if runner::is_repo(profile.repo_url->0) && (profile.base_branch is Some
        ==> runner::is_ref_name(profile.base_branch->0)) {
        prep == (PrepView::Run { step: PrepStep::Clone }) && args == runner::clone_args(
            profile.repo_url->0,
            profile.base_branch,
        )
    } else {
        prep == (PrepView::Failed { message: runner::plan_refusal(profile) }) && args.len() == 0
    }
}

/// A plan for a workspace, as the first step and the arguments of a clone.
pub fn begin(exists: bool, profile: &SessionProfile) -> (start: (Prep, Vec<String>))
    ensures
        begins(exists, profile@, start.0@, text::texts(start.1@)),
{
    match runner::plan_workspace(exists, profile) {
        Ok(WorkspaceStep::Ready) => (Prep::Ready, Vec::new()),
        Ok(WorkspaceStep::Init) => (Prep::Run { step: PrepStep::MakeDir }, Vec::new()),
        Ok(WorkspaceStep::Clone { args }) => (Prep::Run { step: PrepStep::Clone }, args),
        Err(message) => (Prep::Failed { message }, Vec::new()),
    }
}

/// Git says that the branch is there already.
pub open spec fn is_there(error: Seq<char>) -> bool {
    text::holds(error, "already exists"@)
}

/// What follows a step. A branch that the remote has is continued, never cut
/// anew: that would orphan the turns before.
pub open spec fn after(
    step: PrepStep,
    branch: Seq<char>,
    result: Result<Seq<char>, Seq<char>>,
) -> PrepView {
    match result {
        Ok(output) => match step {
            PrepStep::Clone => PrepView::Run { step: PrepStep::List },
            PrepStep::List => if text::is_blank(output) {
                PrepView::Run { step: PrepStep::Branch }
            } else {
                PrepView::Run { step: PrepStep::Fetch }
            },
            PrepStep::Fetch => PrepView::Run { step: PrepStep::Resume },
            PrepStep::MakeDir => PrepView::Run { step: PrepStep::Init },
            PrepStep::Init => PrepView::Run { step: PrepStep::FirstCommit },
            PrepStep::FirstCommit | PrepStep::OwnIdentity => PrepView::Run {
                step: PrepStep::Branch,
            },
            PrepStep::Resume | PrepStep::Branch | PrepStep::OldBranch => PrepView::Ready,
        },
        Err(error) => match step {
            PrepStep::Clone => PrepView::Failed { message: under("git clone"@, error) },
            PrepStep::List => PrepView::Run { step: PrepStep::Branch },
            PrepStep::Fetch => PrepView::Failed {
                message: under("fetch existing session branch "@ + branch, error),
            },
            PrepStep::Resume => PrepView::Failed {
                message: under("checkout existing session branch "@ + branch, error),
            },
            PrepStep::MakeDir => PrepView::Failed { message: error },
            PrepStep::Init => PrepView::Failed { message: under("git init"@, error) },
            PrepStep::FirstCommit => if runner::identity_error(error) {
                PrepView::Run { step: PrepStep::OwnIdentity }
            } else {
                PrepView::Failed { message: under("create initial commit"@, error) }
            },
            PrepStep::OwnIdentity => PrepView::Failed {
                message: under("create initial commit"@, error),
            },
            PrepStep::Branch => if is_there(error) {
                PrepView::Run { step: PrepStep::OldBranch }
            } else {
                PrepView::Failed { message: under("checkout session branch"@, error) }
            },
            PrepStep::OldBranch => PrepView::Failed { message: error },
        },
    }
}

/// What follows a step that failed.
fn after_failure(step: PrepStep, branch: &str, error: String) -> (next: Prep)
    ensures
        next@ == after(step, branch@, Err(error@)),
{
    match step {
        PrepStep::Clone => Prep::Failed { message: told("git clone", &error) },
        PrepStep::List => Prep::Run { step: PrepStep::Branch },
        PrepStep::Fetch => {
            let mut context: String = "fetch existing session branch ".to_string();
            context.append(branch);
            Prep::Failed { message: told(&context, &error) }
        },
        PrepStep::Resume => {
            let mut context: String = "checkout existing session branch ".to_string();
            context.append(branch);
            Prep::Failed { message: told(&context, &error) }
        },
        PrepStep::MakeDir | PrepStep::OldBranch => Prep::Failed { message: error },
        PrepStep::Init => Prep::Failed { message: told("git init", &error) },
        PrepStep::FirstCommit => if runner::is_git_identity_error(&error) {
            Prep::Run { step: PrepStep::OwnIdentity }
        } else {
            Prep::Failed { message: told("create initial commit", &error) }
        },
        PrepStep::OwnIdentity => Prep::Failed { message: told("create initial commit", &error) },
        PrepStep::Branch => if text::contains(&error, "already exists") {
            Prep::Run { step: PrepStep::OldBranch }
        } else {
            Prep::Failed { message: told("checkout session branch", &error) }
        },
    }
}

/// What follows a step.
pub fn after_step(step: PrepStep, branch: &str, result: Result<String, String>) -> (next: Prep)
    ensures
        next@ == after(step, branch@, outcome(result)),
{
    let output: String = match result {
        Ok(output) => output,
        Err(error) => {
            return after_failure(step, branch, error);
        },
    };
    match step {
        PrepStep::Clone => Prep::Run { step: PrepStep::List },
        PrepStep::List => if runner::resumes_remote(Some(&output)) {
            Prep::Run { step: PrepStep::Fetch }
        } else {
            Prep::Run { step: PrepStep::Branch }
        },
        PrepStep::Fetch => Prep::Run { step: PrepStep::Resume },
        PrepStep::MakeDir => Prep::Run { step: PrepStep::Init },
        PrepStep::Init => Prep::Run { step: PrepStep::FirstCommit },
        PrepStep::FirstCommit | PrepStep::OwnIdentity => Prep::Run { step: PrepStep::Branch },
        PrepStep::Resume | PrepStep::Branch | PrepStep::OldBranch => Prep::Ready,
    }
}

/// The arguments with which git runs a step.
pub open spec fn step_args(
    step: PrepStep,
    branch: Seq<char>,
    clone: Seq<Seq<char>>,
) -> Seq<Seq<char>> {
    match step {
        PrepStep::Clone => clone,
        PrepStep::List => seq!["ls-remote"@, "--heads"@, "origin"@, branch],
        PrepStep::Fetch => seq!["fetch"@, "origin"@, branch + ":"@ + branch],
        PrepStep::Resume | PrepStep::OldBranch => seq!["checkout"@, branch],
        PrepStep::MakeDir => Seq::empty(),
        PrepStep::Init => seq!["init"@],
        PrepStep::FirstCommit => runner::commit_args("initial"@),
        PrepStep::OwnIdentity => runner::identity_args() + runner::commit_args("initial"@),
        PrepStep::Branch => seq!["checkout"@, "-b"@, branch],
    }
}

/// The arguments with which git runs a step; there are none for making a
/// directory.
pub fn git_args(step: PrepStep, branch: &str, clone: Vec<String>) -> (args: Vec<String>)
    ensures
        text::texts(args@) == step_args(step, branch@, text::texts(clone@)),
{
    let mut args: Vec<String> = Vec::new();
    let ghost goal = step_args(step, branch@, text::texts(clone@));
    match step {
        PrepStep::Clone => {
            return clone;
        },
        PrepStep::List => {
            args.push("ls-remote".to_string());
            args.push("--heads".to_string());
            args.push("origin".to_string());
            args.push(branch.to_string());
        },
        PrepStep::Fetch => {
            let mut refs: String = branch.to_string();
            refs.append(":");
            refs.append(branch);
            args.push("fetch".to_string());
            args.push("origin".to_string());
            args.push(refs);
        },
        PrepStep::Resume | PrepStep::OldBranch => {
            args.push("checkout".to_string());
            args.push(branch.to_string());
        },
        PrepStep::MakeDir => {},
        PrepStep::Init => {
            args.push("init".to_string());
        },
        PrepStep::FirstCommit => {
            return runner::commit_command("initial", false);
        },
        PrepStep::OwnIdentity => {
            return runner::commit_command("initial", true);
        },
        PrepStep::Branch => {
            args.push("checkout".to_string());
            args.push("-b".to_string());
            args.push(branch.to_string());
        },
    }
    assert(text::texts(args@) =~= goal);
    args
}

/// How many steps can follow a step.
pub open spec fn steps_left(step: PrepStep) -> nat {
    match step {
        PrepStep::Clone => 4,
        PrepStep::List => 3,
        PrepStep::Fetch => 1,
        PrepStep::Resume => 0,
        PrepStep::MakeDir => 5,
        PrepStep::Init => 4,
        PrepStep::FirstCommit => 3,
        PrepStep::OwnIdentity => 2,
        PrepStep::Branch => 1,
        PrepStep::OldBranch => 0,
    }
}

/// Preparing a workspace comes to an end, whatever git answers.
pub proof fn preparing_ends(
    step: PrepStep,
    branch: Seq<char>,
    result: Result<Seq<char>, Seq<char>>,
)
    ensures
        after(step, branch, result) matches PrepView::Run { step: next } ==> steps_left(next)
            < steps_left(step),
{
}

/// A session that ran elsewhere goes on from its branch on the remote: once
/// the remote lists it, the workspace is ready only after it was fetched and
/// checked out.
pub proof fn a_pushed_branch_is_continued(
    branch: Seq<char>,
    listed: Seq<char>,
    fetched: Result<Seq<char>, Seq<char>>,
    resumed: Result<Seq<char>, Seq<char>>,
)
    requires
        !text::is_blank(listed),
    ensures
        after(PrepStep::List, branch, Ok(listed)) == (PrepView::Run { step: PrepStep::Fetch }),
        after(PrepStep::Fetch, branch, fetched) == (PrepView::Run { step: PrepStep::Resume })
            <==> fetched is Ok,
        !(after(PrepStep::Fetch, branch, fetched) is Ready),
        after(PrepStep::Resume, branch, resumed) is Ready <==> resumed is Ok,
{
}

// ---------------------------------------------------------------------------
// Committing
// ---------------------------------------------------------------------------

/// A step of committing a turn.
#[derive(Debug, Clone, Copy, PartialEq, Eq, Structural)]
pub enum CommitStep {
    Add,
    Commit,
    /// The same under an identity of its own.
    OwnIdentity,
    /// Ask for the commit.
    Head,
}

/// Where committing a turn stands.
#[derive(Debug)]
pub enum Committing {
    Run { step: CommitStep },
    Done { commit: String },
    Failed { message: String },
}

/// The view of where committing stands.
pub enum CommittingView {
    Run { step: CommitStep },
    Done { commit: Seq<char> },
    Failed { message: Seq<char> },
}

impl View for Committing {
    type V = CommittingView;

    open spec fn view(&self) -> CommittingView {
        match self {
            Committing::Run { step } => CommittingView::Run { step: *step },
            Committing::Done { commit } => CommittingView::Done { commit: commit@ },
            Committing::Failed { message } => CommittingView::Failed { message: message@ },
        }
    }
}

/// What follows a step of committing.
pub open spec fn committed(
    step: CommitStep,
    result: Result<Seq<char>, Seq<char>>,
) -> CommittingView {
    match result {
        Ok(output) => match step {
            CommitStep::Add => CommittingView::Run { step: CommitStep::Commit },
            CommitStep::Commit | CommitStep::OwnIdentity => CommittingView::Run {
                step: CommitStep::Head,
            },
            CommitStep::Head => CommittingView::Done { commit: text::trimmed(output) },
        },
        Err(error) => match step {
            CommitStep::Add => CommittingView::Failed { message: under("git add"@, error) },
            CommitStep::Commit => if runner::identity_error(error) {
                CommittingView::Run { step: CommitStep::OwnIdentity }
            } else {
                CommittingView::Failed { message: under("git commit"@, error) }
            },
            CommitStep::OwnIdentity => CommittingView::Failed {
                message: under("git commit"@, error),
            },
            CommitStep::Head => CommittingView::Failed {
                message: under("git rev-parse HEAD"@, error),
            },
        },
    }
}

/// What follows a step of committing.
pub fn after_commit_step(step: CommitStep, result: Result<String, String>) -> (next: Committing)
    ensures
        next@ == committed(step, outcome(result)),
{
    match result {
        Ok(output) => match step {
            CommitStep::Add => Committing::Run { step: CommitStep::Commit },
            CommitStep::Commit | CommitStep::OwnIdentity => Committing::Run {
                step: CommitStep::Head,
            },
            CommitStep::Head => Committing::Done { commit: text::trim(&output) },
        },
        Err(error) => match step {
            CommitStep::Add => Committing::Failed { message: told("git add", &error) },
            CommitStep::Commit => if runner::is_git_identity_error(&error) {
                Committing::Run { step: CommitStep::OwnIdentity }
            } else {
                Committing::Failed { message: told("git commit", &error) }
            },
            CommitStep::OwnIdentity => Committing::Failed { message: told("git commit", &error) },
            CommitStep::Head => Committing::Failed {
                message: told("git rev-parse HEAD", &error),
            },
        },
    }
}

/// The arguments with which git runs a step of committing.
pub open spec fn commit_step_args(step: CommitStep, seq: i64) -> Seq<Seq<char>> {
    match step {
        CommitStep::Add => seq!["add"@, "-A"@],
        CommitStep::Commit => runner::commit_args(runner::turn_message(seq)),
        CommitStep::OwnIdentity => runner::identity_args() + runner::commit_args(
            runner::turn_message(seq),
        ),
        CommitStep::Head => seq!["rev-parse"@, "HEAD"@],
    }
}

/// The arguments with which git runs a step of committing.
pub fn commit_git_args(step: CommitStep, seq: i64) -> (args: Vec<String>)
    ensures
        text::texts(args@) == commit_step_args(step, seq),
{
    let message: String = runner::turn_commit_message(seq);
    let mut args: Vec<String> = Vec::new();
    match step {
        CommitStep::Add => {
            args.push("add".to_string());
            args.push("-A".to_string());
        },
        CommitStep::Commit => {
            return runner::commit_command(&message, false);
        },
        CommitStep::OwnIdentity => {
            return runner::commit_command(&message, true);
        },
        CommitStep::Head => {
            args.push("rev-parse".to_string());
            args.push("HEAD".to_string());
        },
    }
    assert(text::texts(args@) =~= commit_step_args(step, seq));
    args
}

/// What git is asked to push.
pub open spec fn push_step_args(branch: Seq<char>) -> Seq<Seq<char>> {
    seq!["push"@, "-u"@, "origin"@, branch]
}

/// The arguments of a push of the session's branch.
pub fn push_args(branch: &str) -> (args: Vec<String>)
    ensures
        text::texts(args@) == push_step_args(branch@),
{
    let mut args: Vec<String> = Vec::new();
    args.push("push".to_string());
    args.push("-u".to_string());
    args.push("origin".to_string());
    args.push(branch.to_string());
    assert(text::texts(args@) =~= seq!["push"@, "-u"@, "origin"@, branch@]);
    args
}

} // verus!
