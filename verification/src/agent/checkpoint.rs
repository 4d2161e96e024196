//! Snapshots of the working tree.
//!
//! A snapshot is a stash commit that touches neither the index nor the branch.
use crate::text;
use vstd::prelude::*;

verus! {

/// What a command of git has said.
pub struct GitOutput {
    pub success: bool,
    pub stdout: Vec<u8>,
    pub stderr: Vec<u8>,
}

/// What a `GitOutput` stands for.
pub ghost struct OutputView {
    pub success: bool,
    pub stdout: Seq<u8>,
    pub stderr: Seq<u8>,
}

impl DeepView for GitOutput {
    type V = OutputView;

    open spec fn deep_view(&self) -> OutputView {
        OutputView { success: self.success, stdout: self.stdout@, stderr: self.stderr@ }
    }
}

/// What a command stands for that may not have run.
pub open spec fn ran_view(ran: Result<GitOutput, String>) -> Result<OutputView, Seq<char>> {
    match ran {
        Ok(output) => Ok(output.deep_view()),
        Err(e) => Err(e@),
    }
}

/// What was said, as text, without the white space around it.
pub open spec fn said(bytes: Seq<u8>) -> Seq<char> {
    text::spec_trim(crate::ai::sse::lossy_text(bytes))
}

fn trimmed(bytes: &[u8]) -> (r: String)
    ensures
        r@ == said(bytes@),
{
    text::trim(&crate::ai::sse::decode_lossy(bytes))
}

/// Whether a directory is in a work tree, by what git has said to that.
pub fn is_git_repo(ran: &Result<GitOutput, String>) -> (r: bool)
    ensures
        r == (ran_view(*ran) matches Ok(output) && output.success),
{
    match ran {
        Ok(output) => output.success,
        Err(_) => false,
    }
}

// ------------------------------------------------------------------------ create
/// How far a snapshot is.
pub enum Stage {
    Asking,
    Looking,
    Creating,
    Storing(String),
    Over,
}

/// What a `Stage` stands for.
pub ghost enum StageView {
    Asking,
    Looking,
    Creating,
    Storing(Seq<char>),
    Over,
}

impl DeepView for Stage {
    type V = StageView;

    open spec fn deep_view(&self) -> StageView {
        match self {
            Stage::Asking => StageView::Asking,
            Stage::Looking => StageView::Looking,
            Stage::Creating => StageView::Creating,
            Stage::Storing(sha) => StageView::Storing(sha@),
            Stage::Over => StageView::Over,
        }
    }
}

/// A snapshot that is being made.
pub struct Checkpoint {
    label: String,
    stage: Stage,
}

/// What a `Checkpoint` stands for.
pub ghost struct CheckpointView {
    pub label: Seq<char>,
    pub stage: StageView,
}

impl View for Checkpoint {
    type V = CheckpointView;

    closed spec fn view(&self) -> CheckpointView {
        CheckpointView { label: self.label@, stage: self.stage.deep_view() }
    }
}

/// What comes next.
pub enum CheckpointStep {
    /// Run git with these arguments.
    Run(Vec<String>),
    /// The name of the snapshot, none where there is nothing to keep, or why there is
    /// none.
    Done(Result<Option<String>, String>),
    /// Nothing: the snapshot was over.
    Nothing,
}

/// What a `CheckpointStep` stands for.
pub ghost enum CheckpointStepView {
    Run(Seq<Seq<char>>),
    Done(Result<Option<Seq<char>>, Seq<char>>),
    Nothing,
}

impl DeepView for CheckpointStep {
    type V = CheckpointStepView;

    open spec fn deep_view(&self) -> CheckpointStepView {
        match self {
            CheckpointStep::Run(args) => CheckpointStepView::Run(args.deep_view()),
            CheckpointStep::Done(r) => CheckpointStepView::Done(
                match r {
                    Ok(sha) => Ok(sha.deep_view()),
                    Err(e) => Err(e@),
                },
            ),
            CheckpointStep::Nothing => CheckpointStepView::Nothing,
        }
    }
}

/// The snapshot is over.
pub open spec fn over(r: Result<Option<Seq<char>>, Seq<char>>) -> (StageView, CheckpointStepView) {
    (StageView::Over, CheckpointStepView::Done(r))
}

/// What the last command has said leads to the next: outside of a work tree and
/// without changes nothing is kept; a snapshot is made, and stored under its label.
pub open spec fn checkpoint_step(
    c: CheckpointView,
    ran: Result<OutputView, Seq<char>>,
) -> (StageView, CheckpointStepView) {
    match c.stage {
        StageView::Asking => if ran matches Ok(output) && output.success {
            (StageView::Looking, CheckpointStepView::Run(seq!["status"@, "--porcelain"@]))
        } else {
            over(Ok(None))
        },
        StageView::Looking => match ran {
            Err(e) => over(Err("git status failed: "@ + e)),
            Ok(output) => if output.stdout.len() == 0 {
                over(Ok(None))
            } else {
                (StageView::Creating, CheckpointStepView::Run(seq!["stash"@, "create"@]))
            },
        },
        StageView::Creating => match ran {
            Err(e) => over(Err("git stash create failed: "@ + e)),
            Ok(output) => if !output.success {
                over(Err(said(output.stderr)))
            } else if said(output.stdout).len() == 0 {
                over(Ok(None))
            } else {
                (
                    StageView::Storing(said(output.stdout)),
                    CheckpointStepView::Run(
                        seq![
                            "stash"@,
                            "store"@,
                            "-m"@,
                            "agent-m: "@ + c.label,
                            said(output.stdout),
                        ],
                    ),
                )
            },
        },
        StageView::Storing(sha) => match ran {
            Err(e) => over(Err("git stash store failed: "@ + e)),
            Ok(output) => if output.success {
                over(Ok(Some(sha)))
            } else {
                over(Err(said(output.stderr)))
            },
        },
        StageView::Over => (StageView::Over, CheckpointStepView::Nothing),
    }
}

fn two(first: &str, second: &str) -> (r: Vec<String>)
    ensures
        r.deep_view() == seq![first@, second@],
{
    let mut r: Vec<String> = Vec::new();
    assert(r.deep_view() =~= seq![]);
    text::put(&mut r, first.to_owned());
    text::put(&mut r, second.to_owned());
    assert(r.deep_view() =~= seq![first@, second@]);
    r
}

fn store_args(label: &str, sha: &str) -> (r: Vec<String>)
    ensures
        r.deep_view() == seq!["stash"@, "store"@, "-m"@, "agent-m: "@ + label@, sha@],
{
    let mut r = two("stash", "store");
    text::put(&mut r, "-m".to_owned());
    text::put(&mut r, text::concat("agent-m: ", label));
    text::put(&mut r, sha.to_owned());
    assert(r.deep_view() =~= seq!["stash"@, "store"@, "-m"@, "agent-m: "@ + label@, sha@]);
    r
}

impl Checkpoint {
    /// A snapshot under this label, and the command that comes first.
    pub fn new(label: &str) -> (r: (Self, CheckpointStep))
        ensures
            r.0@ == (CheckpointView { label: label@, stage: StageView::Asking }),
            r.1.deep_view() == CheckpointStepView::Run(
                seq!["rev-parse"@, "--is-inside-work-tree"@],
            ),
    {
        (
            Checkpoint { label: label.to_owned(), stage: Stage::Asking },
            CheckpointStep::Run(two("rev-parse", "--is-inside-work-tree")),
        )
    }

    /// Takes what the last command has said, and gives what comes next.
    pub fn create_checkpoint(&mut self, ran: Result<GitOutput, String>) -> (r: CheckpointStep)
        ensures
            final(self)@ == (CheckpointView {
                stage: checkpoint_step(old(self)@, ran_view(ran)).0,
                ..old(self)@
            }),
            r.deep_view() == checkpoint_step(old(self)@, ran_view(ran)).1,
    {
        let mut stage = Stage::Over;
        std::mem::swap(&mut stage, &mut self.stage);
        match stage {
            Stage::Asking => if is_git_repo(&ran) {
                self.stage = Stage::Looking;
                CheckpointStep::Run(two("status", "--porcelain"))
            } else {
                CheckpointStep::Done(Ok(None))
            },
            Stage::Looking => match ran {
                Err(e) => CheckpointStep::Done(Err(text::concat("git status failed: ", &e))),
                Ok(output) => if output.stdout.len() == 0 {
                    CheckpointStep::Done(Ok(None))
                } else {
                    self.stage = Stage::Creating;
                    CheckpointStep::Run(two("stash", "create"))
                },
            },
            Stage::Creating => match ran {
                Err(e) => CheckpointStep::Done(Err(text::concat("git stash create failed: ", &e))),
                Ok(output) => {
                    if !output.success {
                        return CheckpointStep::Done(Err(trimmed(output.stderr.as_slice())));
                    }
                    let sha = trimmed(output.stdout.as_slice());
                    if text::count(&sha) == 0 {
                        return CheckpointStep::Done(Ok(None));
                    }
                    let args = store_args(&self.label, &sha);
                    self.stage = Stage::Storing(sha);
                    CheckpointStep::Run(args)
                },
            },
            Stage::Storing(sha) => match ran {
                Err(e) => CheckpointStep::Done(Err(text::concat("git stash store failed: ", &e))),
                Ok(output) => if output.success {
                    CheckpointStep::Done(Ok(Some(sha)))
                } else {
                    CheckpointStep::Done(Err(trimmed(output.stderr.as_slice())))
                },
            },
            Stage::Over => CheckpointStep::Nothing,
        }
    }
}

/// A snapshot only ever asks, looks, and stashes: no command that it runs touches the
/// working tree, the index or the branch.
pub proof fn law_snapshots_only_stash(c: CheckpointView, ran: Result<OutputView, Seq<char>>)
    ensures
        checkpoint_step(c, ran).1 matches CheckpointStepView::Run(args) ==> {
            ||| args == seq!["status"@, "--porcelain"@]
            ||| args == seq!["stash"@, "create"@]
            ||| args.len() == 5 && args[0] == "stash"@ && args[1] == "store"@
        },
{
}

// ----------------------------------------------------------------------- restore
/// The arguments of git that bring the working tree back to a snapshot.
pub open spec fn restore_of(sha: Seq<char>) -> Seq<Seq<char>> {
    seq!["restore"@, "--source"@, sha, "--worktree"@, "--"@, "."@]
}

/// The arguments of git that bring the working tree back to a snapshot.
pub fn restore_args(sha: &str) -> (r: Vec<String>)
    ensures
        r.deep_view() == restore_of(sha@),
{
    let mut r = two("restore", "--source");
    text::put(&mut r, sha.to_owned());
    text::put(&mut r, "--worktree".to_owned());
    text::put(&mut r, "--".to_owned());
    text::put(&mut r, ".".to_owned());
    assert(r.deep_view() =~= restore_of(sha@));
    r
}

/// Whether the working tree was brought back to a snapshot, or why it was not.
pub fn restore_checkpoint(sha: &str, ran: Result<GitOutput, String>) -> (r: Result<(), String>)
    ensures
        (match r {
            Ok(_) => None,
            Err(e) => Some(e@),
        }) == (match ran_view(ran) {
            Err(e) => Some("git restore failed: "@ + e),
            Ok(output) => if output.success {
                None
            } else {
                Some("git restore --source "@ + sha@ + " failed:\n"@ + said(output.stderr))
            },
        }),
{
    match ran {
        Err(e) => Err(text::concat("git restore failed: ", &e)),
        Ok(output) => if output.success {
            Ok(())
        } else {
            Err(
                text::concat4(
                    "git restore --source ",
                    sha,
                    " failed:\n",
                    &trimmed(output.stderr.as_slice()),
                ),
            )
        },
    }
}

} // verus!
