//! What the first-time set-up decides: whether a step is needed, what it
//! does, and how the steps add up.

use vstd::prelude::*;
use vstd::string::*;

verus! {

/// How a step of the set-up ended.
#[derive(Clone, Debug, PartialEq, Eq)]
pub enum SetupOutcome {
    /// The step was carried out.
    Executed,
    /// The step had been carried out before.
    NotNeeded,
    /// The step failed, through no fault of the set-up itself.
    Failed,
    /// The user chose to leave the step out.
    UserSkipped,
    /// The step was left out for another reason.
    OtherSkip(String),
}

/// How a step is shown in the summary.
#[derive(Clone, Copy, Debug, PartialEq, Eq, Structural)]
pub enum SetupDisplayOutcome {
    Done,
    Skipped,
    Failed,
}

impl SetupOutcome {
    /// How the step is shown in the summary.
    pub open spec fn shown(&self) -> SetupDisplayOutcome {
        match self {
            SetupOutcome::Executed | SetupOutcome::NotNeeded => SetupDisplayOutcome::Done,
            SetupOutcome::UserSkipped | SetupOutcome::OtherSkip(_) => SetupDisplayOutcome::Skipped,
            SetupOutcome::Failed => SetupDisplayOutcome::Failed,
        }
    }

    /// How the step is shown in the summary.
    pub fn display(&self) -> (r: SetupDisplayOutcome)
        ensures
            r == self.shown(),
    {
        match self {
            SetupOutcome::Executed | SetupOutcome::NotNeeded => SetupDisplayOutcome::Done,
            SetupOutcome::UserSkipped | SetupOutcome::OtherSkip(_) => SetupDisplayOutcome::Skipped,
            SetupOutcome::Failed => SetupDisplayOutcome::Failed,
        }
    }
}

/// How many of the steps are shown as `which`.
pub open spec fn count_shown(outcomes: Seq<SetupOutcome>, which: SetupDisplayOutcome) -> nat
    decreases outcomes.len(),
{
    if outcomes.len() == 0 {
        0
    } else {
        count_shown(outcomes.drop_last(), which) + if outcomes.last().shown() == which {
            1nat
        } else {
            0nat
        }
    }
}

/// How the steps of a set-up added up.
#[derive(Clone, Copy, Debug, PartialEq, Eq, Structural)]
pub struct SetupTally {
    pub n_skipped: usize,
    pub n_failed: usize,
}

impl SetupTally {
    /// The set-up is complete: no step was skipped and none failed.
    pub open spec fn complete(&self) -> bool {
        self.n_skipped == 0 && self.n_failed == 0
    }

    /// Tests the set-up for being complete.
    pub fn is_complete(&self) -> (r: bool)
        ensures
            r == self.complete(),
    {
        self.n_skipped == 0 && self.n_failed == 0
    }
}

/// No more steps are shown in one way than there are steps.
pub proof fn lemma_count_bounded(outcomes: Seq<SetupOutcome>, which: SetupDisplayOutcome)
    ensures
        count_shown(outcomes, which) <= outcomes.len(),
    decreases outcomes.len(),
{
    if outcomes.len() > 0 {
        lemma_count_bounded(outcomes.drop_last(), which);
    }
}

/// Counts the steps that were skipped and those that failed.
pub fn tally(outcomes: &[SetupOutcome]) -> (r: SetupTally)
    ensures
        r.n_skipped == count_shown(outcomes@, SetupDisplayOutcome::Skipped),
        r.n_failed == count_shown(outcomes@, SetupDisplayOutcome::Failed),
{
    let mut n_skipped: usize = 0;
    let mut n_failed: usize = 0;
    let mut i: usize = 0;
    while i < outcomes.len()
        invariant
            i <= outcomes.len(),
            n_skipped == count_shown(outcomes@.take(i as int), SetupDisplayOutcome::Skipped),
            n_failed == count_shown(outcomes@.take(i as int), SetupDisplayOutcome::Failed),
        decreases outcomes.len() - i,
    {
        proof {
            lemma_count_bounded(outcomes@.take(i as int), SetupDisplayOutcome::Skipped);
            lemma_count_bounded(outcomes@.take(i as int), SetupDisplayOutcome::Failed);
            assert(outcomes@.take(i + 1).drop_last() == outcomes@.take(i as int));
            assert(outcomes@.take(i + 1).last() == outcomes@[i as int]);
        }
        match outcomes[i].display() {
            SetupDisplayOutcome::Done => {},
            SetupDisplayOutcome::Skipped => {
                n_skipped += 1;
            },
            SetupDisplayOutcome::Failed => {
                n_failed += 1;
            },
        }
        i += 1;
    }
    assert(outcomes@.take(outcomes.len() as int) == outcomes@);
    SetupTally { n_skipped, n_failed }
}

/// Whether a file that a step is to create is there.
#[derive(Clone, Copy, Debug, PartialEq, Eq, Structural)]
pub enum FileStatus {
    /// The file does not exist.
    Missing,
    /// The file exists and holds something else than it is to hold.
    ContentDiffers,
    /// The file exists and holds what it is to hold.
    Extant,
}

/// Tells whether a file is there, from what it holds, if it exists, and what
/// it is to hold.
pub fn file_status(current: Option<&str>, wanted: &str) -> (r: FileStatus)
    ensures
        r == match current {
            None => FileStatus::Missing,
            Some(c) => if c@ == wanted@ {
                FileStatus::Extant
            } else {
                FileStatus::ContentDiffers
            },
        },
{
    match current {
        None => FileStatus::Missing,
        Some(c) => {
            let a = c.to_owned();
            let b = wanted.to_owned();
            if a == b {
                FileStatus::Extant
            } else {
                FileStatus::ContentDiffers
            }
        },
    }
}

/// What the user said when asked whether a file may be overwritten.
#[derive(Clone, Copy, Debug, PartialEq, Eq, Structural)]
pub enum OverwriteAnswer {
    Yes,
    No,
    /// The user ended the set-up.
    Canceled,
    /// There is no terminal to ask at.
    NotTty,
}

/// What a step that creates a file does.
#[derive(Clone, Copy, Debug, PartialEq, Eq, Structural)]
pub enum CreateFileAction {
    /// Write the file.
    Write,
    /// Leave the file: it is as it is to be.
    NotNeeded,
    /// Leave the file: the user said so.
    UserSkipped,
    /// Leave the file: nobody could be asked.
    SkippedNoTerminal,
    /// End the set-up.
    Abort,
}

/// Decides what a step that creates a file does. A file that is missing is
/// written, one that is as it is to be is left. One that differs is
/// overwritten only if `always_yes` is set or the user says yes.
pub fn create_file_action(status: FileStatus, always_yes: bool, answer: OverwriteAnswer) -> (r:
    CreateFileAction)
    ensures
        r == match status {
            FileStatus::Extant => CreateFileAction::NotNeeded,
            FileStatus::Missing => CreateFileAction::Write,
            FileStatus::ContentDiffers => if always_yes {
                CreateFileAction::Write
            } else {
                match answer {
                    OverwriteAnswer::Yes => CreateFileAction::Write,
                    OverwriteAnswer::No => CreateFileAction::UserSkipped,
                    OverwriteAnswer::Canceled => CreateFileAction::Abort,
                    OverwriteAnswer::NotTty => CreateFileAction::SkippedNoTerminal,
                }
            },
        },
{
    match status {
        FileStatus::Extant => CreateFileAction::NotNeeded,
        FileStatus::Missing => CreateFileAction::Write,
        FileStatus::ContentDiffers => {
            if always_yes {
                CreateFileAction::Write
            } else {
                match answer {
                    OverwriteAnswer::Yes => CreateFileAction::Write,
                    OverwriteAnswer::No => CreateFileAction::UserSkipped,
                    OverwriteAnswer::Canceled => CreateFileAction::Abort,
                    OverwriteAnswer::NotTty => CreateFileAction::SkippedNoTerminal,
                }
            }
        },
    }
}

/// What stands at the path of a directory that a step is to make.
#[derive(Clone, Copy, Debug, PartialEq, Eq, Structural)]
pub enum DirState {
    /// A directory.
    IsDir,
    /// A file.
    IsFile,
    /// Nothing; `parent_exists` tells whether the directory above is there.
    Absent { parent_exists: bool },
}

/// What a step that makes a directory does.
#[derive(Clone, Copy, Debug, PartialEq, Eq, Structural)]
pub enum MakeDirAction {
    /// Nothing: the directory is there.
    NotNeeded,
    /// Nothing: a file stands where the directory is to be.
    SkipIsFile,
    /// Nothing: the directory above is missing and is not to be made.
    SkipNoParent,
    /// Make the directory.
    Create,
    /// Make the directory and those above it.
    CreateAll,
}

/// Decides what a step that makes a directory does.
pub fn make_dir_action(state: DirState, create_parents: bool) -> (r: MakeDirAction)
    ensures
        r == match state {
            DirState::IsDir => MakeDirAction::NotNeeded,
            DirState::IsFile => MakeDirAction::SkipIsFile,
            DirState::Absent { parent_exists } => if create_parents {
                MakeDirAction::CreateAll
            } else if parent_exists {
                MakeDirAction::Create
            } else {
                MakeDirAction::SkipNoParent
            },
        },
{
    match state {
        DirState::IsDir => MakeDirAction::NotNeeded,
        DirState::IsFile => MakeDirAction::SkipIsFile,
        DirState::Absent { parent_exists } => {
            if create_parents {
                MakeDirAction::CreateAll
            } else if parent_exists {
                MakeDirAction::Create
            } else {
                MakeDirAction::SkipNoParent
            }
        },
    }
}

} // verus!
