//! The decisions of the transfer engine.
//!
//! A transfer moves or copies one entry, a file or a directory tree, from
//! a source path to a destination path. This module decides which
//! filesystem operation comes next; the caller performs it and reports how
//! it went. The decisions depend only on what kind of entry each path names
//! when the transfer begins, on the mode, and on the reported outcomes.

use vstd::prelude::*;
use vstd::string::StringExecFns;

verus! {

/// What a path names when it is probed.
#[derive(Clone, Copy, Debug, PartialEq, Eq, Structural)]
pub enum FileType {
    File,
    Dir,
    /// Nothing that can be reached.
    Unknown,
}

impl FileType {
    /// The type that a probe of a path's metadata shows: `None` where the
    /// metadata cannot be read, else whether the entry is a directory.
    pub open spec fn of_probe(is_dir: Option<bool>) -> FileType {
        match is_dir {
            Some(true) => FileType::Dir,
            Some(false) => FileType::File,
            None => FileType::Unknown,
        }
    }

    pub fn from(is_dir: Option<bool>) -> (file_type: FileType)
        ensures
            file_type == FileType::of_probe(is_dir),
    {
        match is_dir {
            Some(is_dir) => {
                if is_dir {
                    FileType::Dir
                } else {
                    FileType::File
                }
            },
            None => FileType::Unknown,
        }
    }
}

/// Whether the source is to be gone after the transfer.
#[derive(Clone, Copy, Debug, PartialEq, Eq, Structural)]
pub enum TransferMode {
    Move,
    Copy,
}

/// A filesystem operation on the source and destination paths.
#[derive(Clone, Copy, Debug, PartialEq, Eq, Structural)]
pub enum Operation {
    /// Create the missing ancestors of the destination.
    CreateParent,
    /// Create the destination directory and its missing ancestors.
    CreateDir,
    /// Rename the source to the destination in one step.
    Rename,
    /// Copy the source file over the destination, then delete the source.
    MoveFile,
    /// Merge the source directory into the destination, then remove it.
    MoveDir,
    /// Find out whether both paths name the same entry.
    SameEntry,
    /// Copy the source file over the destination.
    CopyFile,
    /// Merge a copy of the source directory into the destination.
    CopyDir,
}

/// How an operation went.
#[derive(Clone, Copy, Debug, PartialEq, Eq, Structural)]
pub enum Outcome {
    /// The operation succeeded.
    Done,
    /// The operation failed.
    Failed,
    /// The comparison found one and the same entry.
    Same,
    /// The comparison found two entries.
    Distinct,
}

/// Why a transfer cannot be carried out.
#[derive(Clone, Copy, Debug, PartialEq, Eq, Structural)]
pub enum Failure {
    /// The source names nothing.
    NotFound,
    /// The source is a file and the destination a directory.
    DirOverwrittenByFile,
    /// The source is a directory and the destination a file.
    FileOverwrittenByDir,
    /// This operation failed, or reported what it cannot report.
    Operation(Operation),
}

impl Failure {
    /// The message for a transfer that was refused before it began, with
    /// the two paths as text. A failed operation has no message of its
    /// own: the caller holds the error that the operation gave.
    pub open spec fn description(self, src: Seq<char>, dst: Seq<char>) -> Option<Seq<char>> {
        match self {
            Failure::NotFound => Some(
                "Path '"@ + src + "' does not exist or you don't have access"@,
            ),
            Failure::DirOverwrittenByFile => Some(
                "Cannot to overwrite directory '"@ + dst + "' with file '"@ + src + "'"@,
            ),
            Failure::FileOverwrittenByDir => Some(
                "Cannot to overwrite file '"@ + dst + "' with directory '"@ + src + "'"@,
            ),
            Failure::Operation(_) => None,
        }
    }

    /// Builds the message for a transfer that was refused before it began.
    pub fn describe(&self, src: &str, dst: &str) -> (message: Option<String>)
        ensures
            match self.description(src@, dst@) {
                Some(text) => message matches Some(found) && found@ == text,
                None => message is None,
            },
    {
        match self {
            Failure::NotFound => {
                let mut text = String::from_str("Path '");
                text.append(src);
                text.append("' does not exist or you don't have access");
                Some(text)
            },
            Failure::DirOverwrittenByFile => {
                let mut text = String::from_str("Cannot to overwrite directory '");
                text.append(dst);
                text.append("' with file '");
                text.append(src);
                text.append("'");
                Some(text)
            },
            Failure::FileOverwrittenByDir => {
                let mut text = String::from_str("Cannot to overwrite file '");
                text.append(dst);
                text.append("' with directory '");
                text.append(src);
                text.append("'");
                Some(text)
            },
            Failure::Operation(_) => None,
        }
    }
}

/// What the caller is to do next.
#[derive(Clone, Copy, Debug, PartialEq, Eq, Structural)]
pub enum Step {
    /// Perform the operation and report its outcome.
    Run(Operation),
    /// The transfer is complete.
    Finish,
    /// The transfer has failed.
    Fail(Failure),
}

/// The operation that overwrites the destination with a copy of a source
/// of type `src`.
pub open spec fn copy_of(src: FileType) -> Operation {
    if src == FileType::Dir {
        Operation::CopyDir
    } else {
        Operation::CopyFile
    }
}

/// The operation that moves a source of type `src` where a rename cannot.
pub open spec fn slow_move_of(src: FileType) -> Operation {
    if src == FileType::Dir {
        Operation::MoveDir
    } else {
        Operation::MoveFile
    }
}

/// The first step of a transfer. A missing source and a clash between a
/// file and a directory are refused before anything is touched; otherwise
/// the directories that the destination needs are created first.
pub open spec fn first_step(src: FileType, dst: FileType) -> Step {
    match (src, dst) {
        (FileType::Unknown, _) => Step::Fail(Failure::NotFound),
        (FileType::File, FileType::Dir) => Step::Fail(Failure::DirOverwrittenByFile),
        (FileType::Dir, FileType::File) => Step::Fail(Failure::FileOverwrittenByDir),
        (FileType::File, _) => Step::Run(Operation::CreateParent),
        (FileType::Dir, _) => Step::Run(Operation::CreateDir),
    }
}

/// The step that follows operation `op` with outcome `outcome`.
///
/// A move tries a rename and falls back to the slow move when the rename
/// fails. A copy onto an existing destination first asks whether both
/// paths name the same entry, and copies only if they do not. Every other
/// failure ends the transfer.
pub open spec fn step_after(
    src: FileType,
    dst: FileType,
    mode: TransferMode,
    op: Operation,
    outcome: Outcome,
) -> Step {
    match op {
        Operation::CreateParent | Operation::CreateDir => if outcome != Outcome::Done {
            Step::Fail(Failure::Operation(op))
        } else if mode == TransferMode::Move {
            Step::Run(Operation::Rename)
        } else if dst == FileType::Unknown {
            Step::Run(copy_of(src))
        } else {
            Step::Run(Operation::SameEntry)
        },
        Operation::Rename => match outcome {
            Outcome::Done => Step::Finish,
            Outcome::Failed => Step::Run(slow_move_of(src)),
            _ => Step::Fail(Failure::Operation(op)),
        },
        Operation::SameEntry => match outcome {
            Outcome::Same => Step::Finish,
            Outcome::Distinct => Step::Run(copy_of(src)),
            _ => Step::Fail(Failure::Operation(op)),
        },
        _ => if outcome == Outcome::Done {
            Step::Finish
        } else {
            Step::Fail(Failure::Operation(op))
        },
    }
}

/// Whether `op` changes or removes the source.
pub open spec fn takes_source_away(op: Operation) -> bool {
    op == Operation::Rename || op == Operation::MoveFile || op == Operation::MoveDir
}

/// Whether `op` writes a copy of the source over the destination.
pub open spec fn copies(op: Operation) -> bool {
    op == Operation::CopyFile || op == Operation::CopyDir
}

/// Whether `op` is meant for a source of type `src`.
pub open spec fn fits_source(op: Operation, src: FileType) -> bool {
    match op {
        Operation::CreateParent | Operation::MoveFile | Operation::CopyFile => src
            == FileType::File,
        Operation::CreateDir | Operation::MoveDir | Operation::CopyDir => src == FileType::Dir,
        Operation::Rename | Operation::SameEntry => src != FileType::Unknown,
    }
}

/// A transfer under way.
#[derive(Clone, Copy, Debug, PartialEq, Eq, Structural)]
pub struct Transfer {
    pub src: FileType,
    pub dst: FileType,
    pub mode: TransferMode,
    pub step: Step,
}

impl Transfer {
    /// The transfer at its beginning.
    pub open spec fn start(src: FileType, dst: FileType, mode: TransferMode) -> Transfer {
        Transfer { src, dst, mode, step: first_step(src, dst) }
    }

    /// The transfer after the outcome of its pending operation has been
    /// reported. A transfer that is complete or has failed stays as it is.
    pub open spec fn next(self, outcome: Outcome) -> Transfer {
        match self.step {
            Step::Run(op) => Transfer {
                step: step_after(self.src, self.dst, self.mode, op, outcome),
                ..self
            },
            _ => self,
        }
    }

    /// The transfer after a sequence of outcomes has been reported.
    pub open spec fn after(self, outcomes: Seq<Outcome>) -> Transfer
        decreases outcomes.len(),
    {
        if outcomes.len() == 0 {
            self
        } else {
            self.after(outcomes.drop_last()).next(outcomes.last())
        }
    }

    /// Begins a transfer between a source and a destination of the given
    /// types.
    pub fn begin(src: FileType, dst: FileType, mode: TransferMode) -> (transfer: Transfer)
        ensures
            transfer == Transfer::start(src, dst, mode),
    {
        let step = match src {
            FileType::Unknown => Step::Fail(Failure::NotFound),
            FileType::File => match dst {
                FileType::Dir => Step::Fail(Failure::DirOverwrittenByFile),
                _ => Step::Run(Operation::CreateParent),
            },
            FileType::Dir => match dst {
                FileType::File => Step::Fail(Failure::FileOverwrittenByDir),
                _ => Step::Run(Operation::CreateDir),
            },
        };
        Transfer { src, dst, mode, step }
    }

    /// Takes in the outcome of the pending operation and returns the step
    /// that follows.
    pub fn advance(&mut self, outcome: Outcome) -> (step: Step)
        ensures
            *final(self) == old(self).next(outcome),
            step == final(self).step,
    {
        if let Step::Run(op) = self.step {
            self.step = self.decide(op, outcome);
        }
        self.step
    }

    fn decide(&self, op: Operation, outcome: Outcome) -> (step: Step)
        ensures
            step == step_after(self.src, self.dst, self.mode, op, outcome),
    {
        let is_dir = match self.src {
            FileType::Dir => true,
            _ => false,
        };
        let copy = if is_dir {
            Operation::CopyDir
        } else {
            Operation::CopyFile
        };
        match op {
            Operation::CreateParent | Operation::CreateDir => match outcome {
                Outcome::Done => match self.mode {
                    TransferMode::Move => Step::Run(Operation::Rename),
                    TransferMode::Copy => match self.dst {
                        FileType::Unknown => Step::Run(copy),
                        _ => Step::Run(Operation::SameEntry),
                    },
                },
                _ => Step::Fail(Failure::Operation(op)),
            },
            Operation::Rename => match outcome {
                Outcome::Done => Step::Finish,
                Outcome::Failed => if is_dir {
                    Step::Run(Operation::MoveDir)
                } else {
                    Step::Run(Operation::MoveFile)
                },
                _ => Step::Fail(Failure::Operation(op)),
            },
            Operation::SameEntry => match outcome {
                Outcome::Same => Step::Finish,
                Outcome::Distinct => Step::Run(copy),
                _ => Step::Fail(Failure::Operation(op)),
            },
            _ => match outcome {
                Outcome::Done => Step::Finish,
                _ => Step::Fail(Failure::Operation(op)),
            },
        }
    }
}

/// Reporting outcomes changes neither the types that were probed nor the
/// mode.
pub proof fn lemma_after_keeps_request(transfer: Transfer, outcomes: Seq<Outcome>)
    ensures
        transfer.after(outcomes).src == transfer.src,
        transfer.after(outcomes).dst == transfer.dst,
        transfer.after(outcomes).mode == transfer.mode,
    decreases outcomes.len(),
{
    if outcomes.len() > 0 {
        lemma_after_keeps_request(transfer, outcomes.drop_last());
    }
}

/// A transfer that is complete or has failed stays so, whatever is
/// reported.
pub proof fn lemma_end_is_final(transfer: Transfer, outcomes: Seq<Outcome>)
    requires
        !(transfer.step is Run),
    ensures
        transfer.after(outcomes) == transfer,
    decreases outcomes.len(),
{
    if outcomes.len() > 0 {
        lemma_end_is_final(transfer, outcomes.drop_last());
    }
}

/// A missing source fails the transfer with `NotFound` before any
/// operation is asked for, in either mode and whatever the destination is.
pub proof fn lemma_missing_source_touches_nothing(
    dst: FileType,
    mode: TransferMode,
    outcomes: Seq<Outcome>,
)
    ensures
        Transfer::start(FileType::Unknown, dst, mode).after(outcomes).step == Step::Fail(
            Failure::NotFound,
        ),
{
    lemma_end_is_final(Transfer::start(FileType::Unknown, dst, mode), outcomes);
}

/// A file onto a directory, and a directory onto a file, fail the transfer
/// before any operation is asked for, in either mode.
pub proof fn lemma_type_conflict_touches_nothing(mode: TransferMode, outcomes: Seq<Outcome>)
    ensures
        Transfer::start(FileType::File, FileType::Dir, mode).after(outcomes).step == Step::Fail(
            Failure::DirOverwrittenByFile,
        ),
        Transfer::start(FileType::Dir, FileType::File, mode).after(outcomes).step == Step::Fail(
            Failure::FileOverwrittenByDir,
        ),
{
    lemma_end_is_final(Transfer::start(FileType::File, FileType::Dir, mode), outcomes);
    lemma_end_is_final(Transfer::start(FileType::Dir, FileType::File, mode), outcomes);
}

/// Every operation that a transfer asks for fits the type of its source,
/// a copy never asks for an operation that takes the source away, and a
/// move never asks for a copy or a comparison.
pub proof fn lemma_operations_fit_request(
    src: FileType,
    dst: FileType,
    mode: TransferMode,
    outcomes: Seq<Outcome>,
)
    ensures
        Transfer::start(src, dst, mode).after(outcomes).step matches Step::Run(op) ==> {
            &&& fits_source(op, src)
            &&& mode == TransferMode::Copy ==> !takes_source_away(op)
            &&& mode == TransferMode::Move ==> !copies(op) && op != Operation::SameEntry
        },
    decreases outcomes.len(),
{
    let start = Transfer::start(src, dst, mode);
    if outcomes.len() > 0 {
        lemma_operations_fit_request(src, dst, mode, outcomes.drop_last());
        lemma_after_keeps_request(start, outcomes.drop_last());
    }
}

/// Onto a destination that exists, a copy is asked for only directly
/// after the comparison has reported two distinct entries: where source
/// and destination are one entry, nothing is copied.
pub proof fn lemma_same_entry_is_never_copied(src: FileType, dst: FileType, outcomes: Seq<Outcome>)
    requires
        dst != FileType::Unknown,
    ensures
        Transfer::start(src, dst, TransferMode::Copy).after(outcomes).step matches Step::Run(op)
            && copies(op) ==> {
            &&& outcomes.len() > 0
            &&& outcomes.last() == Outcome::Distinct
            &&& Transfer::start(src, dst, TransferMode::Copy).after(outcomes.drop_last()).step
                == Step::Run(Operation::SameEntry)
        },
        Transfer::start(src, dst, TransferMode::Copy).after(outcomes).step == Step::Run(
            Operation::SameEntry,
        ) ==> Transfer::start(src, dst, TransferMode::Copy).after(
            outcomes.push(Outcome::Same),
        ).step == Step::Finish,
{
    let start = Transfer::start(src, dst, TransferMode::Copy);
    if outcomes.len() > 0 {
        lemma_after_keeps_request(start, outcomes.drop_last());
        lemma_operations_fit_request(src, dst, TransferMode::Copy, outcomes.drop_last());
    }
    assert(outcomes.push(Outcome::Same).drop_last() =~= outcomes);
}

/// A move first tries a rename, and only a failed rename leads to the
/// slow move.
pub proof fn lemma_slow_move_follows_failed_rename(
    src: FileType,
    dst: FileType,
    outcomes: Seq<Outcome>,
)
    ensures
        Transfer::start(src, dst, TransferMode::Move).after(outcomes).step matches Step::Run(op)
            && (op == Operation::MoveFile || op == Operation::MoveDir) ==> {
            &&& outcomes.len() > 0
            &&& outcomes.last() == Outcome::Failed
            &&& Transfer::start(src, dst, TransferMode::Move).after(outcomes.drop_last()).step
                == Step::Run(Operation::Rename)
        },
{
    let start = Transfer::start(src, dst, TransferMode::Move);
    if outcomes.len() > 0 {
        lemma_after_keeps_request(start, outcomes.drop_last());
        lemma_operations_fit_request(src, dst, TransferMode::Move, outcomes.drop_last());
    }
}

/// No transfer asks for more than three operations.
pub proof fn lemma_transfer_ends(
    src: FileType,
    dst: FileType,
    mode: TransferMode,
    outcomes: Seq<Outcome>,
)
    requires
        outcomes.len() >= 3,
    ensures
        !(Transfer::start(src, dst, mode).after(outcomes).step is Run),
    decreases outcomes.len(),
{
    let start = Transfer::start(src, dst, mode);
    if outcomes.len() > 3 {
        lemma_transfer_ends(src, dst, mode, outcomes.drop_last());
    } else {
        let two = outcomes.drop_last();
        let one = two.drop_last();
        let none = one.drop_last();
        assert(start.after(none) == start);
        lemma_after_keeps_request(start, one);
        lemma_after_keeps_request(start, two);
        assert(start.after(one) == start.next(one.last()));
        assert(start.after(two) == start.after(one).next(two.last()));
    }
}

} // verus!
