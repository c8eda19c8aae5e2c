use vstd::prelude::*;

use crate::errors::DumpError;
use crate::errors::UsageIssue;

verus! {

/// What one filesystem probe reports about the entry at a path.
/// The boundary fills this in from the OS; the policy below is pure.
#[derive(Clone, Copy, Debug, PartialEq, Eq, Structural)]
pub enum FsEntry {
    /// No entry exists at the path.
    Absent,
    /// A directory holding no entries.
    EmptyDir,
    /// A directory holding at least one entry.
    NonEmptyDir,
    /// An entry that is not a directory (a file, or a symbolic link).
    NonDir,
    /// The probe itself failed for any other reason; nothing is known of
    /// the path.
    Failed,
}

/// The state of an output path before a dump starts: one of the five
/// directory states, or a failed probe.
#[derive(Clone, Copy, Debug, PartialEq, Eq, Structural)]
pub enum OutputDirCheck {
    /// The parent directory of the path does not exist.
    MissingParent,
    /// The parent directory exists but the path itself does not.
    MissingSelf,
    /// The path exists but the entry there is not a directory.
    PresentNonDir,
    /// The path is a directory that already holds entries.
    PresentNonEmpty,
    /// The path is a directory with no entries.
    PresentEmpty,
    /// The probe of the path failed, so its state is unknown. Not one of
    /// the five directory states: it is surfaced as an I/O failure.
    ProbeFailed,
}

/// The state of an output path, from what a probe saw of the path itself
/// and of its parent.
pub open spec fn classify_output_dir(target: FsEntry, parent_exists: bool) -> OutputDirCheck {
    match target {
        FsEntry::Absent => if parent_exists {
            OutputDirCheck::MissingSelf
        } else {
            OutputDirCheck::MissingParent
        },
        FsEntry::EmptyDir => OutputDirCheck::PresentEmpty,
        FsEntry::NonEmptyDir => OutputDirCheck::PresentNonEmpty,
        FsEntry::NonDir => OutputDirCheck::PresentNonDir,
        FsEntry::Failed => OutputDirCheck::ProbeFailed,
    }
}

/// Names the state of the output path. `target` is what a probe saw at the
/// path itself; `parent_exists` is whether its parent directory exists
/// (false also when the path has no parent at all).
pub fn check_output_dir(target: FsEntry, parent_exists: bool) -> (r: OutputDirCheck)
    ensures
        r == classify_output_dir(target, parent_exists),
{
    match target {
        FsEntry::Absent => if parent_exists {
            OutputDirCheck::MissingSelf
        } else {
            OutputDirCheck::MissingParent
        },
        FsEntry::EmptyDir => OutputDirCheck::PresentEmpty,
        FsEntry::NonEmptyDir => OutputDirCheck::PresentNonEmpty,
        FsEntry::NonDir => OutputDirCheck::PresentNonDir,
        FsEntry::Failed => OutputDirCheck::ProbeFailed,
    }
}

/// The filesystem action that makes the output path a fresh, empty directory.
#[derive(Clone, Copy, Debug, PartialEq, Eq, Structural)]
pub enum PrepareAction {
    /// The directory is already there and empty: use it unchanged.
    UseAsIs,
    /// Remove every entry inside the directory, keeping the directory itself.
    ClearContents,
    /// Remove the non-directory entry, then create a directory in its place.
    ReplaceWithDir,
    /// Create the directory; its parent already exists.
    CreateDir,
    /// Create the directory together with all missing ancestors.
    CreateDirAll,
}

/// The directory-state policy: which action prepares the output path, or
/// which error forbids proceeding.
///
/// An existing empty directory is always accepted unchanged. Every other
/// directory state is mended only under `force`; without it the state is
/// reported as a usage error, and the caller must leave the path untouched.
/// A failed probe is an I/O failure whatever `force` says: nothing is known
/// of the path, so nothing may be touched.
pub fn prepare_output_dir(check: OutputDirCheck, force: bool) -> (r: Result<PrepareAction, DumpError>)
    ensures
        check == OutputDirCheck::PresentEmpty ==> r == Ok::<PrepareAction, DumpError>(PrepareAction::UseAsIs),
        check == OutputDirCheck::PresentNonEmpty && force ==> r == Ok::<PrepareAction, DumpError>(PrepareAction::ClearContents),
        check == OutputDirCheck::PresentNonEmpty && !force ==> r == Err::<PrepareAction, DumpError>(DumpError::Usage(UsageIssue::OutputNotEmpty)),
        check == OutputDirCheck::PresentNonDir && force ==> r == Ok::<PrepareAction, DumpError>(PrepareAction::ReplaceWithDir),
        check == OutputDirCheck::PresentNonDir && !force ==> r == Err::<PrepareAction, DumpError>(DumpError::Usage(UsageIssue::OutputNotDirectory)),
        check == OutputDirCheck::MissingSelf ==> r == Ok::<PrepareAction, DumpError>(PrepareAction::CreateDir),
        check == OutputDirCheck::MissingParent && force ==> r == Ok::<PrepareAction, DumpError>(PrepareAction::CreateDirAll),
        check == OutputDirCheck::MissingParent && !force ==> r == Err::<PrepareAction, DumpError>(DumpError::Usage(UsageIssue::OutputParentMissing)),
        check == OutputDirCheck::ProbeFailed ==> r == Err::<PrepareAction, DumpError>(DumpError::Io),
{
    match check {
        OutputDirCheck::PresentEmpty => Ok(PrepareAction::UseAsIs),
        OutputDirCheck::PresentNonEmpty => if force {
            Ok(PrepareAction::ClearContents)
        } else {
            Err(DumpError::Usage(UsageIssue::OutputNotEmpty))
        },
        OutputDirCheck::PresentNonDir => if force {
            Ok(PrepareAction::ReplaceWithDir)
        } else {
            Err(DumpError::Usage(UsageIssue::OutputNotDirectory))
        },
        OutputDirCheck::MissingSelf => Ok(PrepareAction::CreateDir),
        OutputDirCheck::MissingParent => if force {
            Ok(PrepareAction::CreateDirAll)
        } else {
            Err(DumpError::Usage(UsageIssue::OutputParentMissing))
        },
        OutputDirCheck::ProbeFailed => Err(DumpError::Io),
    }
}

/// What a metadata probe of a path reported.
#[derive(Clone, Copy, Debug, PartialEq, Eq, Structural)]
pub enum MetadataProbe {
    /// The probe succeeded: an entry exists.
    Found,
    /// The probe failed because no entry exists at the path.
    NotFound,
    /// The probe failed for any other reason.
    Failed,
}

/// Whether a path exists, from a metadata probe's outcome. `None` means the
/// probe itself failed and its error must be surfaced unchanged.
pub fn path_exists(probe: MetadataProbe) -> (r: Option<bool>)
    ensures
        probe == MetadataProbe::Found ==> r == Some(true),
        probe == MetadataProbe::NotFound ==> r == Some(false),
        probe == MetadataProbe::Failed ==> r is None,
{
    match probe {
        MetadataProbe::Found => Some(true),
        MetadataProbe::NotFound => Some(false),
        MetadataProbe::Failed => None,
    }
}

/// The kind of entry found at a path, as far as the removal policy reads it.
#[derive(Clone, Copy, Debug, PartialEq, Eq, Structural)]
pub enum EntryKind {
    /// A directory.
    Dir,
    /// A symbolic link; the flag says whether its target is a directory.
    Symlink { target_is_dir: bool },
    /// Anything else (a regular file, or another non-directory entry).
    File,
}

/// The removal operation that deletes one entry of a given kind.
#[derive(Clone, Copy, Debug, PartialEq, Eq, Structural)]
pub enum RemoveOp {
    /// Remove a directory and everything under it.
    RemoveDirAll,
    /// Remove a single directory entry (a symbolic link to a directory).
    RemoveDir,
    /// Remove a single non-directory entry.
    RemoveFile,
}

/// The removal operation for an entry of kind `kind`.
pub open spec fn remove_op_for(kind: EntryKind) -> RemoveOp {
    match kind {
        EntryKind::Dir => RemoveOp::RemoveDirAll,
        EntryKind::Symlink { target_is_dir } => if target_is_dir {
            RemoveOp::RemoveDir
        } else {
            RemoveOp::RemoveFile
        },
        EntryKind::File => RemoveOp::RemoveFile,
    }
}

/// Picks how to remove the entry at a path, whatever its kind: directories
/// are removed recursively; a symbolic link is removed as a link, never by
/// following it into its target.
pub fn remove_all(kind: EntryKind) -> (r: RemoveOp)
    ensures
        r == remove_op_for(kind),
{
    match kind {
        EntryKind::Dir => RemoveOp::RemoveDirAll,
        EntryKind::Symlink { target_is_dir } => if target_is_dir {
            RemoveOp::RemoveDir
        } else {
            RemoveOp::RemoveFile
        },
        EntryKind::File => RemoveOp::RemoveFile,
    }
}

} // verus!
