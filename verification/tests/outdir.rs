use ofl::errors::exit_code_for;
use ofl::errors::DumpError;
use ofl::errors::UsageIssue;
use ofl::outdir::check_output_dir;
use ofl::outdir::path_exists;
use ofl::outdir::prepare_output_dir;
use ofl::outdir::remove_all;
use ofl::outdir::EntryKind;
use ofl::outdir::FsEntry;
use ofl::outdir::MetadataProbe;
use ofl::outdir::OutputDirCheck;
use ofl::outdir::PrepareAction;
use ofl::outdir::RemoveOp;

#[test]
fn check_output_dir_states() {
    assert_eq!(check_output_dir(FsEntry::Absent, false), OutputDirCheck::MissingParent);
    assert_eq!(check_output_dir(FsEntry::Absent, true), OutputDirCheck::MissingSelf);
    assert_eq!(check_output_dir(FsEntry::EmptyDir, true), OutputDirCheck::PresentEmpty);
    assert_eq!(check_output_dir(FsEntry::NonEmptyDir, true), OutputDirCheck::PresentNonEmpty);
    assert_eq!(check_output_dir(FsEntry::NonDir, true), OutputDirCheck::PresentNonDir);
}

#[test]
fn prepare_empty_dir_is_used_as_is() {
    assert_eq!(prepare_output_dir(OutputDirCheck::PresentEmpty, false), Ok(PrepareAction::UseAsIs));
    assert_eq!(prepare_output_dir(OutputDirCheck::PresentEmpty, true), Ok(PrepareAction::UseAsIs));
}

#[test]
fn probe_failure_is_an_io_error() {
    assert_eq!(check_output_dir(FsEntry::Failed, true), OutputDirCheck::ProbeFailed);
    assert_eq!(check_output_dir(FsEntry::Failed, false), OutputDirCheck::ProbeFailed);
    assert_eq!(prepare_output_dir(OutputDirCheck::ProbeFailed, false), Err(DumpError::Io));
    assert_eq!(prepare_output_dir(OutputDirCheck::ProbeFailed, true), Err(DumpError::Io));
}

#[test]
fn prepare_non_empty_dir_needs_force() {
    assert_eq!(
        prepare_output_dir(OutputDirCheck::PresentNonEmpty, false),
        Err(DumpError::Usage(UsageIssue::OutputNotEmpty))
    );
    assert_eq!(
        prepare_output_dir(OutputDirCheck::PresentNonEmpty, true),
        Ok(PrepareAction::ClearContents)
    );
}

#[test]
fn prepare_non_dir_needs_force() {
    assert_eq!(
        prepare_output_dir(OutputDirCheck::PresentNonDir, false),
        Err(DumpError::Usage(UsageIssue::OutputNotDirectory))
    );
    assert_eq!(
        prepare_output_dir(OutputDirCheck::PresentNonDir, true),
        Ok(PrepareAction::ReplaceWithDir)
    );
}

#[test]
fn prepare_missing_self_always_creates() {
    assert_eq!(prepare_output_dir(OutputDirCheck::MissingSelf, false), Ok(PrepareAction::CreateDir));
    assert_eq!(prepare_output_dir(OutputDirCheck::MissingSelf, true), Ok(PrepareAction::CreateDir));
}

#[test]
fn prepare_missing_parent_needs_force() {
    assert_eq!(
        prepare_output_dir(OutputDirCheck::MissingParent, false),
        Err(DumpError::Usage(UsageIssue::OutputParentMissing))
    );
    assert_eq!(
        prepare_output_dir(OutputDirCheck::MissingParent, true),
        Ok(PrepareAction::CreateDirAll)
    );
}

#[test]
fn path_exists_outcomes() {
    assert_eq!(path_exists(MetadataProbe::Found), Some(true));
    assert_eq!(path_exists(MetadataProbe::NotFound), Some(false));
    assert_eq!(path_exists(MetadataProbe::Failed), None);
}

#[test]
fn remove_all_picks_the_right_operation() {
    assert_eq!(remove_all(EntryKind::Dir), RemoveOp::RemoveDirAll);
    assert_eq!(remove_all(EntryKind::Symlink { target_is_dir: true }), RemoveOp::RemoveDir);
    assert_eq!(remove_all(EntryKind::Symlink { target_is_dir: false }), RemoveOp::RemoveFile);
    assert_eq!(remove_all(EntryKind::File), RemoveOp::RemoveFile);
}

#[test]
fn exit_codes_follow_the_conventional_values() {
    assert_eq!(exit_code_for(DumpError::NoInput), 66);
    assert_eq!(exit_code_for(DumpError::Data), 65);
    assert_eq!(exit_code_for(DumpError::Usage(UsageIssue::OutputNotEmpty)), 64);
    assert_eq!(exit_code_for(DumpError::Usage(UsageIssue::OutputParentMissing)), 64);
    assert_eq!(exit_code_for(DumpError::Io), 74);
}
