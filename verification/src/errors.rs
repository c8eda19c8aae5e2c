use vstd::prelude::*;

verus! {

/// Why the output path cannot be used as it stands, when `force` is not set.
#[derive(Clone, Copy, Debug, PartialEq, Eq, Structural)]
pub enum UsageIssue {
    /// The output directory exists but already holds entries.
    OutputNotEmpty,
    /// The output path exists but the entry there is not a directory.
    OutputNotDirectory,
    /// The parent directory of the output path does not exist.
    OutputParentMissing,
    /// No output path was given and none can be derived from the input path.
    NoOutputPath,
}

/// The failure categories of a dump or parse run. Every failure is fatal to
/// the invocation; the boundary maps each category to a process exit status.
#[derive(Clone, Copy, Debug, PartialEq, Eq, Structural)]
pub enum DumpError {
    /// The input file is missing or unreadable.
    NoInput,
    /// The input bytes are not a well-formed document.
    Data,
    /// The output path is in an unsafe state and `force` is not set.
    Usage(UsageIssue),
    /// A directory or file could not be created or written.
    Io,
}

/// The process exit status for one failure category, following the
/// conventional sysexits values the command reports: 64 for a usage error,
/// 65 for malformed data, 66 for an unreadable input, 74 for an I/O failure.
pub fn exit_code_for(e: DumpError) -> (r: i32)
    ensures
        e == DumpError::NoInput ==> r == 66,
        e == DumpError::Data ==> r == 65,
        e matches DumpError::Usage(_) ==> r == 64,
        e == DumpError::Io ==> r == 74,
{
    match e {
        DumpError::NoInput => 66,
        DumpError::Data => 65,
        DumpError::Usage(_) => 64,
        DumpError::Io => 74,
    }
}

} // verus!
