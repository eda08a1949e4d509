use vstd::prelude::*;

verus! {

/// A filesystem failure, kept apart so that callers can tell an
/// existing target (refused without the force flag) from the other cases.
#[derive(Clone, Copy, PartialEq, Eq, Structural, Debug)]
pub enum FsError {
    /// The content directory the post tree lives under does not exist.
    MissingContentDir,
    /// The target file already exists and force was not set.
    TargetExists,
    /// Creating a parent directory failed.
    CreateDir,
    /// Writing the file failed.
    Write,
}

/// The error taxonomy of the whole pipeline. Every component reports a
/// typed error; nothing recovers silently and every failure aborts the run.
#[derive(Clone, Copy, PartialEq, Eq, Structural, Debug)]
pub enum Error {
    /// An endpoint was unreachable or answered with a non-success status.
    Network,
    /// A response body had an unexpected shape.
    Decode,
    /// An expected resource is absent, e.g. no upcoming meeting.
    NotFound,
    /// A filesystem step failed.
    Filesystem(FsError),
    /// The OS clipboard could not be read or written.
    ClipboardAccess,
    /// No recognizable metadata block stands at the head of the document,
    /// or neither of the keys that carry the date is present.
    FrontmatterMissing,
    /// A metadata block was found but its date value could not be read.
    FrontmatterMalformed,
    /// Mutually exclusive import/export sinks were requested together.
    ConfigurationConflict,
}

} // verus!
