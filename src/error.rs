//! The one error type of a run: every error ends the run.

use vstd::prelude::*;

verus! {

/// Why a run stopped. Each variant carries the paths involved.
#[derive(Debug)]
pub enum AnnotateError {
    /// Neither a literal nor a regular-expression pattern source was given.
    NoPatternSources,
    /// A pattern source could not be opened or read as text.
    PatternFileUnreadable { path: String },
    /// The patterns do not form a valid set within the size limit.
    MatcherCompilationFailed(regex::Error),
    /// No backup path can be derived from the target path.
    BackupPathUnrepresentable { path: String },
    /// The target could not be renamed to its backup path.
    RenameFailed { from: String, to: String },
    /// The new file at the target path could not be created.
    OutputCreateFailed { path: String },
    /// The backup could not be read back as text.
    RecordReadFailed { path: String },
    /// The annotated text could not be written to the target path.
    WriteFailed { path: String },
    /// The backup could not be removed after a complete rewrite.
    BackupDeleteFailed { path: String },
}

} // verus!
