use vstd::prelude::*;

verus! {

/// Failure kinds of the export pipeline.
///
/// `MissingPlace` is recovered per record (the record is skipped); every
/// other kind aborts the current profile only.
#[derive(Clone, Copy, PartialEq, Eq, Structural, Debug)]
pub enum ExportError {
    /// The source database file is missing or unreadable at the backup step.
    SourceUnavailable,
    /// A state file exists but cannot be parsed.
    StateCorrupt,
    /// The snapshot is malformed or inaccessible.
    DatabaseQueryError,
    /// A visit record references a place that does not exist.
    MissingPlace,
    /// Writing the export file or the state file failed.
    WriteError,
}

} // verus!
