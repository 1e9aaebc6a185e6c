use vstd::prelude::*;

verus! {

/// The ten buckets of file changes a status line can count: five kinds of
/// change in the working tree and the same five kinds in the index.
///
/// The mapping from each bucket to a repository status bitmask lives with the
/// code that queries the repository; the engine only needs the label.
#[derive(Debug, PartialEq, Eq, Structural, Clone, Copy)]
pub enum ChangeType {
    WTNew,
    WTModified,
    WTDeleted,
    WTRenamed,
    WTTypechange,
    StagedNew,
    StagedModified,
    StagedDeleted,
    StagedRenamed,
    StagedTypechange,
}

} // verus!
