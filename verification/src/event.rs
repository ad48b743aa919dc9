//! Normalized directory-change events.
//!
//! The platform watcher reports changes in one non-recursive directory. Each
//! report is normalized to a `ChangeEvent`: the kind of change and the bare
//! file names it concerns, as byte strings. Only creations and modifications
//! can lead to adopting a new file; every event, whatever its kind, still
//! triggers the wake fan-out, since platform event granularity cannot be
//! trusted to name exactly the files that changed.

use vstd::prelude::*;

verus! {

/// What kind of change the watcher reported.
#[derive(Clone, Copy, Debug, PartialEq, Eq, Structural)]
pub enum ChangeKind {
    /// A path appeared.
    Created,
    /// A path's content or metadata changed.
    Modified,
    /// Anything else (removal, rename, access, unknown).
    Other,
}

/// One normalized directory event: a change kind and the candidate file
/// names the platform layer extracted from the changed paths.
pub struct ChangeEvent {
    pub kind: ChangeKind,
    pub names: Vec<Vec<u8>>,
}

/// Whether an event of this kind may introduce files worth adopting.
pub open spec fn kind_adopts(kind: ChangeKind) -> bool {
    kind == ChangeKind::Created || kind == ChangeKind::Modified
}

} // verus!
