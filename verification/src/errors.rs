use vstd::prelude::*;

verus! {

/// The failure taxonomy of the supervisor. Path resolution and spawn failures
/// are fatal (the application cannot function without the worker); guard,
/// decode and termination failures degrade capability but never abort.
#[derive(Clone, Copy, PartialEq, Eq, Structural, Debug)]
pub enum FailureKind {
    PathResolution,
    Spawn,
    OrphanGuard,
    StreamDecode,
    Termination,
}

/// Which failure kinds must abort startup.
pub open spec fn spec_is_fatal(k: FailureKind) -> bool {
    k is PathResolution || k is Spawn
}

impl FailureKind {
    /// A failure is fatal exactly when the worker cannot be running afterwards.
    pub fn is_fatal(&self) -> (r: bool)
        ensures
            r == spec_is_fatal(*self),
    {
        match self {
            FailureKind::PathResolution => true,
            FailureKind::Spawn => true,
            _ => false,
        }
    }
}

} // verus!
