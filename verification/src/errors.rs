use vstd::prelude::*;

verus! {

/// The error taxonomy of the session core.
///
/// `SpawnFailed` is fatal to one spawn attempt only; `NotFound` is
/// recoverable and some operations tolerate it as a no-op; `Io` marks a
/// failed write or resize on a live session, which stays registered.
#[derive(Clone, Copy, Debug, PartialEq, Eq, Structural)]
pub enum PtyError {
    SpawnFailed,
    NotFound,
    Io,
}

impl PtyError {
    pub fn message(&self) -> (r: &'static str)
        ensures
            *self is SpawnFailed ==> r@ == "failed to spawn process"@,
            *self is NotFound ==> r@ == "session not found"@,
            *self is Io ==> r@ == "i/o error on session"@,
    {
        match self {
            PtyError::SpawnFailed => "failed to spawn process",
            PtyError::NotFound => "session not found",
            PtyError::Io => "i/o error on session",
        }
    }
}

} // verus!
