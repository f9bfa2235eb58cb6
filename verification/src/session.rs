use vstd::prelude::*;

verus! {

/// Lifecycle state of one terminal-backed session.
///
/// `Idle` is reserved for observers; the core itself only ever moves a
/// session from `Running` to `Stopped`, and `Stopped` is terminal.
#[derive(Clone, Copy, Debug, PartialEq, Eq, Structural)]
pub enum SessionStatus {
    Running,
    Idle,
    Stopped,
}

impl SessionStatus {
    pub fn is_stopped(&self) -> (r: bool)
        ensures
            r == (*self is Stopped),
    {
        matches!(self, SessionStatus::Stopped)
    }

    /// The textual form the durable store keeps.
    pub fn label(&self) -> (r: &'static str)
        ensures
            *self is Running ==> r@ == "running"@,
            *self is Idle ==> r@ == "idle"@,
            *self is Stopped ==> r@ == "stopped"@,
    {
        match self {
            SessionStatus::Running => "running",
            SessionStatus::Idle => "idle",
            SessionStatus::Stopped => "stopped",
        }
    }
}

} // verus!
