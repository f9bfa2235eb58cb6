//! The core of a desktop tool that runs interactive child processes in
//! pseudo-terminals: a concurrency-safe session registry with buffered,
//! replayable scrollback, a bounded broadcast hub that fans each
//! session's byte stream out to relay subscribers, the wire framing the
//! relay speaks, and the small parsers and validators around them. The
//! surrounding process, network, and storage edges live outside this
//! crate and drive it through the contracts stated here.

pub mod errors;
pub mod git_status;
pub mod github;
pub mod hub;
pub mod json;
pub mod pty_manager;
pub mod pump;
pub mod records;
pub mod relay;
pub mod session;
pub mod text;
pub mod validate;
