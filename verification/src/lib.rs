//! Deferred command encoding for an OpenGL-style rendering backend.
//!
//! A pool owns shared storage: an append-only command log together with an
//! auxiliary buffer of payload scalars, either one pair for the whole pool
//! (linear) or one pair per recorder (individual). A recorder translates
//! draw and state calls into compact commands appended to that log, keeps a
//! per-recorder cache of the last bound state so redundant state changes are
//! elided, and tracks a sticky validation-error flag instead of aborting on
//! a misuse. Payloads are addressed by contiguous offset/length slices into
//! the auxiliary buffer, so replay can walk the log without re-allocating.

pub mod cache;
pub mod command;
pub mod recorder;
pub mod slice;
pub mod storage;
