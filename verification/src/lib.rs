//! Enumerating operating-system processes and resolving each identifier to its
//! executable path rests on one primitive: a growable-buffer query that retries
//! an OS call with a doubled buffer until the whole result fits. This crate
//! verifies that protocol and the decisions the two process queries build on it;
//! the OS calls themselves live outside the library and feed it plain values.

pub mod buffer;
pub mod probes;
pub mod processes;
