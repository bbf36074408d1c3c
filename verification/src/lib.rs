//! Command interpretation and response buffering core of a minimal
//! operating-system shell.
//!
//! One invocation runs a single synchronous request/response cycle: raw
//! input bytes are validated and trimmed, the resulting command line is
//! tokenized and classified into one of a fixed set of commands, and the
//! textual result is clipped and copied into a caller-owned output buffer.
//!
//! The disk sector driver and the filesystem store are external
//! collaborators that this core never reimplements.  Commands that need
//! them ([`shell::interpret`] returning a non-`Reply` [`shell::Action`])
//! hand the surrounding shell loop a description of the one call to make;
//! the loop performs the call and feeds the raw outcome back through
//! [`shell::list_outcome`], [`shell::file_outcome`] or
//! [`shell::sector_outcome`], which turn it into the response text.

pub mod laws;
pub mod shell;
pub mod text;
pub mod writer;
