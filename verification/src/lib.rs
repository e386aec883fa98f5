//! Guest-side capability library for sandboxed compute modules.
//!
//! A loaded module exchanges data with its controlling host across a linear
//! memory boundary: only raw byte ranges and small integers cross it. The host
//! offers capabilities (outbound HTTP, a key/value cache, request-field
//! lookup, logging) through a fixed set of entry points, and drives the module
//! by handing each invocation's input to the dispatcher together with a
//! correlation identifier that every capability call passes back.
//!
//! The heart of the library is the growable-buffer retrieval protocol
//! ([`protocol::retrieve`]): offer the host a destination buffer of a guessed
//! capacity, and when the host reports a larger true size, reallocate to that
//! size and retry. Every capability client that reads variable-length data is
//! a thin wire-format layer over this one algorithm.
//!
//! The host itself is out of scope: it is specified purely through the
//! [`host::Host`] trait, whose contracts state the wire-level behaviour the
//! protocol relies on. [`scripted::ScriptedHost`] is an in-crate, verified
//! realisation of that contract used to exercise the library.

pub mod cache;
pub mod handlers;
pub mod host;
pub mod http;
pub mod logging;
pub mod protocol;
pub mod req;
pub mod runnable;
pub mod scripted;
pub mod util;
