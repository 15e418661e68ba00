//! Response framing for a ChocoPy front end that a web host drives.
//!
//! The front end turns source text into a syntax tree and then into a typed
//! tree with diagnostics. The host receives every result as text. This crate
//! decides what that text is: the rendered tree where rendering succeeded, a
//! structured failure where it did not, and for a full run one envelope that
//! carries both trees, the diagnostics and a flag that says whether there
//! were any.

pub mod boundary;
pub mod envelope;
pub mod escape;
pub mod failure;

pub use boundary::{compile, parse, typecheck};
pub use envelope::envelope;
pub use failure::failure_response;
