//! Single-elimination tournament bracket core.
//!
//! The crate turns a flat roster of participants into fixed-size teams,
//! pairs the teams into matches, resolves winners from recorded scores,
//! and advances the bracket round over round until a single champion
//! remains.  All rendering and input collection is left to a separate
//! presentation layer that drives the session through its public methods.

pub mod laws;
pub mod session;
pub mod tournament;
