//! Source positions.
pub mod token;
