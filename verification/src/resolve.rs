//! Name resolution results that later passes read.
pub mod symbols;
