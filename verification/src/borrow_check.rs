//! Ownership and borrowing analysis: the state each check keeps and the errors it reports.
pub mod borrows;
pub mod errors;
pub mod lifetimes;
pub mod moves;
pub mod ownership;
pub mod regions;
pub mod checker;
pub mod builtin_methods;

pub use checker::{borrow_check, BorrowChecker};
