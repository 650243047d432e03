pub mod types;
pub mod context;
pub mod nodes;
