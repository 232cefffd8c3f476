pub mod cli;
pub mod error;
pub mod history;
pub mod laws;
pub mod order;
pub mod snapshot;
pub mod store;
pub mod text;
