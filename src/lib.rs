pub mod error;
pub mod laws;
pub mod ledger;
pub mod program;
pub mod protocol;
pub mod state;
