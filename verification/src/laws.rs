//! What holds of the contract as a whole.

pub mod answers;
pub mod batch;
pub mod governance;
pub mod history;
pub mod identity;
pub mod outcomes;
pub mod pairs;
pub mod readings;
pub mod routing;
pub mod state;
