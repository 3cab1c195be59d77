pub mod ledger;
pub mod models;
