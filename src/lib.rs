pub mod address;
pub mod laws;
pub mod ledger;
pub mod records;
pub mod registry;
