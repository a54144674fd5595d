//! The spot market clearing house: balances, orders, settlement and the
//! contract entry points, over an in-memory model of the contract's storage.
pub mod decimal;
pub mod error;
pub mod state;
pub mod storage;
pub mod msg;
pub mod not_found;
pub mod balance;
pub mod order;
pub mod utils;
pub mod contract;
pub mod version;
pub mod laws;
pub mod encoding;
pub mod testing;
