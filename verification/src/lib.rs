pub mod account;
pub mod auto_transfer;
pub mod limit;
pub mod log;
pub mod plutus_error;
pub mod scheduler;
pub mod session;
pub mod transfer;
pub mod user;
pub mod utils;
