//! Constant-product liquidity pools pairing the native asset with one
//! fungible reserve token each.

pub mod account;
pub mod clp;
pub mod effects;
pub mod errors;
pub mod ledger;
pub mod pool;
pub mod pricing;
pub mod text;
pub mod wide;

pub use clp::NearCLP;
pub use effects::{Effect, Invocation, Pending, Step};
pub use errors::ClpError;
pub use pool::{AccountId, Balance, Pool, PoolInfo};
pub use pricing::Fee;
