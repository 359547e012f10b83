//! Verified core of a mempool transaction filter: the transaction model,
//! the filters and their combination, the numeric and hex parsing that
//! feeds them, and the per-transaction output decisions.

pub mod uint;
pub mod bytes;
pub mod tx;
pub mod abi;
pub mod filters;
pub mod cmd;
pub mod process;
pub mod trace;
