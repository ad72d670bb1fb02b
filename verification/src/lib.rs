//! Host-side logic of the ledger's validity predicates: gas metering, the
//! storage and write log that a native validity predicate reads, the
//! native validity predicate context, and the Borsh decoding of the
//! transaction payloads that the Ethereum bridge and the unbonding
//! transaction accept.

pub mod gas;
pub mod borsh_de;
pub mod types;
pub mod eth_bridge;
pub mod tx_unbond;
pub mod storage;
pub mod write_log;
pub mod native_vp;
