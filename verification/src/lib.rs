//! Durable state for Discreet Log Contracts and DLC channels.
//!
//! The crate keeps the records of a DLC node in a sled database: one record per
//! contract and per channel, each tagged with the state it is in, plus the
//! chain monitor and the list of known peers. Around the store it defines the
//! lifecycle rules of contracts and channels and the decisions of the single
//! actor that is allowed to change them.

pub mod error;
pub mod lifecycle;
pub mod engine;
pub mod record;
pub mod scan;
pub mod store;
pub mod manager;
pub mod peers;
pub mod ids;
pub mod ddk;
pub mod fees;
pub mod signer;
