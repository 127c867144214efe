//! What a chain run by Tendermint consensus signs and hands out.

pub mod eth_abi;
pub mod types;
