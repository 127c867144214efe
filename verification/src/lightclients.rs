//! The light clients: what each family of chains keeps of its counterparty.

pub mod cometbls;
pub mod ethereum;
pub mod scroll;
pub mod tendermint;
