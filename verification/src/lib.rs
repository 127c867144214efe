//! Verified core of an IBC relayer.
//!
//! - `queue_msg`: the queue algebra, its reduction rules and the join that
//!   hands data to the receivers of aggregates.
//! - `relay_message`, `block_message`: the terms of the two queues, and how
//!   events and fetches are lowered to them.
//! - `engine`, `memory_queue`: what the driver keeps for each chain, and a
//!   queue that keeps the contract of the durable queue in memory.
//! - `scroll_codec`, `ics23`: the byte formats of rollup chunks and batch
//!   headers, and the length operations of commitment proofs.
//! - `lightclients`, `tendermint`, `commitment`, `galois`, `cosmos`: the
//!   domain model, each type with its validated conversion from the wire
//!   message in `protos` and back, and headers also from and to the forms
//!   of the EVM contract in `eth_abi`.
//! - `custom_query`, `ucs01_relay`: what on-chain light clients ask of their
//!   chain, and the messages of the token-relay contract.

pub mod block_message;
pub mod bytes;
pub mod commitment;
pub mod cosmos;
pub mod custom_query;
pub mod data;
pub mod effect;
pub mod engine;
pub mod errors;
pub mod eth_abi;
pub mod events;
pub mod galois;
pub mod hash;
pub mod height;
pub mod ibc_path;
pub mod ics23;
pub mod keccak;
pub mod lightclients;
pub mod memory_queue;
pub mod protos;
pub mod queue_msg;
pub mod relay_message;
pub mod scroll_codec;
pub mod tendermint;
pub mod timestamp;
pub mod ucs01_relay;
pub mod uint;
