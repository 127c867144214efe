//! What the relayer waits for.

use crate::height::Height;
use vstd::prelude::*;

verus! {

/// Hold until the chain has reached `height`.
#[derive(Debug, Clone, PartialEq, Eq)]
pub struct WaitForBlock {
    pub height: Height,
}

/// Hold until the light client `client_id` trusts a height of its
/// counterparty that is at least `height`.
#[derive(Debug, Clone, PartialEq, Eq)]
pub struct WaitForTrustedHeight {
    pub client_id: String,
    pub counterparty_client_id: String,
    pub height: Height,
}

/// A barrier.
#[derive(Debug, Clone, PartialEq, Eq)]
pub enum Wait {
    Block(WaitForBlock),
    TrustedHeight(WaitForTrustedHeight),
}

} // verus!
