//! What the relayer reads from a chain.

use crate::height::Height;
use crate::ibc_path::{ClientStatePath, Path};
use vstd::prelude::*;

verus! {

/// Read what is stored under `path` as of height `at`, with its proof.
#[derive(Debug, Clone, PartialEq, Eq)]
pub struct FetchState {
    pub at: Height,
    pub path: Path,
}

/// Read the state of a light client as of the chain's latest height.
#[derive(Debug, Clone, PartialEq, Eq)]
pub struct FetchLatestClientState {
    pub path: ClientStatePath,
}

/// A read request.
#[derive(Debug, Clone, PartialEq, Eq)]
pub enum Fetch {
    State(FetchState),
    LatestClientState(FetchLatestClientState),
}

} // verus!
