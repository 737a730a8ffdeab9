//! The engine-facing wire projection of the command-grammar DAG: the parts a
//! recognition stage decodes that carry no floating-point weight.
use vstd::prelude::*;

verus! {

/// A DAG state. `START` is the entry/accept state; every command-final arc
/// returns there.
pub type StateId = usize;

/// The start (and accept) state of every compiled grammar.
pub const START: StateId = 0;

/// A state whose continuation could not be enumerated: the builder realizes
/// it as final plus a self-loop, bounded by `alphabet` when known and over
/// the full recognition union when `None`.
#[derive(Debug, Clone, PartialEq)]
pub struct OpenState {
    pub state: StateId,
    pub alphabet: Option<Vec<String>>,
}

/// True for a zero count: the wire omits `dropped_alts` when it is zero.
pub fn is_zero(n: &usize) -> (res: bool)
    ensures
        res == (*n == 0),
{
    *n == 0
}

} // verus!
