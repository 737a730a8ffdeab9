//! The stage-facing surface of the BranchKit pipeline runtime: the event
//! vocabulary, the wire framing rules, receiver-side flow credit, the stage
//! runtime's decisions, and the `BKLOG1` diagnostic line format.
use vstd::prelude::*;

pub mod credit;
pub mod events;
pub mod grammar_dag;
pub mod stage;
pub mod stage_log;
pub mod wire;

verus! {

/// Environment variable carrying the platform's model-root directory.
pub const MODELS_DIR_ENV: &'static str = "BRANCHKIT_MODELS_DIR";

/// Environment variable carrying the data directory a stage may write to.
pub const DATA_DIR_ENV: &'static str = "BRANCHKIT_STAGE_DATA";

} // verus!
