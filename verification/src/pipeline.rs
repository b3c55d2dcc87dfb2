//! Pipeline stages: the collaborators the orchestrator invokes. From the
//! core's point of view each stage is a pure function from input to output;
//! the precise resolution and transformation rules are not the core's
//! concern, only their contracts are.

use vstd::prelude::*;

pub mod resolver;
pub mod transformer;

verus! {

/// A named stage of the transformation pipeline.
pub trait PipelineStage {
    fn name(&self) -> &str;
}

} // verus!
