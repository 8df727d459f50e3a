//! Messages that cross threads on their way to the pipeline.

use vstd::prelude::*;

verus! {

/// System messages are sent from modules to control the pipeline
#[derive(PartialEq, Eq, Structural, Clone, Copy, Debug)]
pub enum SystemMessage {
    /// Terminates the component with the provided handle
    TerminateStep(usize),
}

} // verus!
