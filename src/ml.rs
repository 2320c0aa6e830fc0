pub mod anomaly;

use vstd::prelude::*;

verus! {

/// How much machine-learning support the host offers.
#[derive(Clone, Copy, Debug, PartialEq, Eq, Structural)]
pub enum MlSupport {
    /// No Python interpreter: only the rule-based detector runs.
    NoPython,
    /// Python without MLX: the backend runs its fallback implementations.
    Fallback,
    /// Python with MLX: the backend runs with hardware acceleration.
    Accelerated,
}

/// Decides the machine-learning support from what a probe of the host found.
pub fn init(python_found: bool, mlx_found: bool) -> (r: MlSupport)
    ensures
        !python_found ==> r == MlSupport::NoPython,
        python_found && !mlx_found ==> r == MlSupport::Fallback,
        python_found && mlx_found ==> r == MlSupport::Accelerated,
{
    if !python_found {
        MlSupport::NoPython
    } else if mlx_found {
        MlSupport::Accelerated
    } else {
        MlSupport::Fallback
    }
}

} // verus!
