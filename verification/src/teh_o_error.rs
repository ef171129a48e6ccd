use vstd::prelude::*;

verus! {

/// Error taxonomy of the transport kernel.
///
/// Configuration errors and contract violations are reported through this
/// enum; numeric edge cases inside the geometry and sampling routines are
/// never errors, they resolve to documented sentinel values instead.
#[derive(Debug, Clone, Copy, PartialEq, Eq, Structural)]
pub enum TehOError {
    OpenMcErrUnassigned,
    OpenMcErrAllocate,
    OpenMcErrOutOfBounds,
    OpenMcErrInvalidSize,
    OpenMcErrInvalidArgument,
    OpenMcErrInvalidType,
    OpenMcErrInvalidID,
    OpenMcErrGeometry,
    OpenMcErrData,
    OpenMcErrPhysics,
    OpenMcErrWarning,
}

} // verus!
