//! The error taxonomy: local, deterministic precondition violations that are
//! surfaced to the caller instead of mutating any state.

use vstd::prelude::*;

verus! {

/// Why an operation was refused before touching any state.
#[derive(Clone, Copy, Debug, PartialEq, Eq, Structural)]
pub enum NetError {
    /// A layer was fed an input whose length is not its input count.
    ShapeMismatch,
    /// A loss was given output and desired vectors of unequal lengths.
    SizeMismatch,
    /// A flattened parameter vector's length is not the network's parameter
    /// count.
    ParameterCountMismatch,
}

} // verus!
