//! The errors the pass reports.

use vstd::prelude::*;

verus! {

/// Why the pass stopped.
#[derive(Clone, Copy, Debug, PartialEq, Eq, Structural)]
pub enum PassError {
    /// A node listed in a commutation group is not an instruction: the
    /// analysis handed to the pass was malformed.
    NotAnOperation { node: usize },
    /// A rotation gate carries a symbolic parameter.
    SymbolicParameter { node: usize },
    /// A gate was filed under a rotation family but has no angle.
    AngleUndefined { node: usize },
}

} // verus!
