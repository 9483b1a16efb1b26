//! Commutative cancellation of gates on a quantum circuit.
//!
//! The pass takes a circuit's operations together with a partition of every
//! qubit wire into groups of mutually commuting operations, and plans how to
//! rewrite it: self-inverse gates that can be brought next to each other
//! cancel in pairs, and chains of Z or X rotations merge into one rotation
//! and a global phase.  Building the sets is done in full before any
//! rewrite is planned, so the analysis is read while it is still whole.

pub mod circuit;
pub mod error;
pub mod gates;
pub mod merge;
pub mod sets;
pub mod laws;

use vstd::prelude::*;
pub use crate::circuit::{Anchor, Circuit, NodeType, Operation, Partition};
pub use crate::error::PassError;
pub use crate::gates::{resolve_var_z_gate, resolved_var_z, Contribution, StandardGate};
pub use crate::merge::{plan_of, plan_rewrites, settle_rotation, Axis, Rewrite, RewriteView, Settlement};
pub use crate::sets::{
    build_cancellation_sets, built_sets, scan_fails, CancellationKey, CancellationSet,
    GateOrRotation,
};

verus! {

/// The basis the pass may target; none given is an empty one.
pub open spec fn basis_of(basis_gates: Option<Vec<String>>) -> Seq<String> {
    match basis_gates {
        Some(b) => b@,
        None => Seq::empty(),
    }
}

/// Plans the commutative cancellation of a circuit.
///
/// `op_names` are the names of the operations the circuit uses and
/// `basis_gates` the target basis, from which the parameterized Z rotation
/// that Z chains merge into is resolved.  The cancellation sets are built
/// from the analysis `p`, then each is turned into its rewrite.  A malformed
/// analysis gives `NotAnOperation`; a rotation chain with a symbolic or
/// unknown angle gives the error of its first such node.
pub fn cancel_commutations(
    c: &Circuit,
    p: &Partition,
    op_names: &Vec<String>,
    basis_gates: Option<Vec<String>>,
) -> (r: Result<Vec<Rewrite>, PassError>)
    ensures
        scan_fails(c, p) ==> r matches Err(PassError::NotAnOperation { .. }),
        !scan_fails(c, p) ==> match r {
            Ok(v) => plan_of(
                c,
                built_sets(c, p),
                resolved_var_z(op_names@, basis_of(basis_gates)) is Some,
            ) == Ok::<Seq<RewriteView>, PassError>(v@.map_values(|rw: Rewrite| rw@)),
            Err(e) => plan_of(
                c,
                built_sets(c, p),
                resolved_var_z(op_names@, basis_of(basis_gates)) is Some,
            ) == Err::<Seq<RewriteView>, PassError>(e),
        },
{
    let basis = match basis_gates {
        Some(b) => b,
        None => Vec::new(),
    };
    let z_var_gate = resolve_var_z_gate(op_names, &basis);
    let sets = build_cancellation_sets(c, p)?;
    plan_rewrites(c, &sets, z_var_gate.is_some())
}

} // verus!
