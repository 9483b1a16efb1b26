//! Turning cancellation sets into rewrites of the circuit: pairs of
//! self-inverse gates are removed, rotation chains are merged.

use vstd::prelude::*;
use crate::circuit::{op_at, Circuit};
use crate::error::PassError;
use crate::gates::{
    contribution, contribution_of, is_parametric_rotation, is_supported_gate, supported_gate,
    Contribution, StandardGate,
};
use crate::sets::{CancellationKey, CancellationSet, GateOrRotation};

verus! {

/// The axis of a merged rotation: it is written as `rz`
/// for `Z` and `rx` for `X`.
#[derive(Clone, Copy, Debug, PartialEq, Eq, Structural)]
pub enum Axis {
    Z,
    X,
}

/// A rewrite of the circuit that one cancellation set calls for.
#[derive(Clone, Debug)]
pub enum Rewrite {
    /// Remove these nodes, which cancel in adjacent pairs.
    Remove { nodes: Vec<usize> },
    /// Replace these nodes by one rotation about `axis`, whose angle and
    /// global phase are the sums of the `terms`, one for each node.
    MergeRotation { axis: Axis, nodes: Vec<usize>, terms: Vec<Contribution> },
}

/// A rewrite as values: no axis for a removal, the nodes, and the terms.
pub type RewriteView = (Option<Axis>, Seq<usize>, Seq<Contribution>);

impl View for Rewrite {
    type V = RewriteView;

    open spec fn view(&self) -> RewriteView {
        match self {
            Rewrite::Remove { nodes } => (None, nodes@, Seq::empty()),
            Rewrite::MergeRotation { axis, nodes, terms } => (Some(*axis), nodes@, terms@),
        }
    }
}

/// What the node adds to the rotation chain it stands in, by the table of
/// `contribution_of`.  A parameterized rotation needs a numeric parameter.
pub open spec fn term_of(c: &Circuit, node: usize) -> Result<Contribution, PassError> {
    match op_at(c, node) {
        None => Err(PassError::NotAnOperation { node }),
        Some(op) => match op.gate {
            None => Err(PassError::AngleUndefined { node }),
            Some(g) => if is_parametric_rotation(g) && !op.numeric_angle {
                Err(PassError::SymbolicParameter { node })
            } else {
                match contribution_of(g, node) {
                    Some(t) => Ok(t),
                    None => Err(PassError::AngleUndefined { node }),
                }
            },
        },
    }
}

/// The terms of a chain, in order; the first node without one gives the
/// error.
pub open spec fn terms_of(c: &Circuit, nodes: Seq<usize>) -> Result<Seq<Contribution>, PassError>
    decreases nodes.len(),
{
    if nodes.len() == 0 {
        Ok(Seq::empty())
    } else {
        match terms_of(c, nodes.drop_last()) {
            Err(e) => Err(e),
            Ok(t) => match term_of(c, nodes.last()) {
                Err(e) => Err(e),
                Ok(x) => Ok(t.push(x)),
            },
        }
    }
}

/// Number of nodes of a self-inverse set that cancel: all but a last odd
/// one.
pub open spec fn paired_len(n: int) -> int {
    (n / 2) * 2
}

/// The rewrite a set with more than one node calls for.  Sets of a
/// supported self-inverse gate lose their adjacent pairs; rotation sets are
/// merged, Z rotations only where a parameterized Z rotation is available;
/// any other set stays.
pub open spec fn set_rewrite(
    c: &Circuit,
    s: (CancellationKey, Seq<usize>),
    z_resolved: bool,
) -> Result<Option<RewriteView>, PassError> {
    if s.1.len() <= 1 {
        Ok(None)
    } else {
        match s.0.gate {
            GateOrRotation::Gate(g) => if is_supported_gate(g) {
                Ok(Some((None, s.1.take(paired_len(s.1.len() as int)), Seq::empty())))
            } else {
                Ok(None)
            },
            GateOrRotation::ZRotation => if !z_resolved {
                Ok(None)
            } else {
                match terms_of(c, s.1) {
                    Err(e) => Err(e),
                    Ok(t) => Ok(Some((Some(Axis::Z), s.1, t))),
                }
            },
            GateOrRotation::XRotation => match terms_of(c, s.1) {
                Err(e) => Err(e),
                Ok(t) => Ok(Some((Some(Axis::X), s.1, t))),
            },
        }
    }
}

/// The rewrites of all sets, in order; the first failing set gives the
/// error.
pub open spec fn plan_of(
    c: &Circuit,
    sets: Seq<(CancellationKey, Seq<usize>)>,
    z_resolved: bool,
) -> Result<Seq<RewriteView>, PassError>
    decreases sets.len(),
{
    if sets.len() == 0 {
        Ok(Seq::empty())
    } else {
        match plan_of(c, sets.drop_last(), z_resolved) {
            Err(e) => Err(e),
            Ok(prev) => match set_rewrite(c, sets.last(), z_resolved) {
                Err(e) => Err(e),
                Ok(None) => Ok(prev),
                Ok(Some(rw)) => Ok(prev.push(rw)),
            },
        }
    }
}

fn term(c: &Circuit, node: usize) -> (r: Result<Contribution, PassError>)
    ensures
        r == term_of(c, node),
{
    match c.operation(node) {
        None => Err(PassError::NotAnOperation { node }),
        Some(op) => match op.gate {
            None => Err(PassError::AngleUndefined { node }),
            Some(g) => {
                let parametric = match g {
                    StandardGate::Phase | StandardGate::U1 | StandardGate::RZ
                    | StandardGate::RX => true,
                    _ => false,
                };
                if parametric && !op.numeric_angle {
                    Err(PassError::SymbolicParameter { node })
                } else {
                    match contribution(g, node) {
                        Some(t) => Ok(t),
                        None => Err(PassError::AngleUndefined { node }),
                    }
                }
            },
        },
    }
}

fn terms(c: &Circuit, nodes: &Vec<usize>) -> (r: Result<Vec<Contribution>, PassError>)
    ensures
        match r {
            Ok(t) => terms_of(c, nodes@) == Ok::<Seq<Contribution>, PassError>(t@),
            Err(e) => terms_of(c, nodes@) == Err::<Seq<Contribution>, PassError>(e),
        },
{
    let mut out: Vec<Contribution> = Vec::new();
    let mut i: usize = 0;
    while i < nodes.len()
        invariant
            i <= nodes@.len(),
            terms_of(c, nodes@.take(i as int)) == Ok::<Seq<Contribution>, PassError>(out@),
        decreases nodes.len() - i,
    {
        assert(nodes@.take(i + 1).drop_last() =~= nodes@.take(i as int));
        match term(c, nodes[i]) {
            Err(e) => {
                proof {
                    lemma_terms_of_keeps_error(c, nodes@, i as int + 1, e);
                }
                return Err(e);
            },
            Ok(t) => {
                out.push(t);
            },
        }
        i = i + 1;
    }
    assert(nodes@.take(i as int) =~= nodes@);
    Ok(out)
}

proof fn lemma_terms_of_keeps_error(c: &Circuit, nodes: Seq<usize>, k: int, e: PassError)
    requires
        0 < k <= nodes.len(),
        terms_of(c, nodes.take(k)) == Err::<Seq<Contribution>, PassError>(e),
    ensures
        terms_of(c, nodes) == Err::<Seq<Contribution>, PassError>(e),
    decreases nodes.len() - k,
{
    if k == nodes.len() {
        assert(nodes.take(k) =~= nodes);
    } else {
        assert(nodes.take(k + 1).drop_last() =~= nodes.take(k));
        lemma_terms_of_keeps_error(c, nodes, k + 1, e);
    }
}

proof fn lemma_plan_of_keeps_error(
    c: &Circuit,
    sets: Seq<(CancellationKey, Seq<usize>)>,
    z_resolved: bool,
    k: int,
    e: PassError,
)
    requires
        0 < k <= sets.len(),
        plan_of(c, sets.take(k), z_resolved) == Err::<Seq<RewriteView>, PassError>(e),
    ensures
        plan_of(c, sets, z_resolved) == Err::<Seq<RewriteView>, PassError>(e),
    decreases sets.len() - k,
{
    if k == sets.len() {
        assert(sets.take(k) =~= sets);
    } else {
        assert(sets.take(k + 1).drop_last() =~= sets.take(k));
        lemma_plan_of_keeps_error(c, sets, z_resolved, k + 1, e);
    }
}

/// The rewrite of one set, as `set_rewrite` gives it.
fn rewrite_set(c: &Circuit, s: &CancellationSet, z_resolved: bool) -> (r: Result<
    Option<Rewrite>,
    PassError,
>)
    ensures
        match r {
            Ok(None) => set_rewrite(c, s@, z_resolved) == Ok::<Option<RewriteView>, PassError>(
                None,
            ),
            Ok(Some(rw)) => set_rewrite(c, s@, z_resolved) == Ok::<
                Option<RewriteView>,
                PassError,
            >(Some(rw@)),
            Err(e) => set_rewrite(c, s@, z_resolved) == Err::<Option<RewriteView>, PassError>(e),
        },
{
    let n = s.nodes.len();
    if n <= 1 {
        return Ok(None);
    }
    match s.key.gate {
        GateOrRotation::Gate(g) => {
            if supported_gate(g) {
                let paired = (n / 2) * 2;
                let mut nodes: Vec<usize> = Vec::new();
                let mut i: usize = 0;
                while i < paired
                    invariant
                        paired == paired_len(s.nodes@.len() as int),
                        paired <= s.nodes@.len(),
                        i <= paired,
                        nodes@ =~= s.nodes@.take(i as int),
                    decreases paired - i,
                {
                    nodes.push(s.nodes[i]);
                    i = i + 1;
                }
                Ok(Some(Rewrite::Remove { nodes }))
            } else {
                Ok(None)
            }
        },
        GateOrRotation::ZRotation => {
            if !z_resolved {
                return Ok(None);
            }
            let terms = terms(c, &s.nodes)?;
            Ok(Some(Rewrite::MergeRotation { axis: Axis::Z, nodes: s.nodes.clone(), terms }))
        },
        GateOrRotation::XRotation => {
            let terms = terms(c, &s.nodes)?;
            Ok(Some(Rewrite::MergeRotation { axis: Axis::X, nodes: s.nodes.clone(), terms }))
        },
    }
}

/// Plans the rewrites that the cancellation sets call for, in the order of
/// the sets, by `set_rewrite`.  `z_resolved` tells whether a parameterized
/// Z rotation is available, without which Z chains are left alone.
pub fn plan_rewrites(c: &Circuit, sets: &Vec<CancellationSet>, z_resolved: bool) -> (r: Result<
    Vec<Rewrite>,
    PassError,
>)
    ensures
        match r {
            Ok(v) => plan_of(c, sets@.map_values(|s: CancellationSet| s@), z_resolved) == Ok::<
                Seq<RewriteView>,
                PassError,
            >(v@.map_values(|rw: Rewrite| rw@)),
            Err(e) => plan_of(c, sets@.map_values(|s: CancellationSet| s@), z_resolved) == Err::<
                Seq<RewriteView>,
                PassError,
            >(e),
        },
{
    let ghost model = sets@.map_values(|s: CancellationSet| s@);
    let mut out: Vec<Rewrite> = Vec::new();
    let mut i: usize = 0;
    assert(model.take(0) =~= Seq::<(CancellationKey, Seq<usize>)>::empty());
    assert(out@.map_values(|rw: Rewrite| rw@) =~= Seq::<RewriteView>::empty());
    while i < sets.len()
        invariant
            i <= sets@.len(),
            model == sets@.map_values(|s: CancellationSet| s@),
            plan_of(c, model.take(i as int), z_resolved) == Ok::<Seq<RewriteView>, PassError>(
                out@.map_values(|rw: Rewrite| rw@),
            ),
        decreases sets.len() - i,
    {
        assert(model.take(i + 1).drop_last() =~= model.take(i as int));
        assert(model.take(i + 1).last() == sets@[i as int]@);
        match rewrite_set(c, &sets[i], z_resolved) {
            Err(e) => {
                proof {
                    lemma_plan_of_keeps_error(c, model, z_resolved, i as int + 1, e);
                }
                return Err(e);
            },
            Ok(None) => {},
            Ok(Some(rw)) => {
                let ghost before = out@;
                out.push(rw);
                assert(out@.map_values(|rw: Rewrite| rw@) =~= before.map_values(
                    |rw: Rewrite| rw@,
                ).push(rw@));
            },
        }
        i = i + 1;
    }
    assert(model.take(i as int) =~= model);
    Ok(out)
}

/// What to do once a merged chain's angle is reduced modulo 4 pi.
#[derive(Clone, Copy, Debug, PartialEq, Eq, Structural)]
pub struct Settlement {
    /// Write one rotation with the reduced angle before the chain's first
    /// node.
    pub insert_rotation: bool,
    /// Add this many eighths of pi to the global phase, beyond the chain's
    /// own terms.
    pub extra_phase_eighths: u64,
}

/// Settles a merged chain from where its reduced angle lies: `near_two_pi`
/// when it is within the tolerance of 2 pi, `clear_of_ends` when it is more
/// than the tolerance from both 0 and 4 pi.  An angle of 2 pi is the
/// identity up to a phase of pi; an angle near 0 or 4 pi is the identity;
/// any other angle needs its rotation.
pub fn settle_rotation(near_two_pi: bool, clear_of_ends: bool) -> (r: Settlement)
    ensures
        r.insert_rotation == (!near_two_pi && clear_of_ends),
        r.extra_phase_eighths == (if near_two_pi {
            8u64
        } else {
            0u64
        }),
{
    if near_two_pi {
        Settlement { insert_rotation: false, extra_phase_eighths: 8 }
    } else {
        Settlement { insert_rotation: clear_of_ends, extra_phase_eighths: 0 }
    }
}

/// A set of a supported self-inverse gate keeps exactly as many of its
/// nodes as the parity of its size: every adjacent pair is removed.
pub proof fn lemma_self_inverse_pairs(
    c: &Circuit,
    s: (CancellationKey, Seq<usize>),
    z_resolved: bool,
    g: StandardGate,
)
    requires
        s.0.gate == GateOrRotation::Gate(g),
        is_supported_gate(g),
    ensures
        match set_rewrite(c, s, z_resolved) {
            Ok(None) => s.1.len() <= 1,
            Ok(Some(rw)) => rw.0 is None && rw.1 == s.1.take(rw.1.len() as int) && s.1.len()
                - rw.1.len() == s.1.len() % 2,
            Err(_) => false,
        },
{
}

/// `t` is the table's entry for what stands at `node`.
pub open spec fn table_entry_is(c: &Circuit, node: usize, t: Contribution) -> bool {
    match op_at(c, node) {
        Some(op) => match op.gate {
            Some(g) => contribution_of(g, node) == Some(t),
            None => false,
        },
        None => false,
    }
}

/// The terms of a merged chain are, node by node, the angle and phase
/// table's entries for the node's gate; the global phase the chain adds is
/// their phase parts, plus pi where `settle_rotation` says so.
pub proof fn lemma_merge_terms_follow_table(c: &Circuit, nodes: Seq<usize>, t: Seq<Contribution>)
    requires
        terms_of(c, nodes) == Ok::<Seq<Contribution>, PassError>(t),
    ensures
        t.len() == nodes.len(),
        forall|i: int| 0 <= i < nodes.len() ==> table_entry_is(c, #[trigger] nodes[i], t[i]),
    decreases nodes.len(),
{
    if nodes.len() > 0 {
        let prev = nodes.drop_last();
        match terms_of(c, prev) {
            Ok(tp) => {
                lemma_merge_terms_follow_table(c, prev, tp);
                assert(t == tp.push(t.last()));
                assert forall|i: int| 0 <= i < nodes.len() implies table_entry_is(
                    c,
                    #[trigger] nodes[i],
                    t[i],
                ) by {
                    if i < nodes.len() - 1 {
                        assert(nodes[i] == prev[i]);
                    }
                }
            },
            Err(_) => {},
        }
    }
}

} // verus!
