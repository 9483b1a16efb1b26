//! The read-only view of a circuit and of its commutation analysis that the
//! pass works on.

use vstd::prelude::*;
use crate::gates::StandardGate;

verus! {

/// An instruction of the circuit, as far as the pass reads it.
#[derive(Clone, Debug)]
pub struct Operation {
    /// The standard gate the instruction applies, or `None` for any other
    /// operation.
    pub gate: Option<StandardGate>,
    /// The qubits it acts on, in order.
    pub qubits: Vec<usize>,
    /// Whether one of its parameters is symbolic.
    pub parameterized: bool,
    /// Whether its first parameter is a number.
    pub numeric_angle: bool,
}

/// A node of the circuit graph: an instruction, or a wire's boundary.
#[derive(Clone, Debug)]
pub enum NodeType {
    Operation(Operation),
    Boundary,
}

/// The group that `node` belongs to on the wire of qubit `wire`.
#[derive(Clone, Copy, Debug, PartialEq, Eq, Structural)]
pub struct Anchor {
    pub node: usize,
    pub wire: usize,
    pub group: usize,
}

/// The circuit's nodes, indexed by node identifier.
pub struct Circuit {
    pub nodes: Vec<NodeType>,
    pub num_qubits: usize,
}

/// The commutation analysis of a circuit: for each qubit wire, in order, its
/// groups of mutually commuting nodes; and for nodes on two wires, the group
/// they belong to on each.
pub struct Partition {
    pub groups: Vec<Vec<Vec<usize>>>,
    pub anchors: Vec<Anchor>,
}

/// The instruction at node `id`, if that node exists and is one.
pub open spec fn op_at(c: &Circuit, id: usize) -> Option<Operation> {
    if id < c.nodes@.len() {
        match c.nodes@[id as int] {
            NodeType::Operation(op) => Some(op),
            NodeType::Boundary => None,
        }
    } else {
        None
    }
}

/// The groups of the wire of qubit `w`; none where the analysis lists no
/// such wire.
pub open spec fn groups_on(p: &Partition, w: int) -> Seq<Vec<usize>> {
    if 0 <= w < p.groups@.len() {
        p.groups@[w]@
    } else {
        Seq::empty()
    }
}

/// Group `g` of the wire of qubit `w`.
pub open spec fn group_at(p: &Partition, w: int, g: int) -> Seq<usize> {
    groups_on(p, w)[g]@
}

/// The group of `node` on the wire of qubit `wire`, by the first anchor that
/// names both.
pub open spec fn anchor_of(anchors: Seq<Anchor>, node: usize, wire: usize) -> Option<usize>
    decreases anchors.len(),
{
    if anchors.len() == 0 {
        None
    } else if anchors[0].node == node && anchors[0].wire == wire {
        Some(anchors[0].group)
    } else {
        anchor_of(anchors.drop_first(), node, wire)
    }
}

impl Circuit {
    /// The instruction at node `id`, if there is one.
    pub fn operation(&self, id: usize) -> (r: Option<&Operation>)
        ensures
            r matches Some(op) ==> op_at(self, id) == Some(*op),
            r is None ==> op_at(self, id) is None,
    {
        if id < self.nodes.len() {
            match &self.nodes[id] {
                NodeType::Operation(op) => Some(op),
                NodeType::Boundary => None,
            }
        } else {
            None
        }
    }
}

impl Partition {
    /// The group of `node` on the wire of qubit `wire`.
    pub fn anchor(&self, node: usize, wire: usize) -> (r: Option<usize>)
        ensures
            r == anchor_of(self.anchors@, node, wire),
    {
        let mut i: usize = 0;
        assert(self.anchors@.subrange(0, self.anchors@.len() as int) =~= self.anchors@);
        while i < self.anchors.len()
            invariant
                i <= self.anchors@.len(),
                anchor_of(self.anchors@, node, wire) == anchor_of(
                    self.anchors@.subrange(i as int, self.anchors@.len() as int),
                    node,
                    wire,
                ),
            decreases self.anchors.len() - i,
        {
            let a = self.anchors[i];
            let ghost rest = self.anchors@.subrange(i as int, self.anchors@.len() as int);
            assert(rest[0] == a);
            if a.node == node && a.wire == wire {
                return Some(a.group);
            }
            assert(rest.drop_first() =~= self.anchors@.subrange(
                i + 1,
                self.anchors@.len() as int,
            ));
            i = i + 1;
        }
        assert(self.anchors@.subrange(i as int, self.anchors@.len() as int) =~= Seq::empty());
        None
    }
}

} // verus!
