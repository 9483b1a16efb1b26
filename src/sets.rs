//! Grouping the circuit's operations into cancellation sets: operations of
//! one family, on the same qubits and in the same commutation groups, which
//! may therefore be brought next to each other.

use vstd::prelude::*;
use crate::circuit::{
    anchor_of, group_at, groups_on, op_at, Circuit, Operation, Partition,
};
use crate::error::PassError;
use crate::gates::{
    is_supported_gate, is_x_rotation_gate, is_z_rotation_gate, supported_gate, x_rotation_gate,
    z_rotation_gate, StandardGate,
};

verus! {

/// The family a cancellation set is made of.
#[derive(Clone, Copy, Debug, PartialEq, Eq, Structural)]
pub enum GateOrRotation {
    /// Operations of one standard gate.
    Gate(StandardGate),
    /// Rotations about the Z axis.
    ZRotation,
    /// Rotations about the X axis.
    XRotation,
}

/// What the members of a cancellation set share.
#[derive(Clone, Copy, Debug, PartialEq, Eq, Structural)]
pub struct CancellationKey {
    pub gate: GateOrRotation,
    /// The qubit whose wire the set was found on.
    pub first_qubit: usize,
    /// For operations on two qubits, the other one.
    pub second_qubit: Option<usize>,
    /// The group on the first qubit's wire.
    pub com_set_index: usize,
    /// For operations on two qubits, the group on the other qubit's wire.
    pub second_index: Option<usize>,
}

/// A cancellation set: its key, and its nodes in the order they were found.
#[derive(Clone, Debug)]
pub struct CancellationSet {
    pub key: CancellationKey,
    pub nodes: Vec<usize>,
}

impl View for CancellationSet {
    type V = (CancellationKey, Seq<usize>);

    open spec fn view(&self) -> (CancellationKey, Seq<usize>) {
        (self.key, self.nodes@)
    }
}

/// A cancellation key written as integers, the form the sets are filed
/// under: family code, qubits, group indices.
pub type KeyCode = (u64, usize, Option<usize>, usize, Option<usize>);

pub open spec fn gate_code(g: StandardGate) -> u64 {
    match g {
        StandardGate::H => 2,
        StandardGate::X => 3,
        StandardGate::Y => 4,
        StandardGate::Z => 5,
        StandardGate::S => 6,
        StandardGate::T => 7,
        StandardGate::Phase => 8,
        StandardGate::U1 => 9,
        StandardGate::RZ => 10,
        StandardGate::RX => 11,
        StandardGate::CX => 12,
        StandardGate::CY => 13,
        StandardGate::CZ => 14,
        StandardGate::Other(id) => (16 + id) as u64,
    }
}

pub open spec fn family_code(f: GateOrRotation) -> u64 {
    match f {
        GateOrRotation::ZRotation => 0,
        GateOrRotation::XRotation => 1,
        GateOrRotation::Gate(g) => gate_code(g),
    }
}

pub open spec fn family_of_code(c: u64) -> GateOrRotation {
    if c == 0 {
        GateOrRotation::ZRotation
    } else if c == 1 {
        GateOrRotation::XRotation
    } else if c == 2 {
        GateOrRotation::Gate(StandardGate::H)
    } else if c == 3 {
        GateOrRotation::Gate(StandardGate::X)
    } else if c == 4 {
        GateOrRotation::Gate(StandardGate::Y)
    } else if c == 5 {
        GateOrRotation::Gate(StandardGate::Z)
    } else if c == 6 {
        GateOrRotation::Gate(StandardGate::S)
    } else if c == 7 {
        GateOrRotation::Gate(StandardGate::T)
    } else if c == 8 {
        GateOrRotation::Gate(StandardGate::Phase)
    } else if c == 9 {
        GateOrRotation::Gate(StandardGate::U1)
    } else if c == 10 {
        GateOrRotation::Gate(StandardGate::RZ)
    } else if c == 11 {
        GateOrRotation::Gate(StandardGate::RX)
    } else if c == 12 {
        GateOrRotation::Gate(StandardGate::CX)
    } else if c == 13 {
        GateOrRotation::Gate(StandardGate::CY)
    } else if c == 14 {
        GateOrRotation::Gate(StandardGate::CZ)
    } else {
        GateOrRotation::Gate(StandardGate::Other((c - 16) as u32))
    }
}

pub open spec fn key_code(k: CancellationKey) -> KeyCode {
    (family_code(k.gate), k.first_qubit, k.second_qubit, k.com_set_index, k.second_index)
}

pub open spec fn key_of_code(c: KeyCode) -> CancellationKey {
    CancellationKey {
        gate: family_of_code(c.0),
        first_qubit: c.1,
        second_qubit: c.2,
        com_set_index: c.3,
        second_index: c.4,
    }
}

/// The codes that some key has.
pub open spec fn code_ok(c: KeyCode) -> bool {
    c.0 <= 14 || (16 <= c.0 && c.0 - 16 <= u32::MAX)
}

pub proof fn lemma_key_code_round_trip(k: CancellationKey)
    ensures
        code_ok(key_code(k)),
        key_of_code(key_code(k)) == k,
{
}

fn encode_key(k: CancellationKey) -> (r: KeyCode)
    ensures
        r == key_code(k),
{
    let f: u64 = match k.gate {
        GateOrRotation::ZRotation => 0,
        GateOrRotation::XRotation => 1,
        GateOrRotation::Gate(g) => match g {
            StandardGate::H => 2,
            StandardGate::X => 3,
            StandardGate::Y => 4,
            StandardGate::Z => 5,
            StandardGate::S => 6,
            StandardGate::T => 7,
            StandardGate::Phase => 8,
            StandardGate::U1 => 9,
            StandardGate::RZ => 10,
            StandardGate::RX => 11,
            StandardGate::CX => 12,
            StandardGate::CY => 13,
            StandardGate::CZ => 14,
            StandardGate::Other(id) => 16 + id as u64,
        },
    };
    (f, k.first_qubit, k.second_qubit, k.com_set_index, k.second_index)
}

fn decode_key(c: KeyCode) -> (r: CancellationKey)
    requires
        code_ok(c),
    ensures
        r == key_of_code(c),
{
    let gate = if c.0 == 0 {
        GateOrRotation::ZRotation
    } else if c.0 == 1 {
        GateOrRotation::XRotation
    } else if c.0 == 2 {
        GateOrRotation::Gate(StandardGate::H)
    } else if c.0 == 3 {
        GateOrRotation::Gate(StandardGate::X)
    } else if c.0 == 4 {
        GateOrRotation::Gate(StandardGate::Y)
    } else if c.0 == 5 {
        GateOrRotation::Gate(StandardGate::Z)
    } else if c.0 == 6 {
        GateOrRotation::Gate(StandardGate::S)
    } else if c.0 == 7 {
        GateOrRotation::Gate(StandardGate::T)
    } else if c.0 == 8 {
        GateOrRotation::Gate(StandardGate::Phase)
    } else if c.0 == 9 {
        GateOrRotation::Gate(StandardGate::U1)
    } else if c.0 == 10 {
        GateOrRotation::Gate(StandardGate::RZ)
    } else if c.0 == 11 {
        GateOrRotation::Gate(StandardGate::RX)
    } else if c.0 == 12 {
        GateOrRotation::Gate(StandardGate::CX)
    } else if c.0 == 13 {
        GateOrRotation::Gate(StandardGate::CY)
    } else if c.0 == 14 {
        GateOrRotation::Gate(StandardGate::CZ)
    } else {
        GateOrRotation::Gate(StandardGate::Other((c.0 - 16) as u32))
    };
    CancellationKey {
        gate,
        first_qubit: c.1,
        second_qubit: c.2,
        com_set_index: c.3,
        second_index: c.4,
    }
}

#[verifier::external_type_specification]
#[verifier::external_body]
#[verifier::reject_recursive_types(K)]
#[verifier::reject_recursive_types(V)]
#[verifier::reject_recursive_types(S)]
pub struct ExIndexMap<K, V, S>(indexmap::IndexMap<K, V, S>);

#[verifier::external_type_specification]
#[verifier::external_body]
pub struct ExRandomState(ahash::RandomState);

/// The sets being built, filed by key code in the order their keys first
/// appeared.
pub type SetMap = indexmap::IndexMap<KeyCode, Vec<usize>, ahash::RandomState>;

/// The entries of a `SetMap`, in its order.
pub uninterp spec fn set_entries(m: SetMap) -> Seq<(KeyCode, Seq<usize>)>;

/// Files `node` under key `k`: appended to the entry of `k` where there is
/// one, else in a new entry at the end.
pub open spec fn push_entry(e: Seq<(KeyCode, Seq<usize>)>, x: (KeyCode, usize)) -> Seq<
    (KeyCode, Seq<usize>),
> {
    if exists|i: int| 0 <= i < e.len() && (#[trigger] e[i]).0 == x.0 {
        let i = choose|i: int| 0 <= i < e.len() && (#[trigger] e[i]).0 == x.0;
        e.update(i, (x.0, e[i].1.push(x.1)))
    } else {
        e.push((x.0, seq![x.1]))
    }
}

/// Files each node of `s` under its key, in order.
pub open spec fn grouped(s: Seq<(KeyCode, usize)>) -> Seq<(KeyCode, Seq<usize>)>
    decreases s.len(),
{
    if s.len() == 0 {
        Seq::empty()
    } else {
        push_entry(grouped(s.drop_last()), s.last())
    }
}

/// Relies on indexmap::IndexMap::with_hasher with ahash::RandomState::new:
/// a new map holds no entry.
#[verifier::external_body]
fn new_set_map() -> (r: SetMap)
    ensures
        set_entries(r) == Seq::<(KeyCode, Seq<usize>)>::empty(),
{
    indexmap::IndexMap::with_hasher(ahash::RandomState::new())
}

/// Relies on indexmap::IndexMap::entry and Entry::or_insert_with: an
/// occupied entry keeps its place and its value is appended to, a vacant one
/// is inserted at the end, keys stay unique.
#[verifier::external_body]
fn file_node(m: &mut SetMap, k: KeyCode, node: usize)
    ensures
        set_entries(*final(m)) == push_entry(set_entries(*old(m)), (k, node)),
{
    m.entry(k).or_insert_with(Vec::new).push(node);
}

/// Relies on IndexMap's `IntoIterator`: it yields the entries in the map's
/// order.
#[verifier::external_body]
fn into_entries(m: SetMap) -> (r: Vec<(KeyCode, Vec<usize>)>)
    ensures
        r@.len() == set_entries(m).len(),
        forall|i: int|
            0 <= i < r@.len() ==> (#[trigger] r@[i]).0 == set_entries(m)[i].0 && r@[i].1@
                == set_entries(m)[i].1,
{
    m.into_iter().collect()
}

/// The key of a single-qubit operation of family `f` in group `g` of the
/// wire of qubit `w`.
pub open spec fn single_qubit_key(f: GateOrRotation, w: int, g: int) -> CancellationKey {
    CancellationKey {
        gate: f,
        first_qubit: w as usize,
        second_qubit: None,
        com_set_index: g as usize,
        second_index: None,
    }
}

/// The key under which a node of group `g` on the wire of qubit `w` is
/// filed, if any.  Symbolic operations and operations that are not standard
/// gates are not filed; a two-qubit operation is filed only from the wire of
/// its first qubit.
pub open spec fn member_key(c: &Circuit, p: &Partition, w: int, g: int, node: usize) -> Option<
    CancellationKey,
> {
    match op_at(c, node) {
        None => None,
        Some(op) => {
            if op.parameterized {
                None
            } else {
                match op.gate {
                    None => None,
                    Some(gate) => {
                        if op.qubits@.len() == 1 && is_supported_gate(gate) {
                            Some(single_qubit_key(GateOrRotation::Gate(gate), w, g))
                        } else if op.qubits@.len() == 1 && is_z_rotation_gate(gate) {
                            Some(single_qubit_key(GateOrRotation::ZRotation, w, g))
                        } else if op.qubits@.len() == 1 && is_x_rotation_gate(gate) {
                            Some(single_qubit_key(GateOrRotation::XRotation, w, g))
                        } else if op.qubits@.len() == 2 && op.qubits@[0] == w {
                            Some(
                                CancellationKey {
                                    gate: GateOrRotation::Gate(gate),
                                    first_qubit: w as usize,
                                    second_qubit: Some(op.qubits@[1]),
                                    com_set_index: g as usize,
                                    second_index: anchor_of(p.anchors@, node, op.qubits@[1]),
                                },
                            )
                        } else {
                            None
                        }
                    },
                }
            }
        },
    }
}

/// Whether group `g` of wire `w` is looked at: it is not empty and its first
/// node is an instruction.
pub open spec fn group_scanned(c: &Circuit, p: &Partition, w: int, g: int) -> bool {
    group_at(p, w, g).len() > 0 && op_at(c, group_at(p, w, g)[0]) is Some
}

/// The filings made from the first `j` nodes of group `g` of wire `w`.
pub open spec fn group_ins(c: &Circuit, p: &Partition, w: int, g: int, j: int) -> Seq<
    (KeyCode, usize),
>
    decreases j,
{
    if j <= 0 {
        Seq::empty()
    } else {
        let node = group_at(p, w, g)[j - 1];
        match member_key(c, p, w, g, node) {
            Some(k) => group_ins(c, p, w, g, j - 1).push((key_code(k), node)),
            None => group_ins(c, p, w, g, j - 1),
        }
    }
}

/// The filings made from the first `g` groups of wire `w`.
pub open spec fn wire_ins(c: &Circuit, p: &Partition, w: int, g: int) -> Seq<(KeyCode, usize)>
    decreases g,
{
    if g <= 0 {
        Seq::empty()
    } else if group_scanned(c, p, w, g - 1) {
        wire_ins(c, p, w, g - 1) + group_ins(c, p, w, g - 1, group_at(p, w, g - 1).len() as int)
    } else {
        wire_ins(c, p, w, g - 1)
    }
}

/// The filings made from the wires of the first `w` qubits.
pub open spec fn all_ins(c: &Circuit, p: &Partition, w: int) -> Seq<(KeyCode, usize)>
    decreases w,
{
    if w <= 0 {
        Seq::empty()
    } else {
        all_ins(c, p, w - 1) + wire_ins(c, p, w - 1, groups_on(p, w - 1).len() as int)
    }
}

/// The cancellation sets of a circuit, in the order their keys first appear
/// when the wires are walked by qubit and each wire by group.
pub open spec fn built_sets(c: &Circuit, p: &Partition) -> Seq<(CancellationKey, Seq<usize>)> {
    grouped(all_ins(c, p, c.num_qubits as int)).map_values(
        |e: (KeyCode, Seq<usize>)| (key_of_code(e.0), e.1),
    )
}

/// A looked-at group holds a node that is not an instruction.
pub open spec fn bad_group(c: &Circuit, p: &Partition, w: int, g: int) -> bool {
    group_scanned(c, p, w, g) && exists|j: int|
        0 <= j < group_at(p, w, g).len() && op_at(c, #[trigger] group_at(p, w, g)[j]) is None
}

/// The analysis is malformed: some looked-at group holds a node that is not
/// an instruction.
pub open spec fn scan_fails(c: &Circuit, p: &Partition) -> bool {
    exists|w: int, g: int|
        0 <= w < c.num_qubits && 0 <= g < groups_on(p, w).len() && #[trigger] bad_group(c, p, w, g)
}

fn member_key_of(c: &Circuit, p: &Partition, w: usize, g: usize, node: usize, op: &Operation) -> (r:
    Option<CancellationKey>)
    requires
        op_at(c, node) == Some(*op),
    ensures
        r == member_key(c, p, w as int, g as int, node),
{
    if op.parameterized {
        return None;
    }
    match op.gate {
        None => None,
        Some(gate) => {
            let n = op.qubits.len();
            if n == 1 && supported_gate(gate) {
                Some(
                    CancellationKey {
                        gate: GateOrRotation::Gate(gate),
                        first_qubit: w,
                        second_qubit: None,
                        com_set_index: g,
                        second_index: None,
                    },
                )
            } else if n == 1 && z_rotation_gate(gate) {
                Some(
                    CancellationKey {
                        gate: GateOrRotation::ZRotation,
                        first_qubit: w,
                        second_qubit: None,
                        com_set_index: g,
                        second_index: None,
                    },
                )
            } else if n == 1 && x_rotation_gate(gate) {
                Some(
                    CancellationKey {
                        gate: GateOrRotation::XRotation,
                        first_qubit: w,
                        second_qubit: None,
                        com_set_index: g,
                        second_index: None,
                    },
                )
            } else if n == 2 && op.qubits[0] == w {
                let second = op.qubits[1];
                Some(
                    CancellationKey {
                        gate: GateOrRotation::Gate(gate),
                        first_qubit: w,
                        second_qubit: Some(second),
                        com_set_index: g,
                        second_index: p.anchor(node, second),
                    },
                )
            } else {
                None
            }
        },
    }
}

/// Builds the cancellation sets of a circuit from its commutation analysis.
///
/// Every group of every qubit wire is walked in order; a group that is
/// empty or starts with a node that is not an instruction is passed over.
/// Each node of a looked-at group is filed under `member_key`.  A node of a
/// looked-at group that is not an instruction means that the analysis is
/// malformed, and the result is `NotAnOperation`.
pub fn build_cancellation_sets(c: &Circuit, p: &Partition) -> (r: Result<
    Vec<CancellationSet>,
    PassError,
>)
    ensures
        r is Err <==> scan_fails(c, p),
        r matches Err(e) ==> (e matches PassError::NotAnOperation { node } && op_at(
            c,
            node,
        ) is None),
        r matches Ok(sets) ==> sets@.map_values(|s: CancellationSet| s@) =~= built_sets(c, p),
{
    let mut m = new_set_map();
    let ghost mut done: Seq<(KeyCode, usize)> = Seq::empty();
    let mut w: usize = 0;
    while w < c.num_qubits
        invariant
            w <= c.num_qubits,
            set_entries(m) == grouped(done),
            done == all_ins(c, p, w as int),
            forall|i: int| 0 <= i < set_entries(m).len() ==> code_ok(#[trigger] set_entries(m)[i].0),
            forall|w2: int, g2: int|
                0 <= w2 < w && 0 <= g2 < groups_on(p, w2).len() ==> !#[trigger] bad_group(
                    c,
                    p,
                    w2,
                    g2,
                ),
        decreases c.num_qubits - w,
    {
        let ghost wire_start = done;
        let n_groups: usize = if w < p.groups.len() {
            p.groups[w].len()
        } else {
            0
        };
        assert(n_groups == groups_on(p, w as int).len());
        let mut g: usize = 0;
        assert(done =~= wire_start + wire_ins(c, p, w as int, 0));
        while g < n_groups
            invariant
                w < c.num_qubits,
                n_groups == groups_on(p, w as int).len(),
                w < p.groups@.len() || n_groups == 0,
                g <= n_groups,
                wire_start == all_ins(c, p, w as int),
                set_entries(m) == grouped(done),
                done == wire_start + wire_ins(c, p, w as int, g as int),
                forall|i: int|
                    0 <= i < set_entries(m).len() ==> code_ok(#[trigger] set_entries(m)[i].0),
                forall|w2: int, g2: int|
                    0 <= w2 < w && 0 <= g2 < groups_on(p, w2).len() ==> !#[trigger] bad_group(
                        c,
                        p,
                        w2,
                        g2,
                    ),
                forall|g2: int| 0 <= g2 < g ==> !#[trigger] bad_group(c, p, w as int, g2),
            decreases n_groups - g,
        {
            let group = &p.groups[w][g];
            assert(group@ == group_at(p, w as int, g as int));
            let ghost group_start = done;
            let scanned = group.len() > 0 && c.operation(group[0]).is_some();
            assert(scanned == group_scanned(c, p, w as int, g as int));
            if scanned {
                let mut j: usize = 0;
                assert(done =~= group_start + group_ins(c, p, w as int, g as int, 0));
                while j < group.len()
                    invariant
                        w < c.num_qubits,
                        g < n_groups,
                        n_groups == groups_on(p, w as int).len(),
                        group@ == group_at(p, w as int, g as int),
                        group_scanned(c, p, w as int, g as int),
                        j <= group@.len(),
                        set_entries(m) == grouped(done),
                        group_start == wire_start + wire_ins(c, p, w as int, g as int),
                        done == group_start + group_ins(c, p, w as int, g as int, j as int),
                        forall|i: int|
                            0 <= i < set_entries(m).len() ==> code_ok(
                                #[trigger] set_entries(m)[i].0,
                            ),
                        forall|j2: int| 0 <= j2 < j ==> op_at(c, #[trigger] group@[j2]) is Some,
                    decreases group.len() - j,
                {
                    let node = group[j];
                    match c.operation(node) {
                        None => {
                            assert(bad_group(c, p, w as int, g as int));
                            return Err(PassError::NotAnOperation { node });
                        },
                        Some(op) => {
                            let key = member_key_of(c, p, w, g, node, op);
                            match key {
                                Some(k) => {
                                    let code = encode_key(k);
                                    proof {
                                        lemma_key_code_round_trip(k);
                                    }
                                    file_node(&mut m, code, node);
                                    proof {
                                        let old_done = done;
                                        done = done.push((code, node));
                                        assert(done.drop_last() =~= old_done);
                                    }
                                },
                                None => {},
                            }
                            assert(done =~= group_start + group_ins(
                                c,
                                p,
                                w as int,
                                g as int,
                                j + 1,
                            ));
                        },
                    }
                    j = j + 1;
                }
                assert(!bad_group(c, p, w as int, g as int));
            }
            assert(done =~= wire_start + wire_ins(c, p, w as int, g + 1));
            g = g + 1;
        }
        assert(done =~= all_ins(c, p, w + 1));
        w = w + 1;
    }
    assert(!scan_fails(c, p));
    let ghost entries = set_entries(m);
    let mut filed = into_entries(m);
    let mut sets: Vec<CancellationSet> = Vec::new();
    let mut i: usize = 0;
    while i < filed.len()
        invariant
            i <= filed@.len(),
            filed@.len() == entries.len(),
            entries == grouped(all_ins(c, p, c.num_qubits as int)),
            forall|k: int| 0 <= k < entries.len() ==> code_ok(#[trigger] entries[k].0),
            forall|k: int|
                i <= k < filed@.len() ==> (#[trigger] filed@[k]).0 == entries[k].0 && filed@[k].1@
                    == entries[k].1,
            sets@.len() == i,
            forall|k: int|
                0 <= k < i ==> (#[trigger] sets@[k])@ == (key_of_code(entries[k].0), entries[k].1),
        decreases filed.len() - i,
    {
        let mut nodes: Vec<usize> = Vec::new();
        let code = filed[i].0;
        std::mem::swap(&mut nodes, &mut filed[i].1);
        sets.push(CancellationSet { key: decode_key(code), nodes });
        i = i + 1;
    }
    Ok(sets)
}

} // verus!
