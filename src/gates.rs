//! Gate kinds and the families the pass can cancel or merge.

use vstd::prelude::*;

verus! {

/// The standard gates that the pass tells apart.  Any other standard gate is
/// `Other`, with an identifier that distinguishes it from the rest.
#[derive(Clone, Copy, Debug, PartialEq, Eq, Structural)]
pub enum StandardGate {
    H,
    X,
    Y,
    Z,
    S,
    T,
    Phase,
    U1,
    RZ,
    RX,
    CX,
    CY,
    CZ,
    Other(u32),
}

/// Self-inverse gates whose adjacent pairs cancel.
pub open spec fn is_supported_gate(g: StandardGate) -> bool {
    match g {
        StandardGate::CX | StandardGate::CY | StandardGate::CZ | StandardGate::H
        | StandardGate::Y => true,
        _ => false,
    }
}

/// Gates that are a rotation about the Z axis.
pub open spec fn is_z_rotation_gate(g: StandardGate) -> bool {
    match g {
        StandardGate::Phase | StandardGate::Z | StandardGate::U1 | StandardGate::RZ
        | StandardGate::T | StandardGate::S => true,
        _ => false,
    }
}

/// Gates that are a rotation about the X axis.
pub open spec fn is_x_rotation_gate(g: StandardGate) -> bool {
    match g {
        StandardGate::X | StandardGate::RX => true,
        _ => false,
    }
}

/// Rotation gates whose angle is their numeric parameter.
pub open spec fn is_parametric_rotation(g: StandardGate) -> bool {
    match g {
        StandardGate::Phase | StandardGate::U1 | StandardGate::RZ | StandardGate::RX => true,
        _ => false,
    }
}

pub fn supported_gate(g: StandardGate) -> (r: bool)
    ensures
        r == is_supported_gate(g),
{
    match g {
        StandardGate::CX | StandardGate::CY | StandardGate::CZ | StandardGate::H
        | StandardGate::Y => true,
        _ => false,
    }
}

pub fn z_rotation_gate(g: StandardGate) -> (r: bool)
    ensures
        r == is_z_rotation_gate(g),
{
    match g {
        StandardGate::Phase | StandardGate::Z | StandardGate::U1 | StandardGate::RZ
        | StandardGate::T | StandardGate::S => true,
        _ => false,
    }
}

pub fn x_rotation_gate(g: StandardGate) -> (r: bool)
    ensures
        r == is_x_rotation_gate(g),
{
    match g {
        StandardGate::X | StandardGate::RX => true,
        _ => false,
    }
}

/// What one gate of a rotation chain adds to the chain's angle and to the
/// global phase.  Fixed amounts are counted in eighths of pi.
#[derive(Clone, Copy, Debug, PartialEq, Eq, Structural)]
pub enum Contribution {
    /// The angle grows by its gate's parameter `f`; the phase by `f / 2`
    /// when `half_phase` holds, else not at all.
    Param { node: usize, half_phase: bool },
    /// Both grow by fixed multiples of pi / 8.
    Fixed { angle_eighths: u64, phase_eighths: u64 },
}

/// The angle and phase table of the rotation gates: `p` and `u1` add `f` and
/// `f / 2`, `rz` and `rx` add `f` and nothing, `z` and `x` add pi and pi / 2,
/// `s` adds pi / 2 and pi / 4, `t` adds pi / 4 and pi / 8.
pub open spec fn contribution_of(g: StandardGate, node: usize) -> Option<Contribution> {
    match g {
        StandardGate::Phase | StandardGate::U1 => Some(
            Contribution::Param { node, half_phase: true },
        ),
        StandardGate::RZ | StandardGate::RX => Some(
            Contribution::Param { node, half_phase: false },
        ),
        StandardGate::Z | StandardGate::X => Some(
            Contribution::Fixed { angle_eighths: 8, phase_eighths: 4 },
        ),
        StandardGate::S => Some(Contribution::Fixed { angle_eighths: 4, phase_eighths: 2 }),
        StandardGate::T => Some(Contribution::Fixed { angle_eighths: 2, phase_eighths: 1 }),
        _ => None,
    }
}

pub fn contribution(g: StandardGate, node: usize) -> (r: Option<Contribution>)
    ensures
        r == contribution_of(g, node),
{
    match g {
        StandardGate::Phase | StandardGate::U1 => Some(
            Contribution::Param { node, half_phase: true },
        ),
        StandardGate::RZ | StandardGate::RX => Some(
            Contribution::Param { node, half_phase: false },
        ),
        StandardGate::Z | StandardGate::X => Some(
            Contribution::Fixed { angle_eighths: 8, phase_eighths: 4 },
        ),
        StandardGate::S => Some(Contribution::Fixed { angle_eighths: 4, phase_eighths: 2 }),
        StandardGate::T => Some(Contribution::Fixed { angle_eighths: 2, phase_eighths: 1 }),
        _ => None,
    }
}

/// Every gate of the two rotation families has an entry in the table.
pub proof fn lemma_rotation_families_have_contributions(g: StandardGate, node: usize)
    requires
        is_z_rotation_gate(g) || is_x_rotation_gate(g),
    ensures
        contribution_of(g, node).is_some(),
        is_parametric_rotation(g) <==> contribution_of(g, node) matches Some(
            Contribution::Param { .. },
        ),
{
}

/// The parameterized Z rotations, in the order in which they are preferred.
pub open spec fn var_z_name(i: int) -> Seq<char> {
    if i == 0 {
        seq!['r', 'z']
    } else if i == 1 {
        seq!['p']
    } else {
        seq!['u', '1']
    }
}

pub open spec fn var_z_gate_at(i: int) -> StandardGate {
    if i == 0 {
        StandardGate::RZ
    } else if i == 1 {
        StandardGate::Phase
    } else {
        StandardGate::U1
    }
}

pub open spec fn names_contain(names: Seq<String>, name: Seq<char>) -> bool {
    exists|j: int| 0 <= j < names.len() && (#[trigger] names[j])@ == name
}

/// Index of the first preferred parameterized Z rotation named in `names`,
/// or 3 when none is.
pub open spec fn first_var_z(names: Seq<String>) -> int {
    if names_contain(names, var_z_name(0)) {
        0
    } else if names_contain(names, var_z_name(1)) {
        1
    } else if names_contain(names, var_z_name(2)) {
        2
    } else {
        3
    }
}

/// The parameterized Z rotation that the circuit's own operations offer,
/// else the one that the basis offers, each in the order rz, p, u1.
pub open spec fn resolved_var_z(op_names: Seq<String>, basis: Seq<String>) -> Option<StandardGate> {
    if first_var_z(op_names) < 3 {
        Some(var_z_gate_at(first_var_z(op_names)))
    } else if first_var_z(basis) < 3 {
        Some(var_z_gate_at(first_var_z(basis)))
    } else {
        None
    }
}

fn contains_name(names: &Vec<String>, name: &String) -> (r: bool)
    ensures
        r == names_contain(names@, name@),
{
    let mut j: usize = 0;
    while j < names.len()
        invariant
            j <= names.len(),
            forall|k: int| 0 <= k < j ==> (#[trigger] names@[k])@ != name@,
        decreases names.len() - j,
    {
        if names[j].eq(name) {
            return true;
        }
        j = j + 1;
    }
    false
}

fn var_z_string(i: usize) -> (r: String)
    requires
        i < 3,
    ensures
        r@ == var_z_name(i as int),
{
    if i == 0 {
        proof {
            reveal_strlit("rz");
        }
        "rz".to_owned()
    } else if i == 1 {
        proof {
            reveal_strlit("p");
        }
        "p".to_owned()
    } else {
        proof {
            reveal_strlit("u1");
        }
        "u1".to_owned()
    }
}

fn find_var_z(names: &Vec<String>) -> (r: usize)
    ensures
        r as int == first_var_z(names@),
{
    let mut i: usize = 0;
    while i < 3
        invariant
            i <= 3,
            forall|k: int| 0 <= k < i ==> !names_contain(names@, #[trigger] var_z_name(k)),
        decreases 3 - i,
    {
        let name = var_z_string(i);
        if contains_name(names, &name) {
            return i;
        }
        i = i + 1;
    }
    assert(!names_contain(names@, var_z_name(0)));
    assert(!names_contain(names@, var_z_name(1)));
    assert(!names_contain(names@, var_z_name(2)));
    3
}

fn var_z_gate(i: usize) -> (r: StandardGate)
    ensures
        r == var_z_gate_at(i as int),
{
    if i == 0 {
        StandardGate::RZ
    } else if i == 1 {
        StandardGate::Phase
    } else {
        StandardGate::U1
    }
}

/// Picks the parameterized Z rotation that merged Z chains may be written
/// with: the first of rz, p, u1 among the names of the operations that the
/// circuit uses, else the first of them in the target basis, else none.
pub fn resolve_var_z_gate(op_names: &Vec<String>, basis: &Vec<String>) -> (r: Option<StandardGate>)
    ensures
        r == resolved_var_z(op_names@, basis@),
{
    let i = find_var_z(op_names);
    if i < 3 {
        return Some(var_z_gate(i));
    }
    let j = find_var_z(basis);
    if j < 3 {
        Some(var_z_gate(j))
    } else {
        None
    }
}

} // verus!
