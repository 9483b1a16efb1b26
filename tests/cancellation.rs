use commutation_cancellation::{
    build_cancellation_sets, cancel_commutations, plan_rewrites, resolve_var_z_gate,
    settle_rotation, Anchor, Axis, CancellationKey, CancellationSet, Circuit, Contribution,
    GateOrRotation, NodeType, Operation, PassError, Partition, Rewrite, StandardGate,
};
use std::f64::consts::PI;

fn gate(g: StandardGate, qubits: Vec<usize>) -> NodeType {
    NodeType::Operation(Operation {
        gate: Some(g),
        qubits,
        parameterized: false,
        numeric_angle: true,
    })
}

fn names(list: &[&str]) -> Vec<String> {
    list.iter().map(|s| s.to_string()).collect()
}

fn one_wire(nodes: Vec<NodeType>, groups: Vec<Vec<usize>>) -> (Circuit, Partition) {
    (
        Circuit { nodes, num_qubits: 1 },
        Partition { groups: vec![groups], anchors: vec![] },
    )
}

/// Sums a merged chain's terms in order, as the pass does with the angles.
fn totals(rw: &Rewrite, params: &[f64]) -> (f64, f64) {
    let mut angle = 0.0;
    let mut phase = 0.0;
    if let Rewrite::MergeRotation { terms, .. } = rw {
        for t in terms {
            match *t {
                Contribution::Param { node, half_phase } => {
                    angle += params[node];
                    if half_phase {
                        phase += params[node] / 2.0;
                    }
                }
                Contribution::Fixed { angle_eighths, phase_eighths } => {
                    angle += angle_eighths as f64 * PI / 8.0;
                    phase += phase_eighths as f64 * PI / 8.0;
                }
            }
        }
    }
    (angle, phase)
}

#[test]
fn rz_chain_summing_to_two_pi_leaves_only_a_phase() {
    let (c, p) = one_wire(
        vec![
            gate(StandardGate::RZ, vec![0]),
            gate(StandardGate::RZ, vec![0]),
            gate(StandardGate::RZ, vec![0]),
        ],
        vec![vec![0, 1, 2]],
    );
    let r = cancel_commutations(&c, &p, &names(&["rz"]), None).unwrap();
    assert_eq!(r.len(), 1);
    match &r[0] {
        Rewrite::MergeRotation { axis, nodes, terms } => {
            assert_eq!(*axis, Axis::Z);
            assert_eq!(nodes, &vec![0, 1, 2]);
            assert_eq!(terms.len(), 3);
            assert_eq!(terms[2], Contribution::Param { node: 2, half_phase: false });
        }
        _ => panic!("expected a merge"),
    }
    let (angle, phase) = totals(&r[0], &[PI / 2.0, PI / 2.0, PI]);
    let reduced = angle.rem_euclid(4.0 * PI);
    let near_two_pi = (reduced - 2.0 * PI).abs() < 1e-5;
    let clear = reduced > 1e-5 && 4.0 * PI - reduced > 1e-5;
    let s = settle_rotation(near_two_pi, clear);
    assert!(!s.insert_rotation);
    assert_eq!(s.extra_phase_eighths, 8);
    let total_phase = phase + s.extra_phase_eighths as f64 * PI / 8.0;
    assert!((total_phase - PI).abs() < 1e-12);
}

fn cx_circuit(second_group_of_second: usize) -> (Circuit, Partition) {
    let c = Circuit {
        nodes: vec![gate(StandardGate::CX, vec![0, 1]), gate(StandardGate::CX, vec![0, 1])],
        num_qubits: 2,
    };
    let p = Partition {
        groups: vec![vec![vec![0, 1]], vec![vec![0], vec![1]]],
        anchors: vec![
            Anchor { node: 0, wire: 1, group: 0 },
            Anchor { node: 1, wire: 1, group: second_group_of_second },
        ],
    };
    (c, p)
}

#[test]
fn two_cx_in_shared_groups_cancel() {
    let (c, mut p) = cx_circuit(0);
    p.groups[1] = vec![vec![0, 1]];
    let r = cancel_commutations(&c, &p, &vec![], None).unwrap();
    assert_eq!(r.len(), 1);
    match &r[0] {
        Rewrite::Remove { nodes } => assert_eq!(nodes, &vec![0, 1]),
        _ => panic!("expected a removal"),
    }
}

#[test]
fn two_cx_in_different_groups_of_second_qubit_stay() {
    let (c, p) = cx_circuit(1);
    let sets = build_cancellation_sets(&c, &p).unwrap();
    assert_eq!(sets.len(), 2);
    assert_eq!(sets[0].key.second_index, Some(0));
    assert_eq!(sets[1].key.second_index, Some(1));
    assert!(cancel_commutations(&c, &p, &vec![], None).unwrap().is_empty());
}

#[test]
fn t_pair_without_variable_z_rotation_stays() {
    let (c, p) = one_wire(
        vec![gate(StandardGate::T, vec![0]), gate(StandardGate::T, vec![0])],
        vec![vec![0, 1]],
    );
    let r = cancel_commutations(&c, &p, &names(&["t"]), Some(names(&["h", "cx"]))).unwrap();
    assert!(r.is_empty());
    let r = cancel_commutations(&c, &p, &names(&["t"]), None).unwrap();
    assert!(r.is_empty());
}

#[test]
fn t_pair_with_rz_in_basis_merges() {
    let (c, p) = one_wire(
        vec![gate(StandardGate::T, vec![0]), gate(StandardGate::T, vec![0])],
        vec![vec![0, 1]],
    );
    let r = cancel_commutations(&c, &p, &names(&["t"]), Some(names(&["rz"]))).unwrap();
    assert_eq!(r.len(), 1);
    let (angle, phase) = totals(&r[0], &[0.0, 0.0]);
    assert!((angle - PI / 2.0).abs() < 1e-12);
    assert!((phase - PI / 4.0).abs() < 1e-12);
    assert!(settle_rotation(false, true).insert_rotation);
}

#[test]
fn rz_on_different_qubits_are_in_different_sets() {
    let c = Circuit {
        nodes: vec![gate(StandardGate::RZ, vec![0]), gate(StandardGate::RZ, vec![1])],
        num_qubits: 2,
    };
    let p = Partition { groups: vec![vec![vec![0]], vec![vec![1]]], anchors: vec![] };
    let sets = build_cancellation_sets(&c, &p).unwrap();
    assert_eq!(sets.len(), 2);
    assert_eq!(sets[0].nodes, vec![0]);
    assert_eq!(sets[0].key.first_qubit, 0);
    assert_eq!(sets[1].nodes, vec![1]);
    assert_eq!(sets[1].key.first_qubit, 1);
    assert!(cancel_commutations(&c, &p, &names(&["rz"]), None).unwrap().is_empty());
}

#[test]
fn odd_run_of_hadamards_keeps_one() {
    let (c, p) = one_wire(
        vec![
            gate(StandardGate::H, vec![0]),
            gate(StandardGate::H, vec![0]),
            gate(StandardGate::H, vec![0]),
        ],
        vec![vec![0, 1, 2]],
    );
    let r = cancel_commutations(&c, &p, &vec![], None).unwrap();
    assert_eq!(r.len(), 1);
    match &r[0] {
        Rewrite::Remove { nodes } => assert_eq!(nodes, &vec![0, 1]),
        _ => panic!("expected a removal"),
    }
}

#[test]
fn second_run_after_cancelling_changes_nothing() {
    let (c, p) = one_wire(
        vec![gate(StandardGate::Y, vec![0]), gate(StandardGate::Y, vec![0])],
        vec![vec![0, 1]],
    );
    let r = cancel_commutations(&c, &p, &vec![], None).unwrap();
    assert_eq!(r.len(), 1);
    let (c2, p2) = one_wire(vec![NodeType::Boundary, NodeType::Boundary], vec![]);
    assert!(cancel_commutations(&c2, &p2, &vec![], None).unwrap().is_empty());
}

#[test]
fn x_chain_merges_with_fixed_and_param_terms() {
    let (c, p) = one_wire(
        vec![gate(StandardGate::X, vec![0]), gate(StandardGate::RX, vec![0])],
        vec![vec![0, 1]],
    );
    let r = cancel_commutations(&c, &p, &vec![], None).unwrap();
    match &r[0] {
        Rewrite::MergeRotation { axis, terms, .. } => {
            assert_eq!(*axis, Axis::X);
            assert_eq!(terms[0], Contribution::Fixed { angle_eighths: 8, phase_eighths: 4 });
            assert_eq!(terms[1], Contribution::Param { node: 1, half_phase: false });
        }
        _ => panic!("expected a merge"),
    }
}

#[test]
fn z_family_terms_follow_the_table() {
    let (c, p) = one_wire(
        vec![
            gate(StandardGate::S, vec![0]),
            gate(StandardGate::Z, vec![0]),
            gate(StandardGate::Phase, vec![0]),
            gate(StandardGate::U1, vec![0]),
        ],
        vec![vec![0, 1, 2, 3]],
    );
    let r = cancel_commutations(&c, &p, &names(&["p"]), None).unwrap();
    match &r[0] {
        Rewrite::MergeRotation { terms, .. } => {
            assert_eq!(terms[0], Contribution::Fixed { angle_eighths: 4, phase_eighths: 2 });
            assert_eq!(terms[1], Contribution::Fixed { angle_eighths: 8, phase_eighths: 4 });
            assert_eq!(terms[2], Contribution::Param { node: 2, half_phase: true });
            assert_eq!(terms[3], Contribution::Param { node: 3, half_phase: true });
        }
        _ => panic!("expected a merge"),
    }
    let (angle, phase) = totals(&r[0], &[0.0, 0.0, 0.4, 0.2]);
    assert!((angle - (1.5 * PI + 0.6)).abs() < 1e-12);
    assert!((phase - (0.75 * PI + 0.3)).abs() < 1e-12);
}

#[test]
fn non_operation_in_a_group_is_an_error() {
    let (c, p) = one_wire(
        vec![gate(StandardGate::H, vec![0]), NodeType::Boundary],
        vec![vec![0, 1]],
    );
    assert_eq!(
        cancel_commutations(&c, &p, &vec![], None).unwrap_err(),
        PassError::NotAnOperation { node: 1 }
    );
}

#[test]
fn group_starting_with_a_boundary_is_passed_over() {
    let (c, p) = one_wire(
        vec![NodeType::Boundary, gate(StandardGate::H, vec![0]), gate(StandardGate::H, vec![0])],
        vec![vec![0, 1, 2]],
    );
    assert!(build_cancellation_sets(&c, &p).unwrap().is_empty());
}

#[test]
fn symbolic_rotation_parameter_is_an_error() {
    let mut rz = Operation {
        gate: Some(StandardGate::RX),
        qubits: vec![0],
        parameterized: false,
        numeric_angle: false,
    };
    let (c, p) = one_wire(
        vec![gate(StandardGate::X, vec![0]), NodeType::Operation(rz.clone())],
        vec![vec![0, 1]],
    );
    assert_eq!(
        cancel_commutations(&c, &p, &vec![], None).unwrap_err(),
        PassError::SymbolicParameter { node: 1 }
    );
    rz.parameterized = true;
    let (c, p) = one_wire(
        vec![gate(StandardGate::X, vec![0]), NodeType::Operation(rz)],
        vec![vec![0, 1]],
    );
    assert!(cancel_commutations(&c, &p, &vec![], None).unwrap().is_empty());
}

#[test]
fn gate_without_angle_in_rotation_set_is_an_error() {
    let (c, _) = one_wire(
        vec![gate(StandardGate::RZ, vec![0]), gate(StandardGate::H, vec![0])],
        vec![vec![0, 1]],
    );
    let set = CancellationSet {
        key: CancellationKey {
            gate: GateOrRotation::ZRotation,
            first_qubit: 0,
            second_qubit: None,
            com_set_index: 0,
            second_index: None,
        },
        nodes: vec![0, 1],
    };
    assert_eq!(
        plan_rewrites(&c, &vec![set], true).unwrap_err(),
        PassError::AngleUndefined { node: 1 }
    );
}

#[test]
fn variable_z_rotation_is_resolved_by_priority() {
    assert_eq!(resolve_var_z_gate(&names(&["u1", "p"]), &vec![]), Some(StandardGate::Phase));
    assert_eq!(
        resolve_var_z_gate(&names(&["h"]), &names(&["u1", "rz"])),
        Some(StandardGate::RZ)
    );
    assert_eq!(resolve_var_z_gate(&names(&["u1"]), &names(&["rz"])), Some(StandardGate::U1));
    assert_eq!(resolve_var_z_gate(&names(&["h"]), &names(&["cx"])), None);
}

#[test]
fn settlement_near_ends_inserts_nothing() {
    let s = settle_rotation(false, false);
    assert!(!s.insert_rotation);
    assert_eq!(s.extra_phase_eighths, 0);
    let s = settle_rotation(false, true);
    assert!(s.insert_rotation);
    assert_eq!(s.extra_phase_eighths, 0);
}

#[test]
fn sets_keep_first_seen_order_across_wires() {
    let c = Circuit {
        nodes: vec![
            gate(StandardGate::H, vec![1]),
            gate(StandardGate::RZ, vec![0]),
            gate(StandardGate::H, vec![1]),
            gate(StandardGate::CZ, vec![1, 0]),
        ],
        num_qubits: 2,
    };
    let p = Partition {
        groups: vec![vec![vec![1], vec![3]], vec![vec![0, 2, 3]]],
        anchors: vec![Anchor { node: 3, wire: 0, group: 1 }],
    };
    let sets = build_cancellation_sets(&c, &p).unwrap();
    assert_eq!(sets.len(), 3);
    assert_eq!(sets[0].key.gate, GateOrRotation::ZRotation);
    assert_eq!(sets[1].key.gate, GateOrRotation::Gate(StandardGate::H));
    assert_eq!(sets[1].nodes, vec![0, 2]);
    assert_eq!(sets[2].key.second_qubit, Some(0));
    assert_eq!(sets[2].key.second_index, Some(1));
    assert_eq!(sets[2].key.com_set_index, 0);
}
