//! Laws of the pass that relate its parts.

use vstd::prelude::*;
use crate::circuit::{group_at, groups_on, op_at, Circuit, Partition};
use crate::error::PassError;
use crate::merge::{plan_of, RewriteView};
use crate::sets::{
    all_ins, built_sets, group_ins, group_scanned, grouped, key_of_code, lemma_key_code_round_trip,
    member_key, push_entry, wire_ins, CancellationKey, KeyCode,
};

verus! {

/// The qubits that the members of a set with key `k` act on.
pub open spec fn key_qubits(k: CancellationKey) -> Seq<usize> {
    match k.second_qubit {
        None => seq![k.first_qubit],
        Some(q) => seq![k.first_qubit, q],
    }
}

/// The analysis lists each single-qubit instruction only on the wire of its
/// qubit.
pub open spec fn partition_consistent(c: &Circuit, p: &Partition) -> bool {
    forall|w: int, g: int, j: int|
        0 <= w < c.num_qubits && 0 <= g < groups_on(p, w).len() && 0 <= j < group_at(p, w, g).len()
            ==> match op_at(c, #[trigger] group_at(p, w, g)[j]) {
            Some(op) => op.qubits@.len() == 1 ==> op.qubits@[0] == w,
            None => true,
        }
}

/// `node` is an instruction on exactly the qubits of the key coded `code`.
pub open spec fn acts_on_key(c: &Circuit, code: KeyCode, node: usize) -> bool {
    match op_at(c, node) {
        Some(op) => op.qubits@ == key_qubits(key_of_code(code)),
        None => false,
    }
}

pub open spec fn all_act_on_key(c: &Circuit, s: Seq<(KeyCode, usize)>) -> bool {
    forall|k: int| 0 <= k < s.len() ==> acts_on_key(c, (#[trigger] s[k]).0, s[k].1)
}

proof fn lemma_group_ins(c: &Circuit, p: &Partition, w: int, g: int, j: int)
    requires
        partition_consistent(c, p),
        0 <= w < c.num_qubits,
        0 <= g < groups_on(p, w).len(),
        j <= group_at(p, w, g).len(),
    ensures
        all_act_on_key(c, group_ins(c, p, w, g, j)),
    decreases j,
{
    if j > 0 {
        lemma_group_ins(c, p, w, g, j - 1);
        let node = group_at(p, w, g)[j - 1];
        match member_key(c, p, w, g, node) {
            Some(k) => {
                lemma_key_code_round_trip(k);
                let prev = group_ins(c, p, w, g, j - 1);
                assert forall|i: int| 0 <= i < prev.len() + 1 implies acts_on_key(
                    c,
                    (#[trigger] group_ins(c, p, w, g, j)[i]).0,
                    group_ins(c, p, w, g, j)[i].1,
                ) by {
                    if i < prev.len() {
                        assert(group_ins(c, p, w, g, j)[i] == prev[i]);
                    } else {
                        assert(group_at(p, w, g)[j - 1] == node);
                        let op = op_at(c, node)->Some_0;
                        assert(op.qubits@ =~= key_qubits(k));
                    }
                }
            },
            None => {},
        }
    }
}

proof fn lemma_wire_ins(c: &Circuit, p: &Partition, w: int, g: int)
    requires
        partition_consistent(c, p),
        0 <= w < c.num_qubits,
        g <= groups_on(p, w).len(),
    ensures
        all_act_on_key(c, wire_ins(c, p, w, g)),
    decreases g,
{
    if g > 0 {
        lemma_wire_ins(c, p, w, g - 1);
        if group_scanned(c, p, w, g - 1) {
            let a = wire_ins(c, p, w, g - 1);
            let b = group_ins(c, p, w, g - 1, group_at(p, w, g - 1).len() as int);
            lemma_group_ins(c, p, w, g - 1, group_at(p, w, g - 1).len() as int);
            assert forall|k: int| 0 <= k < a.len() + b.len() implies acts_on_key(
                c,
                (#[trigger] (a + b)[k]).0,
                (a + b)[k].1,
            ) by {
                if k < a.len() {
                    assert((a + b)[k] == a[k]);
                } else {
                    assert((a + b)[k] == b[k - a.len()]);
                }
            }
        }
    }
}

proof fn lemma_all_ins(c: &Circuit, p: &Partition, w: int)
    requires
        partition_consistent(c, p),
        w <= c.num_qubits,
    ensures
        all_act_on_key(c, all_ins(c, p, w)),
    decreases w,
{
    if w > 0 {
        lemma_all_ins(c, p, w - 1);
        let a = all_ins(c, p, w - 1);
        let b = wire_ins(c, p, w - 1, groups_on(p, w - 1).len() as int);
        lemma_wire_ins(c, p, w - 1, groups_on(p, w - 1).len() as int);
        assert forall|k: int| 0 <= k < a.len() + b.len() implies acts_on_key(
            c,
            (#[trigger] (a + b)[k]).0,
            (a + b)[k].1,
        ) by {
            if k < a.len() {
                assert((a + b)[k] == a[k]);
            } else {
                assert((a + b)[k] == b[k - a.len()]);
            }
        }
    }
}

proof fn lemma_grouped(c: &Circuit, s: Seq<(KeyCode, usize)>)
    requires
        all_act_on_key(c, s),
    ensures
        forall|i: int, j: int|
            0 <= i < grouped(s).len() && 0 <= j < grouped(s)[i].1.len() ==> acts_on_key(
                c,
                grouped(s)[i].0,
                #[trigger] grouped(s)[i].1[j],
            ),
    decreases s.len(),
{
    if s.len() > 0 {
        let prev = s.drop_last();
        assert forall|k: int| 0 <= k < prev.len() implies acts_on_key(
            c,
            (#[trigger] prev[k]).0,
            prev[k].1,
        ) by {
            assert(prev[k] == s[k]);
        }
        lemma_grouped(c, prev);
        let x = s.last();
        assert(acts_on_key(c, s[s.len() - 1].0, s[s.len() - 1].1));
        let e = grouped(prev);
        assert(grouped(s) == push_entry(e, x));
    }
}

/// The members of every cancellation set act on the same qubits, those of
/// the set's key; so operations on different qubits never share a set.
/// This holds where the analysis lists single-qubit instructions on their
/// own wire only.
pub proof fn lemma_sets_share_qubits(c: &Circuit, p: &Partition, i: int, j1: int, j2: int)
    requires
        partition_consistent(c, p),
        0 <= i < built_sets(c, p).len(),
        0 <= j1 < built_sets(c, p)[i].1.len(),
        0 <= j2 < built_sets(c, p)[i].1.len(),
    ensures
        op_at(c, built_sets(c, p)[i].1[j1]) matches Some(op1) && op_at(
            c,
            built_sets(c, p)[i].1[j2],
        ) matches Some(op2) && op1.qubits@ == key_qubits(built_sets(c, p)[i].0) && op2.qubits@
            == op1.qubits@,
{
    let s = all_ins(c, p, c.num_qubits as int);
    lemma_all_ins(c, p, c.num_qubits as int);
    lemma_grouped(c, s);
    assert(acts_on_key(c, grouped(s)[i].0, grouped(s)[i].1[j1]));
    assert(acts_on_key(c, grouped(s)[i].0, grouped(s)[i].1[j2]));
}

/// Sets that each hold at most one node call for no rewrite: once every
/// run has been cancelled or merged down to a single operation, planning
/// again over such sets changes nothing.
pub proof fn lemma_single_members_are_left_alone(
    c: &Circuit,
    sets: Seq<(CancellationKey, Seq<usize>)>,
    z_resolved: bool,
)
    requires
        forall|i: int| 0 <= i < sets.len() ==> (#[trigger] sets[i]).1.len() <= 1,
    ensures
        plan_of(c, sets, z_resolved) == Ok::<Seq<RewriteView>, PassError>(Seq::empty()),
    decreases sets.len(),
{
    if sets.len() > 0 {
        let prev = sets.drop_last();
        assert forall|i: int| 0 <= i < prev.len() implies (#[trigger] prev[i]).1.len() <= 1 by {
            assert(prev[i] == sets[i]);
        }
        lemma_single_members_are_left_alone(c, prev, z_resolved);
        assert(sets.last() == sets[sets.len() - 1]);
    }
}

} // verus!
