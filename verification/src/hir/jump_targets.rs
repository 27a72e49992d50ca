//! Control-flow discovery: one pass over a unit that collects the offsets at
//! which blocks begin.

use vstd::prelude::*;
use vstd::arithmetic::div_mod::lemma_mod_multiples_vanish;
use crate::hir::iseq::{get_arg, wrap_u32, Iseq, Opcode};

verus! {

/// Each entry is smaller than the next: the sequence is sorted and holds
/// nothing twice.
pub open spec fn strictly_increasing(s: Seq<u32>) -> bool {
    forall|i: int, j: int| 0 <= i < j < s.len() ==> s[i] < s[j]
}

/// Compute the instruction offset that lies `offset` words from `idx`,
/// wrapping around at 32 bits.
pub fn insn_idx_at_offset(idx: u32, offset: i64) -> (target: u32)
    ensures
        target == wrap_u32(idx + offset),
{
    let wide: i128 = idx as i128 + offset as i128;
    let lifted: i128 = wide + 0x1_0000_0000_0000_0000;
    let rest: i128 = lifted % 0x1_0000_0000;
    proof {
        lemma_mod_multiples_vanish(0x1_0000_0000, wide as int, 0x1_0000_0000);
    }
    rest as u32
}

/// Two sorted sequences without duplicates that hold the same numbers are
/// the same sequence: what a set of targets looks like once sorted does not
/// depend on the order in which the targets were found.
pub proof fn lemma_sorted_targets_unique(a: Seq<u32>, b: Seq<u32>)
    requires
        strictly_increasing(a),
        strictly_increasing(b),
        forall|t: u32| a.contains(t) <==> b.contains(t),
    ensures
        a == b,
    decreases a.len(),
{
    if a.len() == 0 {
        if b.len() > 0 {
            assert(b.contains(b[0]));
        }
        assert(a =~= b);
    } else {
        assert(a.contains(a[0]));
        let jb = choose|j: int| 0 <= j < b.len() && b[j] == a[0];
        assert(b.contains(b[0]));
        let ja = choose|j: int| 0 <= j < a.len() && a[j] == b[0];
        assert(a[0] == b[0]);
        let ta = a.subrange(1, a.len() as int);
        let tb = b.subrange(1, b.len() as int);
        assert forall|t: u32| ta.contains(t) <==> tb.contains(t) by {
            if ta.contains(t) {
                let i = choose|i: int| 0 <= i < ta.len() && ta[i] == t;
                assert(a[i + 1] == t);
                assert(a.contains(t));
                let j = choose|j: int| 0 <= j < b.len() && b[j] == t;
                assert(j > 0);
                assert(tb[j - 1] == t);
            }
            if tb.contains(t) {
                let i = choose|i: int| 0 <= i < tb.len() && tb[i] == t;
                assert(b[i + 1] == t);
                assert(b.contains(t));
                let j = choose|j: int| 0 <= j < a.len() && a[j] == t;
                assert(j > 0);
                assert(ta[j - 1] == t);
            }
        }
        lemma_sorted_targets_unique(ta, tb);
        assert(a =~= seq![a[0]] + ta);
        assert(b =~= seq![b[0]] + tb);
    }
}

/// Adds `target` to a sorted list of targets, unless it is there already.
fn insert_target(targets: &mut Vec<u32>, target: u32)
    requires
        strictly_increasing(old(targets)@),
    ensures
        strictly_increasing(final(targets)@),
        forall|t: u32| final(targets)@.contains(t) <==> (old(targets)@.contains(t) || t == target),
{
    let mut i: usize = 0;
    loop
        invariant
            i <= targets.len(),
            targets@ == old(targets)@,
            forall|k: int| 0 <= k < i ==> targets@[k] < target,
        ensures
            i <= targets.len(),
            targets@ == old(targets)@,
            forall|k: int| 0 <= k < i ==> targets@[k] < target,
            i < targets.len() ==> targets@[i as int] >= target,
        decreases targets.len() - i,
    {
        if i >= targets.len() {
            break ;
        }
        if targets[i] >= target {
            break ;
        }
        i += 1;
    }
    if i < targets.len() && targets[i] == target {
        assert(targets@.contains(target));
        return ;
    }
    targets.insert(i, target);
    proof {
        let before = old(targets)@;
        let after = targets@;
        assert forall|a: int, b: int| 0 <= a < b < after.len() implies after[a] < after[b] by {
            if b < i {
            } else if b == i {
            } else if a < i {
                assert(after[b] == before[b - 1]);
            } else if a == i {
                assert(after[b] == before[b - 1]);
            } else {
                assert(after[a] == before[a - 1]);
                assert(after[b] == before[b - 1]);
            }
        }
        assert forall|t: u32| after.contains(t) <==> (before.contains(t) || t == target) by {
            if after.contains(t) {
                let k = choose|k: int| 0 <= k < after.len() && after[k] == t;
                if k < i {
                    assert(before[k] == t);
                } else if k > i {
                    assert(before[k - 1] == t);
                }
            }
            if before.contains(t) {
                let k = choose|k: int| 0 <= k < before.len() && before[k] == t;
                if k < i {
                    assert(after[k] == t);
                } else {
                    assert(after[k + 1] == t);
                }
            }
            if t == target {
                assert(after[i as int] == t);
            }
        }
    }
}

/// The jump targets of a unit, in ascending order and each once: every
/// offset that a branch names, and every offset behind an instruction that
/// leaves the method, unless the stream ends there. The latter are kept as
/// possible merge points though no branch may lead to them.
pub fn compute_jump_targets(iseq: &Iseq) -> (targets: Vec<u32>)
    requires
        iseq@.scannable(),
    ensures
        strictly_increasing(targets@),
        forall|t: u32| targets@.contains(t) <==> iseq@.jump_targets().contains(t),
{
    let iseq_size: u32 = iseq.encoded_size() as u32;
    let mut insn_idx: u32 = 0;
    let mut jump_targets: Vec<u32> = Vec::new();
    while insn_idx < iseq_size
        invariant
            iseq_size == iseq@.size(),
            insn_idx <= iseq_size,
            iseq@.scannable_from(insn_idx as int),
            strictly_increasing(jump_targets@),
            forall|t: u32|
                (jump_targets@.contains(t) || iseq@.jump_targets_from(insn_idx as int).contains(t))
                    <==> iseq@.jump_targets().contains(t),
        decreases iseq_size - insn_idx,
    {
        // Get the current pc and opcode
        let pc = insn_idx;
        let opcode = Opcode::decode(iseq.opcode_at(pc));
        insn_idx = insn_idx + iseq.insn_len(pc) as u32;
        proof {
            assert(insn_idx == iseq@.next(pc as int));
            assert(iseq@.jump_targets_from(pc as int) == iseq@.targets_at(pc as int).union(
                iseq@.jump_targets_from(insn_idx as int),
            ));
        }
        let ghost found = jump_targets@;
        match opcode {
            Opcode::BranchUnless | Opcode::Jump | Opcode::BranchIf | Opcode::BranchNil => {
                let offset = get_arg(iseq, pc, 0).as_i64();
                insert_target(&mut jump_targets, insn_idx_at_offset(insn_idx, offset));
            },
            Opcode::Leave | Opcode::DelegateLeave => {
                if insn_idx < iseq_size {
                    insert_target(&mut jump_targets, insn_idx);
                }
            },
            _ => {},
        }
        proof {
            assert forall|t: u32|
                (jump_targets@.contains(t) || iseq@.jump_targets_from(insn_idx as int).contains(
                    t,
                )) <==> iseq@.jump_targets().contains(t) by {
                assert(jump_targets@.contains(t) <==> (found.contains(t) || iseq@.targets_at(
                    pc as int,
                ).contains(t)));
            }
        }
    }
    jump_targets
}

} // verus!
