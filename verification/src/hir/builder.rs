//! Translation of a whole unit: a worklist of blocks, each translated once,
//! in the order in which control was found to reach them.

use vstd::prelude::*;
use std::collections::HashMap;
use std::collections::VecDeque;
use crate::hir::frame_state::{FrameState, FrameStateView, ParseError, ParseErrorView};
use crate::hir::function::{Function, FunctionView};
use crate::hir::id::{BlockId, InsnId};
use crate::hir::insn::{Insn, InsnView};
use crate::hir::iseq::{num_lead_params, num_locals, Iseq, IseqView};
use crate::hir::jump_targets::{compute_jump_targets, lemma_sorted_targets_unique};
use crate::hir::jump_targets::strictly_increasing;
use crate::hir::lowering::{translate_insn, Pending, PendingView, Unit, UnitView};
use crate::hir::profile::{InsnProfile, IseqPayload};
use crate::hir::value::{RUBY_Qnil, VALUE};

verus! {

broadcast use vstd::std_specs::hash::group_hash_axioms;

/// The number of blocks that have not been translated yet.
pub open spec fn count_unvisited(visited: Seq<bool>) -> nat
    decreases visited.len(),
{
    if visited.len() == 0 {
        0
    } else {
        count_unvisited(visited.drop_last()) + if visited.last() {
            0nat
        } else {
            1nat
        }
    }
}

/// Marking a block that was not translated before leaves one block fewer to
/// translate.
pub proof fn lemma_visit_counts_down(visited: Seq<bool>, i: int)
    requires
        0 <= i < visited.len(),
        !visited[i],
    ensures
        count_unvisited(visited.update(i, true)) + 1 == count_unvisited(visited),
    decreases visited.len(),
{
    let after = visited.update(i, true);
    if i == visited.len() - 1 {
        assert(after.drop_last() =~= visited.drop_last());
    } else {
        assert(after.drop_last() =~= visited.drop_last().update(i, true));
        lemma_visit_counts_down(visited.drop_last(), i);
    }
}

/// The identities of `n` instructions in a row, the first of which is
/// numbered `base`.
pub open spec fn fresh_ids(base: nat, n: nat) -> Seq<InsnId> {
    Seq::new(n, |i: int| InsnId((base + i) as usize))
}

/// The function after `n` parameters have been appended to `block`,
/// numbered from zero.
pub open spec fn with_params(fun: FunctionView, block: BlockId, n: nat) -> FunctionView
    decreases n,
{
    if n == 0 {
        fun
    } else {
        with_params(fun, block, (n - 1) as nat).push_insn(
            block,
            InsnView::Param { idx: (n - 1) as usize },
        )
    }
}

/// The function with which the translation of a unit starts: no
/// instruction, the entry block, and `n` more blocks, all empty.
pub open spec fn with_blocks(n: nat) -> FunctionView
    decreases n,
{
    if n == 0 {
        FunctionView::empty()
    } else {
        with_blocks((n - 1) as nat).new_block()
    }
}

/// The instruction that stands for local `idx` at the entry of the unit: a
/// parameter for a declared leading parameter, `nil` for any other local.
pub open spec fn entry_local(iseq: IseqView, idx: nat) -> InsnView {
    if idx < iseq.param_lead_num {
        InsnView::Param { idx: idx as usize }
    } else {
        InsnView::Const { val: VALUE(RUBY_Qnil) }
    }
}

/// The function after the first `n` locals have got their instruction in
/// the entry block.
pub open spec fn with_entry_locals(fun: FunctionView, iseq: IseqView, n: nat) -> FunctionView
    decreases n,
{
    if n == 0 {
        fun
    } else {
        with_entry_locals(fun, iseq, (n - 1) as nat).push_insn(
            fun.entry_block,
            entry_local(iseq, (n - 1) as nat),
        )
    }
}

/// The state at the entry of a unit: an empty stack, and for each local the
/// instruction that stands for it in the entry block.
pub open spec fn entry_state(iseq: IseqView) -> FrameStateView {
    FrameStateView {
        local_table_size: iseq.local_table_size,
        pc: 0,
        stack: Seq::empty(),
        locals: fresh_ids(0, iseq.local_table_size as nat),
    }
}

/// The state in which a waiting block is translated, and the function when
/// that starts. The entry block starts in the state that it was queued
/// with. Any other block gets one parameter for each local and for each
/// stack slot of the state that arrives, in that order, and starts in the
/// state that holds those parameters: they stand for the values that the
/// predecessor that ran hands over.
pub open spec fn block_entry(fun: FunctionView, pending: PendingView) -> (
    FunctionView,
    FrameStateView,
) {
    if pending.insn_idx == 0 {
        (fun, pending.state)
    } else {
        let locals = pending.state.locals.len();
        let slots = pending.state.stack.len();
        (
            with_params(fun, pending.block, locals + slots),
            FrameStateView {
                local_table_size: pending.state.local_table_size,
                pc: 0,
                stack: fresh_ids(fun.insns.len() + locals, slots),
                locals: fresh_ids(fun.insns.len(), locals),
            },
        )
    }
}

impl UnitView {
    /// The translation of `block` from the instruction at `p` on, with
    /// `state` as the state before it: the function when the block is done,
    /// and the worklist with the blocks that were found to follow, in the
    /// order in which they were found.
    ///
    /// Before each instruction a snapshot of the state is appended. The block
    /// ends with an instruction that ends it, at the end of the stream, or
    /// where the next instruction is a jump target: there the block jumps to
    /// the target's block, which waits with the state reached.
    pub open spec fn run_block(
        self,
        fun: FunctionView,
        state: FrameStateView,
        block: BlockId,
        p: int,
        queue: Seq<PendingView>,
    ) -> Result<(FunctionView, Seq<PendingView>), ParseErrorView>
        decreases self.iseq.size() - p,
    {
        if !self.iseq.insn_fits(p) {
            Ok((fun, queue))
        } else {
            let state = FrameStateView { pc: p as u32, ..state };
            let fun = fun.push_insn(block, InsnView::Snapshot { state });
            match self.translate_insn(fun, state, block, p) {
                Err(e) => Err(e),
                Ok(step) => {
                    let queue = match step.branch {
                        Some(pending) => queue.push(pending),
                        None => queue,
                    };
                    let next = self.iseq.next(p);
                    if step.ends_block {
                        Ok((step.fun, queue))
                    } else if self.targets.contains(next as u32) {
                        Ok(
                            (
                                step.fun.push_insn(
                                    block,
                                    InsnView::Jump(self.edge(next as u32, step.state)),
                                ),
                                queue.push(self.pending(next as u32, step.state)),
                            ),
                        )
                    } else {
                        self.run_block(step.fun, step.state, block, next, queue)
                    }
                },
            }
        }
    }

    /// The function when the worklist has run empty. The block at the head
    /// of the worklist is translated unless it was translated before; what
    /// it leads to joins the worklist at its end.
    pub open spec fn drain(
        self,
        fun: FunctionView,
        queue: Seq<PendingView>,
        visited: Seq<bool>,
    ) -> Result<FunctionView, ParseErrorView>
        decreases count_unvisited(visited), queue.len(),
    {
        if queue.len() == 0 {
            Ok(fun)
        } else {
            let head = queue.first();
            let rest = queue.drop_first();
            if head.block.0 >= visited.len() || visited[head.block.0 as int] {
                self.drain(fun, rest, visited)
            } else {
                proof {
                    lemma_visit_counts_down(visited, head.block.0 as int);
                }
                let (fun, state) = block_entry(fun, head);
                match self.run_block(fun, state, head.block, head.insn_idx as int, rest) {
                    Err(e) => Err(e),
                    Ok((fun, queue)) => self.drain(
                        fun,
                        queue,
                        visited.update(head.block.0 as int, true),
                    ),
                }
            }
        }
    }

    /// The translation of the unit: one block for the entry and one for
    /// each jump target, numbered in ascending order of the targets; the
    /// locals set up in the entry block; then every block that control
    /// reaches, from the entry on.
    pub open spec fn translate(self) -> Result<FunctionView, ParseErrorView> {
        self.drain(
            with_entry_locals(
                with_blocks(self.targets.len()),
                self.iseq,
                self.iseq.local_table_size as nat,
            ),
            seq![PendingView { state: entry_state(self.iseq), block: BlockId(0), insn_idx: 0 }],
            Seq::new(self.targets.len() + 1, |i: int| false),
        )
    }
}

/// The jump targets of a unit in ascending order, each once.
pub open spec fn sorted_targets(iseq: IseqView) -> Seq<u32> {
    choose|s: Seq<u32>|
        strictly_increasing(s) && forall|t: u32| s.contains(t) <==> iseq.jump_targets().contains(t)
}

/// What the translation of a unit comes to: the function, or why there is
/// none.
pub open spec fn iseq_to_hir_spec(iseq: IseqView, profile: Map<usize, InsnProfile>) -> Result<
    FunctionView,
    ParseErrorView,
> {
    (UnitView { iseq, profile, targets: sorted_targets(iseq) }).translate()
}

/// Determinism. What a unit is translated into depends on the unit and on
/// what was observed of it, and on nothing else: however its jump targets
/// were found, once they are sorted they are the same list, so the blocks
/// get the same numbers and the translation is the same.
pub proof fn lemma_translation_is_deterministic(first: UnitView, second: UnitView)
    requires
        first.iseq == second.iseq,
        first.profile == second.profile,
        strictly_increasing(first.targets),
        strictly_increasing(second.targets),
        forall|t: u32| first.targets.contains(t) <==> first.iseq.jump_targets().contains(t),
        forall|t: u32| second.targets.contains(t) <==> second.iseq.jump_targets().contains(t),
    ensures
        first.targets == second.targets,
        first.translate() == second.translate(),
        first.translate() == iseq_to_hir_spec(first.iseq, first.profile),
{
    lemma_sorted_targets_unique(first.targets, second.targets);
    lemma_sorted_targets_unique(first.targets, sorted_targets(first.iseq));
}

/// Every value in the state of every block that waits is an instruction
/// numbered below `bound`.
pub open spec fn queue_below(queue: Seq<PendingView>, bound: nat) -> bool {
    forall|i: int| 0 <= i < queue.len() ==> (#[trigger] queue[i]).state.refers_below(bound)
}

/// Values that exist go on existing when instructions are appended.
pub proof fn lemma_queue_below_grows(queue: Seq<PendingView>, bound: nat, more: nat)
    requires
        queue_below(queue, bound),
        bound <= more,
    ensures
        queue_below(queue, more),
{
    assert forall|i: int| 0 <= i < queue.len() implies (#[trigger] queue[i]).state.refers_below(
        more,
    ) by {
        assert(queue[i].state.refers_below(bound));
    }
}

/// Every block that waits is one of the unit's.
pub open spec fn queue_ok(unit: UnitView, queue: Seq<PendingView>) -> bool {
    forall|i: int| 0 <= i < queue.len() ==> unit.pending_ok(#[trigger] queue[i])
}

/// Sets a block aside for each jump target, in ascending order of the
/// targets.
fn allocate_blocks(fun: &mut Function, targets: &Vec<u32>) -> (insn_idx_to_block: HashMap<
    u32,
    BlockId,
>)
    requires
        old(fun)@ == FunctionView::empty(),
        old(fun).well_formed(),
        strictly_increasing(targets@),
    ensures
        final(fun)@ == with_blocks(targets@.len()),
        final(fun)@.blocks.len() == targets@.len() + 1,
        final(fun)@.insns.len() == 0,
        final(fun)@.entry_block == BlockId(0),
        final(fun).union_find == old(fun).union_find,
        final(fun).well_formed(),
        forall|t: u32| insn_idx_to_block@.contains_key(t) <==> targets@.contains(t),
        forall|i: int|
            0 <= i < targets@.len() ==> #[trigger] insn_idx_to_block@[targets@[i]] == BlockId(
                (i + 1) as usize,
            ),
{
    let mut insn_idx_to_block: HashMap<u32, BlockId> = HashMap::new();
    let mut i: usize = 0;
    while i < targets.len()
        invariant
            i <= targets@.len(),
            strictly_increasing(targets@),
            fun@ == with_blocks(i as nat),
            fun@.blocks.len() == i + 1,
            fun@.insns.len() == 0,
            fun@.entry_block == BlockId(0),
            fun.union_find == old(fun).union_find,
            fun.well_formed(),
            forall|t: u32|
                insn_idx_to_block@.contains_key(t) <==> exists|j: int|
                    0 <= j < i && targets@[j] == t,
            forall|j: int|
                0 <= j < i ==> #[trigger] insn_idx_to_block@[targets@[j]] == BlockId(
                    (j + 1) as usize,
                ),
        decreases targets@.len() - i,
    {
        let block = fun.new_block();
        let ghost before = insn_idx_to_block@;
        insn_idx_to_block.insert(targets[i], block);
        proof {
            assert forall|t: u32|
                insn_idx_to_block@.contains_key(t) <==> exists|j: int|
                    0 <= j < i + 1 && targets@[j] == t by {
                if before.contains_key(t) {
                    let j = choose|j: int| 0 <= j < i && targets@[j] == t;
                    assert(0 <= j < i + 1 && targets@[j] == t);
                }
                if t == targets@[i as int] {
                    assert(0 <= i < i + 1 && targets@[i as int] == t);
                }
            }
            assert forall|j: int| 0 <= j < i + 1 implies #[trigger] insn_idx_to_block@[targets@[j]]
                == BlockId((j + 1) as usize) by {
                if j < i {
                    assert(targets@[j] < targets@[i as int]);
                    assert(before[targets@[j]] == BlockId((j + 1) as usize));
                }
            }
        }
        i += 1;
    }
    proof {
        assert forall|t: u32| insn_idx_to_block@.contains_key(t) <==> targets@.contains(t) by {
            if targets@.contains(t) {
                let j = choose|j: int| 0 <= j < targets@.len() && targets@[j] == t;
                assert(0 <= j < i && targets@[j] == t);
            }
        }
    }
    insn_idx_to_block
}

/// Gives each local its instruction in the entry block and returns the
/// state at the entry of the unit.
fn seed_entry_state(iseq: &Iseq, fun: &mut Function) -> (state: FrameState)
    requires
        old(fun)@.insns.len() == 0,
        old(fun)@.entry_block.0 < old(fun)@.blocks.len(),
        old(fun).well_formed(),
    ensures
        final(fun)@ == with_entry_locals(old(fun)@, iseq@, iseq@.local_table_size as nat),
        final(fun)@.blocks.len() == old(fun)@.blocks.len(),
        final(fun)@.entry_block == old(fun)@.entry_block,
        final(fun).union_find == old(fun).union_find,
        final(fun).well_formed(),
        final(fun)@.defined_before_use(),
        state@ == entry_state(iseq@),
        state@.refers_below(final(fun)@.insns.len()),
{
    let mut state = FrameState::new(num_locals(iseq));
    let mut idx: usize = 0;
    assert(state@.locals =~= fresh_ids(0, 0));
    while idx < num_locals(iseq)
        invariant
            idx <= iseq@.local_table_size,
            fun@ == with_entry_locals(old(fun)@, iseq@, idx as nat),
            fun@.insns.len() == idx,
            fun@.blocks.len() == old(fun)@.blocks.len(),
            fun@.entry_block == old(fun)@.entry_block,
            fun@.entry_block.0 < fun@.blocks.len(),
            fun.union_find == old(fun).union_find,
            fun.well_formed(),
            fun@.defined_before_use(),
            state@ == (FrameStateView {
                local_table_size: iseq@.local_table_size,
                pc: 0,
                stack: Seq::empty(),
                locals: fresh_ids(0, idx as nat),
            }),
        decreases iseq@.local_table_size - idx,
    {
        let entry_block = fun.entry_block;
        let id = if idx < num_lead_params(iseq) {
            fun.push_insn(entry_block, Insn::Param { idx })
        } else {
            fun.push_insn(entry_block, Insn::Const { val: VALUE::qnil() })
        };
        state.locals.push(id);
        assert(state@.locals =~= fresh_ids(0, (idx + 1) as nat));
        idx += 1;
    }
    state
}

/// Gives the state in which a waiting block is translated. The entry block
/// starts in the state that it was queued with; any other block gets a
/// parameter for each local and each stack slot of the state that arrives,
/// and starts in the state that holds those parameters.
fn enter_block(fun: &mut Function, pending: Pending) -> (state: FrameState)
    requires
        pending.block.0 < old(fun)@.blocks.len(),
    ensures
        (final(fun)@, state@) == block_entry(old(fun)@, pending@),
        final(fun)@.blocks.len() == old(fun)@.blocks.len(),
        final(fun)@.entry_block == old(fun)@.entry_block,
        final(fun).union_find == old(fun).union_find,
        old(fun).well_formed() ==> final(fun).well_formed(),
        old(fun)@.insns.len() <= final(fun)@.insns.len(),
        old(fun)@.defined_before_use() ==> final(fun)@.defined_before_use(),
        pending@.state.refers_below(old(fun)@.insns.len()) ==> state@.refers_below(
            final(fun)@.insns.len(),
        ),
{
    if pending.insn_idx == 0 {
        return pending.state;
    }
    let block = pending.block;
    let locals = pending.state.locals.len();
    let slots = pending.state.stack.len();
    let ghost base = fun@.insns.len();
    let mut result = FrameState::new(pending.state.local_table_size);
    let mut idx: usize = 0;
    assert(result@.locals =~= fresh_ids(base, 0));
    while idx < locals
        invariant
            idx <= locals,
            block.0 < fun@.blocks.len(),
            fun@ == with_params(old(fun)@, block, idx as nat),
            fun@.insns.len() == base + idx,
            fun@.blocks.len() == old(fun)@.blocks.len(),
            fun@.entry_block == old(fun)@.entry_block,
            fun.union_find == old(fun).union_find,
            old(fun).well_formed() ==> fun.well_formed(),
            old(fun)@.defined_before_use() ==> fun@.defined_before_use(),
            base == old(fun)@.insns.len(),
            result@ == (FrameStateView {
                local_table_size: pending.state.local_table_size,
                pc: 0,
                stack: Seq::empty(),
                locals: fresh_ids(base, idx as nat),
            }),
        decreases locals - idx,
    {
        assert(fun.insns.len() == fun@.insns.len());
        let id = fun.push_insn(block, Insn::Param { idx });
        result.locals.push(id);
        assert(result@.locals =~= fresh_ids(base, (idx + 1) as nat));
        idx += 1;
    }
    let mut k: usize = 0;
    assert(result@.stack =~= fresh_ids(base + locals as nat, 0));
    while k < slots
        invariant
            k <= slots,
            idx == locals + k,
            block.0 < fun@.blocks.len(),
            fun@ == with_params(old(fun)@, block, idx as nat),
            fun@.insns.len() == base + idx,
            fun@.blocks.len() == old(fun)@.blocks.len(),
            fun@.entry_block == old(fun)@.entry_block,
            fun.union_find == old(fun).union_find,
            old(fun).well_formed() ==> fun.well_formed(),
            old(fun)@.defined_before_use() ==> fun@.defined_before_use(),
            base == old(fun)@.insns.len(),
            result@ == (FrameStateView {
                local_table_size: pending.state.local_table_size,
                pc: 0,
                stack: fresh_ids(base + locals as nat, k as nat),
                locals: fresh_ids(base, locals as nat),
            }),
        decreases slots - k,
    {
        assert(fun.insns.len() == fun@.insns.len());
        let id = fun.push_insn(block, Insn::Param { idx });
        assert(fun.insns.len() == fun@.insns.len());
        result.stack.push(id);
        assert(result@.stack =~= fresh_ids(base + locals as nat, (k + 1) as nat));
        idx += 1;
        k += 1;
    }
    result
}

/// Translates `block` from the instruction at `insn_idx` on, with `state`
/// as the state before it. The blocks that it leads to join the worklist.
fn translate_block(
    unit: &Unit,
    fun: &mut Function,
    state: FrameState,
    block: BlockId,
    insn_idx: u32,
    queue: &mut VecDeque<Pending>,
) -> (r: Result<(), ParseError>)
    requires
        unit.well_formed(),
        old(fun)@.blocks.len() == unit@.targets.len() + 1,
        block.0 < old(fun)@.blocks.len(),
        unit@.iseq.is_boundary(insn_idx as int),
        insn_idx <= unit@.iseq.size(),
        unit@.state_ok(state@),
        queue_ok(unit@, old(queue).deep_view()),
        old(fun)@.defined_before_use(),
        state@.refers_below(old(fun)@.insns.len()),
        queue_below(old(queue).deep_view(), old(fun)@.insns.len()),
    ensures
        final(fun).union_find == old(fun).union_find,
        old(fun).well_formed() ==> final(fun).well_formed(),
        match r {
            Ok(_) => {
                &&& unit@.run_block(
                    old(fun)@,
                    state@,
                    block,
                    insn_idx as int,
                    old(queue).deep_view(),
                ) == Ok::<(FunctionView, Seq<PendingView>), ParseErrorView>(
                    (final(fun)@, final(queue).deep_view()),
                )
                &&& final(fun)@.blocks.len() == old(fun)@.blocks.len()
                &&& final(fun)@.entry_block == old(fun)@.entry_block
                &&& queue_ok(unit@, final(queue).deep_view())
                &&& final(fun)@.defined_before_use()
                &&& queue_below(final(queue).deep_view(), final(fun)@.insns.len())
            },
            Err(e) => unit@.run_block(
                old(fun)@,
                state@,
                block,
                insn_idx as int,
                old(queue).deep_view(),
            ) == Err::<(FunctionView, Seq<PendingView>), ParseErrorView>(e@),
        },
{
    let iseq_size: u32 = unit.iseq.encoded_size() as u32;
    let mut cur = state;
    let mut pc = insn_idx;
    assert(fun.blocks.len() == fun@.blocks.len());
    while pc < iseq_size
        invariant
            unit.well_formed(),
            unit@.targets.len() < usize::MAX,
            iseq_size == unit@.iseq.size(),
            fun@.blocks.len() == unit@.targets.len() + 1,
            fun@.blocks.len() == old(fun)@.blocks.len(),
            fun@.entry_block == old(fun)@.entry_block,
            block.0 < fun@.blocks.len(),
            unit@.iseq.is_boundary(pc as int),
            pc <= unit@.iseq.size(),
            unit@.state_ok(cur@),
            queue_ok(unit@, queue.deep_view()),
            fun@.defined_before_use(),
            cur@.refers_below(fun@.insns.len()),
            queue_below(queue.deep_view(), fun@.insns.len()),
            fun.union_find == old(fun).union_find,
            old(fun).well_formed() ==> fun.well_formed(),
            unit@.run_block(fun@, cur@, block, pc as int, queue.deep_view()) == unit@.run_block(
                old(fun)@,
                state@,
                block,
                insn_idx as int,
                old(queue).deep_view(),
            ),
        decreases iseq_size - pc,
    {
        let ghost before = (fun@, cur@, queue.deep_view());
        proof {
            unit@.iseq.lemma_boundary_insn(pc as int);
        }
        cur.pc = pc;
        fun.push_insn(block, Insn::Snapshot { state: cur.clone() });
        let next: u32 = pc + unit.iseq.insn_len(pc) as u32;
        let ghost snap = (fun@, cur@);
        proof {
            assert(snap.1 == (FrameStateView { pc: pc, ..before.1 }));
            assert(snap.0 == before.0.push_insn(block, InsnView::Snapshot { state: snap.1 }));
            let translated = unit@.translate_insn(snap.0, snap.1, block, pc as int);
            assert(unit@.run_block(before.0, before.1, block, pc as int, before.2) == match translated {
                Err(e) => Err(e),
                Ok(step) => {
                    let queue = match step.branch {
                        Some(pending) => before.2.push(pending),
                        None => before.2,
                    };
                    if step.ends_block {
                        Ok((step.fun, queue))
                    } else if unit@.targets.contains(next) {
                        Ok(
                            (
                                step.fun.push_insn(
                                    block,
                                    InsnView::Jump(unit@.edge(next, step.state)),
                                ),
                                queue.push(unit@.pending(next, step.state)),
                            ),
                        )
                    } else {
                        unit@.run_block(step.fun, step.state, block, next as int, queue)
                    }
                },
            });
        }
        let step = translate_insn(unit, fun, &mut cur, block, pc)?;
        proof {
            assert(fun.insns.len() == fun@.insns.len());
            unit@.lemma_translate_insn_keeps(snap.0, snap.1, block, pc as int);
            unit@.lemma_translate_insn_defined_before_use(snap.0, snap.1, block, pc as int);
            lemma_queue_below_grows(before.2, before.0.insns.len(), fun@.insns.len());
        }
        match step.branch {
            Some(pending) => {
                queue.push_back(pending);
                assert(queue.deep_view() =~= before.2.push(pending@));
            },
            None => {},
        }
        if step.ends_block {
            return Ok(());
        }
        pc = next;
        if unit.insn_idx_to_block.contains_key(&pc) {
            proof {
                unit@.lemma_block_of_in_range(pc);
            }
            let ghost queued = queue.deep_view();
            let (target, pending) = unit.branch_to(&cur, pc);
            fun.push_insn(block, Insn::Jump(target));
            queue.push_back(pending);
            proof {
                assert(queue.deep_view() =~= queued.push(pending@));
                lemma_queue_below_grows(queued, (fun@.insns.len() - 1) as nat, fun@.insns.len());
            }
            return Ok(());
        }
    }
    Ok(())
}

/// Translate a bytecode unit into the intermediate representation.
///
/// The unit gets one block for its entry and one for each jump target. The
/// blocks are translated one by one from a worklist that starts with the
/// entry, each block once, and each into instructions that pass the whole
/// state along every control edge. An opcode without a rule and an
/// instruction that finds the stack too shallow fail the whole translation.
pub fn iseq_to_hir(iseq: &Iseq, payload: &IseqPayload) -> (r: Result<Function, ParseError>)
    requires
        iseq@.well_formed(),
    ensures
        match r {
            Ok(fun) => {
                &&& iseq_to_hir_spec(iseq@, payload@) == Ok::<FunctionView, ParseErrorView>(fun@)
                &&& fun.well_formed()
                &&& fun@.defined_before_use()
                &&& fun@.entry_block == BlockId(0)
                &&& fun@.blocks.len() == sorted_targets(iseq@).len() + 1
                &&& forall|x: InsnId| #[trigger] fun.union_find.at_spec(x) is None
            },
            Err(e) => iseq_to_hir_spec(iseq@, payload@) == Err::<FunctionView, ParseErrorView>(
                e@,
            ),
        },
{
    let mut fun = Function::new();
    // Compute a map of PC->Block by finding jump targets
    let jump_targets = compute_jump_targets(iseq);
    proof {
        lemma_sorted_targets_unique(jump_targets@, sorted_targets(iseq@));
        assert(jump_targets.len() == jump_targets@.len());
    }
    let insn_idx_to_block = allocate_blocks(&mut fun, &jump_targets);
    let unit = Unit { iseq, payload, targets: jump_targets, insn_idx_to_block };
    proof {
        assert forall|t: u32| unit.targets@.contains(t) implies (
        #[trigger] unit.insn_idx_to_block@[t]) == unit@.block_of(t) by {
            let i = choose|i: int| 0 <= i < unit.targets@.len() && unit.targets@[i] == t;
            unit@.lemma_block_of_target(i);
        }
    }

    // Iteratively fill out basic blocks using a queue
    let mut queue: VecDeque<Pending> = VecDeque::new();
    let state = seed_entry_state(iseq, &mut fun);
    let entry = Pending { state, block: fun.entry_block, insn_idx: 0 };
    queue.push_back(entry);
    let mut visited: Vec<bool> = Vec::new();
    let blocks = fun.blocks.len();
    while visited.len() < blocks
        invariant
            visited@.len() <= blocks,
            forall|i: int| 0 <= i < visited@.len() ==> !visited@[i],
        decreases blocks - visited.len(),
    {
        visited.push(false);
    }
    proof {
        assert(visited@ =~= Seq::new(unit@.targets.len() + 1, |i: int| false));
        assert(queue.deep_view() =~= seq![entry@]);
        assert(unit@.iseq.is_boundary(0));
        assert(entry@ == (PendingView {
            state: entry_state(unit@.iseq),
            block: BlockId(0),
            insn_idx: 0,
        }));
        assert(fun@ == with_entry_locals(
            with_blocks(unit@.targets.len()),
            unit@.iseq,
            unit@.iseq.local_table_size as nat,
        ));
    }

    loop
        invariant
            unit.well_formed(),
            unit@.targets.len() < usize::MAX,
            unit@.targets == sorted_targets(iseq@),
            fun@.blocks.len() == unit@.targets.len() + 1,
            fun@.entry_block == BlockId(0),
            visited@.len() == fun@.blocks.len(),
            queue_ok(unit@, queue.deep_view()),
            queue_below(queue.deep_view(), fun@.insns.len()),
            fun.well_formed(),
            fun@.defined_before_use(),
            forall|x: InsnId| #[trigger] fun.union_find.at_spec(x) is None,
            unit@.drain(fun@, queue.deep_view(), visited@) == unit@.translate(),
            unit@.translate() == iseq_to_hir_spec(iseq@, payload@),
        ensures
            unit@.translate() == Ok::<FunctionView, ParseErrorView>(fun@),
            unit@.targets == sorted_targets(iseq@),
            fun@.blocks.len() == unit@.targets.len() + 1,
            fun@.entry_block == BlockId(0),
            fun.well_formed(),
            fun@.defined_before_use(),
            forall|x: InsnId| #[trigger] fun.union_find.at_spec(x) is None,
        decreases count_unvisited(visited@), queue.deep_view().len(),
    {
        let ghost waiting = queue.deep_view();
        let pending = match queue.pop_front() {
            Some(pending) => pending,
            None => {
                break ;
            },
        };
        proof {
            assert(queue.deep_view() =~= waiting.drop_first());
            assert(pending@ == waiting.first());
            assert(unit@.pending_ok(waiting[0]));
        }
        let block = pending.block;
        let insn_idx = pending.insn_idx;
        let ghost before = (fun@, visited@);
        if visited[block.0] {
            assert(unit@.drain(before.0, waiting, before.1) == unit@.drain(
                before.0,
                waiting.drop_first(),
                before.1,
            ));
            continue ;
        }
        proof {
            lemma_visit_counts_down(visited@, block.0 as int);
        }
        visited[block.0] = true;
        let state = enter_block(&mut fun, pending);
        proof {
            lemma_queue_below_grows(queue.deep_view(), before.0.insns.len(), fun@.insns.len());
            assert(unit@.drain(before.0, waiting, before.1) == match unit@.run_block(
                fun@,
                state@,
                block,
                insn_idx as int,
                waiting.drop_first(),
            ) {
                Err(e) => Err(e),
                Ok((fun, queue)) => unit@.drain(fun, queue, before.1.update(block.0 as int, true)),
            });
        }
        match translate_block(&unit, &mut fun, state, block, insn_idx, &mut queue) {
            Ok(_) => {},
            Err(e) => {
                return Err(e);
            },
        }
    }
    Ok(fun)
}

} // verus!
