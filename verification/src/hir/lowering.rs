//! Translation of one bytecode instruction: what it does to the abstract
//! stack and locals, and which instructions it appends to the block that is
//! being filled.

use vstd::prelude::*;
use std::collections::HashMap;
use crate::hir::frame_state::{FrameState, FrameStateView, ParseError, ParseErrorView};
use crate::hir::frame_state::local_idx_spec;
use crate::hir::function::{Function, FunctionView};
use crate::hir::id::{BlockId, InsnId};
use crate::hir::insn::{BranchEdge, BranchEdgeView, CallInfo, CallInfoView, Insn, InsnView};
use crate::hir::insn::{Invariant, BOP_PLUS, INTEGER_REDEFINED_OP_FLAG};
use crate::hir::iseq::{get_arg, Iseq, IseqView, Opcode};
use crate::hir::jump_targets::{insn_idx_at_offset, strictly_increasing};
use crate::hir::profile::{InsnProfile, IseqPayload};
use crate::hir::value::{RUBY_Qnil, VALUE};

verus! {

broadcast use vstd::std_specs::hash::group_hash_axioms;

/// A block that waits to be translated: the state in which control arrives
/// there, the block, and the offset at which its code starts.
#[derive(Debug)]
pub struct Pending {
    pub state: FrameState,
    pub block: BlockId,
    pub insn_idx: u32,
}

/// A waiting block as a mathematical value.
pub struct PendingView {
    pub state: FrameStateView,
    pub block: BlockId,
    pub insn_idx: u32,
}

impl View for Pending {
    type V = PendingView;

    open spec fn view(&self) -> PendingView {
        PendingView { state: self.state@, block: self.block, insn_idx: self.insn_idx }
    }
}

impl DeepView for Pending {
    type V = PendingView;

    open spec fn deep_view(&self) -> PendingView {
        self@
    }
}

/// How the translation of one instruction ended.
#[derive(Debug)]
pub struct Step {
    /// The block to which a branch in the instruction leads, to be
    /// translated later.
    pub branch: Option<Pending>,
    /// Whether the instruction ends its block.
    pub ends_block: bool,
}

/// The translation of one instruction as a mathematical value: the function
/// and the state after it, and how it ended.
pub struct StepView {
    pub fun: FunctionView,
    pub state: FrameStateView,
    pub branch: Option<PendingView>,
    pub ends_block: bool,
}

/// What the translation of a unit reads and never changes: the unit, what
/// was observed of it, and its jump targets in ascending order. The block of
/// a jump target is numbered by the target's place in that order, behind the
/// entry block.
pub struct UnitView {
    pub iseq: IseqView,
    pub profile: Map<usize, InsnProfile>,
    pub targets: Seq<u32>,
}

/// The name under which an arithmetic or comparison opcode is sent as a
/// method call.
pub open spec fn operator_name(op: Opcode) -> Seq<char> {
    match op {
        Opcode::OptPlus => "+"@,
        Opcode::OptDiv => "/"@,
        Opcode::OptLt => "<"@,
        _ => "<<"@,
    }
}

/// The name of the method that a call site names, or a stand-in where the
/// host has none.
pub open spec fn method_name(name: Option<Seq<char>>) -> Seq<char> {
    match name {
        Some(name) => name,
        None => "<unknown>"@,
    }
}

/// A dynamic call of the method `name` on `self_val` with `args`.
pub open spec fn send(self_val: InsnId, name: Seq<char>, args: Seq<InsnId>) -> InsnView {
    InsnView::Send { self_val, call_info: CallInfoView { name }, args }
}

/// The function after the elements of a new array of `count` elements have
/// been set from the top `k` stack slots: the topmost slot is the last
/// element.
pub open spec fn array_sets(
    fun: FunctionView,
    block: BlockId,
    state: FrameStateView,
    count: nat,
    k: nat,
) -> FunctionView
    decreases k,
{
    if k == 0 {
        fun
    } else {
        array_sets(fun, block, state, count, (k - 1) as nat).push_insn(
            block,
            InsnView::ArraySet { idx: (count - k) as usize, val: state.peek((k - 1) as nat) },
        )
    }
}

impl UnitView {
    /// The block that starts at the jump target `idx`.
    pub open spec fn block_of(self, idx: u32) -> BlockId {
        BlockId((self.targets.index_of(idx) + 1) as usize)
    }

    /// The control edge that hands the whole of `state` to the block at the
    /// jump target `idx`.
    pub open spec fn edge(self, idx: u32, state: FrameStateView) -> BranchEdgeView {
        BranchEdgeView { target: self.block_of(idx), args: state.as_args() }
    }

    /// The block at the jump target `idx`, waiting with `state`.
    pub open spec fn pending(self, idx: u32, state: FrameStateView) -> PendingView {
        PendingView { state, block: self.block_of(idx), insn_idx: idx }
    }

    /// Whether on every run so far both operands of the addition that ends
    /// at offset `at` were small integers.
    pub open spec fn both_fixnum(self, at: int) -> bool {
        self.profile.contains_key(at as usize) && self.profile[at as usize]
            == (InsnProfile::OptPlus { recv_is_fixnum: true, obj_is_fixnum: true })
    }

    /// The number of arguments at the call site that the instruction at `p`
    /// names.
    pub open spec fn argc_at(self, p: int) -> nat {
        self.iseq.call_data[self.iseq.operand(p).0 as int].argc as nat
    }

    /// Whether there is a rule for the instruction at `p`.
    pub open spec fn supported(self, p: int) -> bool {
        match self.iseq.op_at(p) {
            Opcode::BranchNil | Opcode::DelegateLeave | Opcode::Other => false,
            _ => true,
        }
    }

    /// The number of stack slots that the instruction at `p` reads.
    pub open spec fn operands_needed(self, p: int) -> nat {
        match self.iseq.op_at(p) {
            Opcode::Intern
            | Opcode::Defined
            | Opcode::BranchUnless
            | Opcode::BranchIf
            | Opcode::OptNilP
            | Opcode::SetLocal
            | Opcode::Pop
            | Opcode::Dup
            | Opcode::Leave => 1,
            Opcode::Swap | Opcode::OptPlus | Opcode::OptDiv | Opcode::OptLt | Opcode::OptLtLt => 2,
            Opcode::OptAset => 3,
            Opcode::NewArray => self.iseq.operand(p).0 as nat,
            Opcode::SetN => (self.iseq.operand(p).0 + 1) as nat,
            Opcode::OptSendWithoutBlock => self.argc_at(p) + 1,
            _ => 0,
        }
    }

    /// By how much the instruction at `p` changes the depth of the stack.
    pub open spec fn net_effect(self, p: int) -> int {
        match self.iseq.op_at(p) {
            Opcode::PutNil
            | Opcode::PutObject
            | Opcode::PutString
            | Opcode::PutChilledString
            | Opcode::PutSelf
            | Opcode::DupArray
            | Opcode::PutObjectFix0
            | Opcode::PutObjectFix1
            | Opcode::OptGetConstantPath
            | Opcode::GetLocal
            | Opcode::Dup => 1,
            Opcode::BranchUnless
            | Opcode::BranchIf
            | Opcode::SetLocal
            | Opcode::Pop
            | Opcode::Leave
            | Opcode::OptPlus
            | Opcode::OptDiv
            | Opcode::OptLt
            | Opcode::OptLtLt => -1,
            Opcode::OptAset => -2,
            Opcode::NewArray => 1 - self.iseq.operand(p).0,
            Opcode::OptSendWithoutBlock => -self.argc_at(p),
            _ => 0,
        }
    }

    /// What the instruction at `p` does where there is a rule for it and the
    /// stack holds what it reads.
    pub open spec fn effect(
        self,
        fun: FunctionView,
        state: FrameStateView,
        block: BlockId,
        p: int,
    ) -> StepView {
        let arg = self.iseq.operand(p);
        let id = fun.next_id();
        let go_on = StepView { fun, state, branch: None, ends_block: false };
        match self.iseq.op_at(p) {
            Opcode::PutNil => StepView {
                fun: fun.push_insn(block, InsnView::Const { val: VALUE(RUBY_Qnil) }),
                state: state.push(id),
                ..go_on
            },
            Opcode::PutObject => StepView {
                fun: fun.push_insn(block, InsnView::Const { val: arg }),
                state: state.push(id),
                ..go_on
            },
            Opcode::PutString | Opcode::PutChilledString => {
                let fun = fun.push_insn(block, InsnView::Const { val: arg });
                StepView {
                    fun: fun.push_insn(block, InsnView::StringCopy { val: id }),
                    state: state.push(fun.next_id()),
                    ..go_on
                }
            },
            Opcode::PutSelf => StepView {
                fun: fun.push_insn(block, InsnView::PutSelf),
                state: state.push(id),
                ..go_on
            },
            Opcode::Intern => StepView {
                fun: fun.push_insn(block, InsnView::StringIntern { val: state.peek(0) }),
                state: state.drop_top(1).push(id),
                ..go_on
            },
            Opcode::NewArray => {
                let count = arg.0 as nat;
                StepView {
                    fun: array_sets(
                        fun.push_insn(block, InsnView::NewArray { count: count as usize }),
                        block,
                        state,
                        count,
                        count,
                    ),
                    state: state.drop_top(count).push(id),
                    ..go_on
                }
            },
            Opcode::DupArray => {
                let fun = fun.push_insn(block, InsnView::Const { val: arg });
                StepView {
                    fun: fun.push_insn(block, InsnView::ArrayDup { val: id }),
                    state: state.push(fun.next_id()),
                    ..go_on
                }
            },
            Opcode::PutObjectFix0 => StepView {
                fun: fun.push_insn(block, InsnView::Const { val: VALUE(1) }),
                state: state.push(id),
                ..go_on
            },
            Opcode::PutObjectFix1 => StepView {
                fun: fun.push_insn(block, InsnView::Const { val: VALUE(3) }),
                state: state.push(id),
                ..go_on
            },
            Opcode::Defined => StepView {
                fun: fun.push_insn(
                    block,
                    InsnView::Defined { op_type: arg, obj: arg, pushval: arg, v: state.peek(0) },
                ),
                state: state.drop_top(1).push(id),
                ..go_on
            },
            Opcode::OptGetConstantPath => StepView {
                fun: fun.push_insn(block, InsnView::GetConstantPath { ic: arg }),
                state: state.push(id),
                ..go_on
            },
            Opcode::BranchUnless => {
                let target = self.iseq.branch_target(p);
                let fun = fun.push_insn(block, InsnView::Test { val: state.peek(0) });
                let state = state.drop_top(1);
                StepView {
                    fun: fun.push_insn(
                        block,
                        InsnView::IfFalse { val: id, target: self.edge(target, state) },
                    ),
                    state,
                    branch: Some(self.pending(target, state)),
                    ends_block: false,
                }
            },
            Opcode::BranchIf => {
                let target = self.iseq.branch_target(p);
                let fun = fun.push_insn(block, InsnView::Test { val: state.peek(0) });
                let state = state.drop_top(1);
                StepView {
                    fun: fun.push_insn(
                        block,
                        InsnView::IfTrue { val: id, target: self.edge(target, state) },
                    ),
                    state,
                    branch: Some(self.pending(target, state)),
                    ends_block: false,
                }
            },
            Opcode::Jump => {
                let target = self.iseq.branch_target(p);
                StepView {
                    fun: fun.push_insn(block, InsnView::Jump(self.edge(target, state))),
                    state,
                    branch: Some(self.pending(target, state)),
                    ends_block: true,
                }
            },
            Opcode::OptNilP => StepView {
                fun: fun.push_insn(block, send(state.peek(0), "nil?"@, Seq::empty())),
                state: state.drop_top(1).push(id),
                ..go_on
            },
            Opcode::GetLocal => StepView {
                state: state.push(
                    state.locals[local_idx_spec(state.local_table_size, arg.0 as u32)],
                ),
                ..go_on
            },
            Opcode::SetLocal => StepView {
                state: FrameStateView {
                    locals: state.locals.update(
                        local_idx_spec(state.local_table_size, arg.0 as u32),
                        state.peek(0),
                    ),
                    ..state.drop_top(1)
                },
                ..go_on
            },
            Opcode::Pop => StepView { state: state.drop_top(1), ..go_on },
            Opcode::Dup => StepView { state: state.push(state.peek(0)), ..go_on },
            Opcode::Swap => StepView {
                state: state.drop_top(2).push(state.peek(0)).push(state.peek(1)),
                ..go_on
            },
            Opcode::SetN => StepView {
                state: FrameStateView {
                    stack: state.stack.update(state.stack.len() - 1 - arg.0, state.peek(0)),
                    ..state
                },
                ..go_on
            },
            Opcode::OptPlus => {
                let left = state.peek(1);
                let right = state.peek(0);
                if self.both_fixnum(self.iseq.next(p)) {
                    let fun = fun.push_insn(
                        block,
                        InsnView::PatchPoint(
                            Invariant::BOPRedefined {
                                klass: INTEGER_REDEFINED_OP_FLAG,
                                bop: BOP_PLUS,
                            },
                        ),
                    );
                    let left_fixnum = fun.next_id();
                    let fun = fun.push_insn(
                        block,
                        InsnView::GuardType { val: left, is_fixnum: true },
                    );
                    let right_fixnum = fun.next_id();
                    let fun = fun.push_insn(
                        block,
                        InsnView::GuardType { val: right, is_fixnum: true },
                    );
                    StepView {
                        fun: fun.push_insn(
                            block,
                            InsnView::FixnumAdd { recv: left_fixnum, obj: right_fixnum },
                        ),
                        state: state.drop_top(2).push(fun.next_id()),
                        ..go_on
                    }
                } else {
                    StepView {
                        fun: fun.push_insn(block, send(left, "+"@, seq![right])),
                        state: state.drop_top(2).push(id),
                        ..go_on
                    }
                }
            },
            Opcode::OptDiv | Opcode::OptLt | Opcode::OptLtLt => StepView {
                fun: fun.push_insn(
                    block,
                    send(state.peek(1), operator_name(self.iseq.op_at(p)), seq![state.peek(0)]),
                ),
                state: state.drop_top(2).push(id),
                ..go_on
            },
            Opcode::OptAset => StepView {
                fun: fun.push_insn(
                    block,
                    send(state.peek(2), "[]="@, seq![state.peek(1), state.peek(0)]),
                ),
                state: state.drop_top(3).push(state.peek(0)),
                ..go_on
            },
            Opcode::Leave => StepView {
                fun: fun.push_insn(block, InsnView::Return { val: state.peek(0) }),
                state: state.drop_top(1),
                branch: None,
                ends_block: true,
            },
            Opcode::OptSendWithoutBlock => {
                let argc = self.argc_at(p);
                let depth = state.stack.len();
                StepView {
                    fun: fun.push_insn(
                        block,
                        send(
                            state.peek(argc),
                            method_name(self.iseq.call_data[arg.0 as int].name),
                            state.stack.subrange(depth - argc, depth as int),
                        ),
                    ),
                    state: state.drop_top(argc + 1).push(id),
                    ..go_on
                }
            },
            _ => go_on,
        }
    }

    /// The translation of the instruction at `p` into `block`, with `state`
    /// as the state before it. An opcode without a rule fails the
    /// translation with the opcode's name. An instruction that reads more
    /// stack slots than there are fails it with an underflow, which carries
    /// the state in which the missing slot was asked for.
    pub open spec fn translate_insn(
        self,
        fun: FunctionView,
        state: FrameStateView,
        block: BlockId,
        p: int,
    ) -> Result<StepView, ParseErrorView> {
        if !self.supported(p) {
            Err(
                ParseErrorView::UnknownOpcode(
                    self.iseq.insn_table[self.iseq.opcode_at(p) as int].name,
                ),
            )
        } else if state.stack.len() < self.operands_needed(p) {
            if self.iseq.op_at(p) == Opcode::SetN {
                Err(ParseErrorView::StackUnderflow(state))
            } else {
                Err(ParseErrorView::StackUnderflow(state.drained()))
            }
        } else {
            Ok(self.effect(fun, state, block, p))
        }
    }
}

/// A unit ready for translation: the bytecode, what was observed of it, its
/// jump targets in ascending order, and the block that was set aside for
/// each of them.
#[derive(Debug)]
pub struct Unit<'a> {
    pub iseq: &'a Iseq,
    pub payload: &'a IseqPayload,
    pub targets: Vec<u32>,
    pub insn_idx_to_block: HashMap<u32, BlockId>,
}

impl<'a> View for Unit<'a> {
    type V = UnitView;

    open spec fn view(&self) -> UnitView {
        UnitView { iseq: self.iseq@, profile: self.payload@, targets: self.targets@ }
    }
}

impl UnitView {
    /// The unit can be translated, and the targets are its jump targets in
    /// ascending order, each once.
    pub open spec fn well_formed(self) -> bool {
        &&& self.iseq.well_formed()
        &&& strictly_increasing(self.targets)
        &&& forall|t: u32| self.targets.contains(t) <==> self.iseq.jump_targets().contains(t)
    }

    /// The block of the target at place `i` is the one numbered `i + 1`.
    pub proof fn lemma_block_of_target(self, i: int)
        requires
            strictly_increasing(self.targets),
            0 <= i < self.targets.len(),
        ensures
            self.targets.contains(self.targets[i]),
            self.block_of(self.targets[i]) == BlockId((i + 1) as usize),
    {
        let t = self.targets[i];
        assert(self.targets.contains(t));
        let j = self.targets.index_of(t);
        assert(0 <= j < self.targets.len() && self.targets[j] == t);
        if j < i {
            assert(self.targets[j] < self.targets[i]);
        } else if i < j {
            assert(self.targets[i] < self.targets[j]);
        }
    }

    /// A branch at an instruction boundary of a unit that can be translated
    /// leads to one of the jump targets, which is no wrapped number, and
    /// which is an instruction boundary itself.
    pub proof fn lemma_branch_target(self, p: int)
        requires
            self.well_formed(),
            self.iseq.is_boundary(p),
            p < self.iseq.size(),
            self.iseq.op_at(p).is_branch(),
        ensures
            self.targets.contains(self.iseq.branch_target(p)),
            self.iseq.branch_target(p) == self.iseq.branch_destination(p),
            self.iseq.is_boundary(self.iseq.branch_target(p) as int),
            1 <= self.iseq.branch_target(p) <= self.iseq.size(),
    {
        self.iseq.lemma_boundary_insn(p);
        assert(self.iseq.targets_at(p).contains(self.iseq.branch_target(p)));
    }
}

/// Setting the elements of an array adds no block.
pub proof fn lemma_array_sets_keeps_blocks(
    fun: FunctionView,
    block: BlockId,
    state: FrameStateView,
    count: nat,
    k: nat,
)
    requires
        block.0 < fun.blocks.len(),
    ensures
        array_sets(fun, block, state, count, k).blocks.len() == fun.blocks.len(),
        array_sets(fun, block, state, count, k).entry_block == fun.entry_block,
    decreases k,
{
    if k > 0 {
        lemma_array_sets_keeps_blocks(fun, block, state, count, (k - 1) as nat);
    }
}

/// Setting the elements of an array from values that exist keeps every
/// instruction referring only to earlier ones.
pub proof fn lemma_array_sets_defined_before_use(
    fun: FunctionView,
    block: BlockId,
    state: FrameStateView,
    count: nat,
    k: nat,
)
    requires
        fun.defined_before_use(),
        state.refers_below(fun.insns.len()),
        k <= state.stack.len(),
    ensures
        array_sets(fun, block, state, count, k).insns.len() == fun.insns.len() + k,
        array_sets(fun, block, state, count, k).defined_before_use(),
    decreases k,
{
    if k > 0 {
        lemma_array_sets_defined_before_use(fun, block, state, count, (k - 1) as nat);
    }
}

impl UnitView {
    /// The state belongs to this unit and holds a value for every local.
    pub open spec fn state_ok(self, state: FrameStateView) -> bool {
        &&& state.local_table_size == self.iseq.local_table_size
        &&& state.locals.len() == state.local_table_size
    }

    /// The waiting block is one of the unit's, its code starts at an
    /// instruction boundary, and its state is one of this unit.
    pub open spec fn pending_ok(self, pending: PendingView) -> bool {
        &&& pending.block.0 <= self.targets.len()
        &&& self.iseq.is_boundary(pending.insn_idx as int)
        &&& pending.insn_idx <= self.iseq.size()
        &&& self.state_ok(pending.state)
    }

    /// The block of a jump target is one of the blocks set aside.
    pub proof fn lemma_block_of_in_range(self, t: u32)
        requires
            self.targets.contains(t),
            self.targets.len() < usize::MAX,
        ensures
            self.block_of(t).0 <= self.targets.len(),
            self.block_of(t).0 >= 1,
    {
    }

    /// What the translation of an instruction keeps: the number of blocks,
    /// the entry block, and that the state holds a value for every local. A
    /// block that it leads to is one of the unit's and starts at an
    /// instruction boundary.
    pub proof fn lemma_translate_insn_keeps(
        self,
        fun: FunctionView,
        state: FrameStateView,
        block: BlockId,
        p: int,
    )
        requires
            self.well_formed(),
            self.targets.len() < usize::MAX,
            self.iseq.is_boundary(p),
            p < self.iseq.size(),
            block.0 < fun.blocks.len(),
            self.state_ok(state),
            self.translate_insn(fun, state, block, p) is Ok,
        ensures
            ({
                let step = self.translate_insn(fun, state, block, p)->Ok_0;
                &&& step.fun.blocks.len() == fun.blocks.len()
                &&& step.fun.entry_block == fun.entry_block
                &&& self.state_ok(step.state)
                &&& step.branch matches Some(pending) ==> self.pending_ok(pending)
            }),
    {
        self.iseq.lemma_boundary_insn(p);
        if self.iseq.op_at(p).is_branch() {
            self.lemma_branch_target(p);
            self.lemma_block_of_in_range(self.iseq.branch_target(p));
        }
        if self.iseq.op_at(p) == Opcode::NewArray {
            let count = self.iseq.operand(p).0 as nat;
            lemma_array_sets_keeps_blocks(
                fun.push_insn(block, InsnView::NewArray { count: count as usize }),
                block,
                state,
                count,
                count,
            );
        }
    }
}

impl UnitView {
    /// The translation of an instruction keeps every instruction referring
    /// only to earlier ones: what it appends uses values of the state, which
    /// exist, and values that it has just appended. The state afterwards,
    /// and the state of a block that it leads to, hold only values that
    /// exist.
    pub proof fn lemma_translate_insn_defined_before_use(
        self,
        fun: FunctionView,
        state: FrameStateView,
        block: BlockId,
        p: int,
    )
        requires
            self.well_formed(),
            self.iseq.is_boundary(p),
            p < self.iseq.size(),
            self.state_ok(state),
            fun.defined_before_use(),
            state.refers_below(fun.insns.len()),
            self.translate_insn(fun, state, block, p) is Ok,
            self.translate_insn(fun, state, block, p)->Ok_0.fun.insns.len() <= usize::MAX,
        ensures
            ({
                let step = self.translate_insn(fun, state, block, p)->Ok_0;
                &&& fun.insns.len() <= step.fun.insns.len()
                &&& step.fun.defined_before_use()
                &&& step.state.refers_below(step.fun.insns.len())
                &&& step.branch matches Some(pending) ==> pending.state.refers_below(
                    step.fun.insns.len(),
                )
            }),
    {
        self.iseq.lemma_boundary_insn(p);
        if self.iseq.op_at(p) == Opcode::NewArray {
            let count = self.iseq.operand(p).0 as nat;
            lemma_array_sets_defined_before_use(
                fun.push_insn(block, InsnView::NewArray { count: count as usize }),
                block,
                state,
                count,
                count,
            );
        }
    }
}

/// Stack discipline. Where an instruction is translated, the stack is
/// afterwards deeper by the net effect of its opcode, and it held at least
/// what the instruction reads. The translation fails with an underflow
/// exactly where there is a rule for the opcode and the stack holds less
/// than the instruction reads, and with an unknown opcode exactly where
/// there is no rule.
pub proof fn lemma_stack_discipline(
    unit: UnitView,
    fun: FunctionView,
    state: FrameStateView,
    block: BlockId,
    p: int,
)
    ensures
        match unit.translate_insn(fun, state, block, p) {
            Ok(step) => {
                &&& unit.supported(p)
                &&& state.stack.len() >= unit.operands_needed(p)
                &&& step.state.stack.len() == state.stack.len() + unit.net_effect(p)
            },
            Err(ParseErrorView::StackUnderflow(_)) => {
                &&& unit.supported(p)
                &&& state.stack.len() < unit.operands_needed(p)
            },
            Err(ParseErrorView::UnknownOpcode(_)) => !unit.supported(p),
        },
{
}

/// Speculative lowering of an addition whose operands are on the stack.
/// Where both operands were small integers on every run observed, exactly
/// four instructions are appended, in this order: a patch point that
/// watches the integer addition for redefinition, a guard on the left
/// operand, a guard on the right operand, and the addition of the two
/// guarded values. Otherwise exactly one instruction is appended, the
/// dynamic call of `+`. Either way the result is the one value that takes
/// the place of the operands on the stack.
pub proof fn lemma_speculative_lowering(
    unit: UnitView,
    fun: FunctionView,
    state: FrameStateView,
    block: BlockId,
    p: int,
)
    requires
        unit.iseq.op_at(p) == Opcode::OptPlus,
        state.stack.len() >= 2,
        fun.insns.len() + 4 <= usize::MAX,
    ensures
        unit.translate_insn(fun, state, block, p) is Ok,
        ({
            let step = unit.translate_insn(fun, state, block, p)->Ok_0;
            let first = fun.insns.len();
            let left = state.peek(1);
            let right = state.peek(0);
            &&& unit.both_fixnum(unit.iseq.next(p)) ==> {
                &&& step.fun.insns == fun.insns + seq![
                    InsnView::PatchPoint(
                        Invariant::BOPRedefined { klass: INTEGER_REDEFINED_OP_FLAG, bop: BOP_PLUS },
                    ),
                    InsnView::GuardType { val: left, is_fixnum: true },
                    InsnView::GuardType { val: right, is_fixnum: true },
                    InsnView::FixnumAdd {
                        recv: InsnId((first + 1) as usize),
                        obj: InsnId((first + 2) as usize),
                    },
                ]
                &&& step.state == state.drop_top(2).push(InsnId((first + 3) as usize))
            }
            &&& !unit.both_fixnum(unit.iseq.next(p)) ==> {
                &&& step.fun.insns == fun.insns + seq![send(left, "+"@, seq![right])]
                &&& step.state == state.drop_top(2).push(InsnId(first as usize))
            }
        }),
{
    let step = unit.translate_insn(fun, state, block, p)->Ok_0;
    let first = fun.insns.len();
    let left = state.peek(1);
    let right = state.peek(0);
    if unit.both_fixnum(unit.iseq.next(p)) {
        assert(step.fun.insns =~= fun.insns + seq![
            InsnView::PatchPoint(
                Invariant::BOPRedefined { klass: INTEGER_REDEFINED_OP_FLAG, bop: BOP_PLUS },
            ),
            InsnView::GuardType { val: left, is_fixnum: true },
            InsnView::GuardType { val: right, is_fixnum: true },
            InsnView::FixnumAdd {
                recv: InsnId((first + 1) as usize),
                obj: InsnId((first + 2) as usize),
            },
        ]);
    } else {
        assert(step.fun.insns =~= fun.insns + seq![send(left, "+"@, seq![right])]);
    }
}

impl<'a> Unit<'a> {
    /// The view is well formed, and the table of blocks holds the block of
    /// every jump target and nothing else.
    pub open spec fn well_formed(&self) -> bool {
        &&& self@.well_formed()
        &&& forall|t: u32| self.insn_idx_to_block@.contains_key(t) <==> self.targets@.contains(t)
        &&& forall|t: u32|
            self.targets@.contains(t) ==> #[trigger] self.insn_idx_to_block@[t] == self@.block_of(
                t,
            )
    }

    /// The block that was set aside for the jump target `idx`.
    pub(crate) fn block_at(&self, idx: u32) -> (block: BlockId)
        requires
            self.well_formed(),
            self.targets@.contains(idx),
        ensures
            block == self@.block_of(idx),
    {
        *self.insn_idx_to_block.get(&idx).unwrap()
    }

    /// The control edge to the block at the jump target `target_idx`, with
    /// the whole of `state` as its arguments, and that block as a waiting
    /// one.
    pub(crate) fn branch_to(&self, state: &FrameState, target_idx: u32) -> (r: (
        BranchEdge,
        Pending,
    ))
        requires
            self.well_formed(),
            self.targets@.contains(target_idx),
        ensures
            r.0@ == self@.edge(target_idx, state@),
            r.1@ == self@.pending(target_idx, state@),
    {
        let target = self.block_at(target_idx);
        (
            BranchEdge { target, args: state.as_args() },
            Pending { state: state.clone(), block: target, insn_idx: target_idx },
        )
    }
}

/// Empties the stack of `state` and reports the underflow.
fn underflow(state: &mut FrameState) -> (e: ParseError)
    ensures
        e@ == ParseErrorView::StackUnderflow(old(state)@.drained()),
{
    state.stack.clear();
    ParseError::StackUnderflow(state.clone())
}

/// Takes the top `argc` stack slots off and gives them in the order in which
/// they were pushed.
fn pop_args(state: &mut FrameState, argc: u32) -> (r: Result<Vec<InsnId>, ParseError>)
    ensures
        match r {
            Ok(args) => {
                &&& argc <= old(state)@.stack.len()
                &&& args@ == old(state)@.stack.subrange(
                    old(state)@.stack.len() - argc,
                    old(state)@.stack.len() as int,
                )
                &&& final(state)@ == old(state)@.drop_top(argc as nat)
            },
            Err(e) => {
                &&& old(state)@.stack.len() < argc
                &&& e@ == ParseErrorView::StackUnderflow(old(state)@.drained())
            },
        },
{
    let ghost depth = state@.stack.len() as int;
    let mut popped: Vec<InsnId> = Vec::new();
    let mut i: u32 = 0;
    assert(state@.stack =~= state@.stack.take(depth));
    while i < argc
        invariant
            i <= argc,
            i <= depth,
            depth == old(state)@.stack.len(),
            state@ == old(state)@.drop_top(i as nat),
            popped@.len() == i,
            forall|k: int| 0 <= k < i ==> popped@[k] == old(state)@.stack[depth - 1 - k],
        decreases argc - i,
    {
        let opnd = state.pop()?;
        popped.push(opnd);
        i += 1;
        assert(state@.stack =~= old(state)@.stack.take(depth - i));
    }
    let mut args: Vec<InsnId> = Vec::new();
    let mut k: usize = popped.len();
    while k > 0
        invariant
            k <= popped@.len(),
            popped@.len() == argc,
            args@.len() == argc - k,
            forall|j: int| 0 <= j < args@.len() ==> args@[j] == popped@[argc - 1 - j],
        decreases k,
    {
        k -= 1;
        args.push(popped[k]);
    }
    assert(args@ =~= old(state)@.stack.subrange(depth - argc, depth));
    Ok(args)
}

/// A dynamic call of the method `name` on `self_val` with `args`.
fn send_insn(self_val: InsnId, name: &str, args: Vec<InsnId>) -> (insn: Insn)
    ensures
        insn@ == send(self_val, name@, args@),
{
    Insn::Send { self_val, call_info: CallInfo { name: name.to_owned() }, args }
}

/// Appends `insn` to `block` and puts its identity on the stack.
fn push_value(fun: &mut Function, state: &mut FrameState, block: BlockId, insn: Insn)
    requires
        block.0 < old(fun)@.blocks.len(),
    ensures
        final(fun)@ == old(fun)@.push_insn(block, insn@),
        final(state)@ == old(state)@.push(old(fun)@.next_id()),
        final(fun).union_find == old(fun).union_find,
        old(fun).well_formed() ==> final(fun).well_formed(),
{
    let id = fun.push_insn(block, insn);
    state.push(id);
}

/// Translates the elements of a new array of `count` elements: each comes
/// off the stack, the last element first.
fn set_array_elements(
    fun: &mut Function,
    state: &mut FrameState,
    block: BlockId,
    count: usize,
) -> (r: Result<(), ParseError>)
    requires
        block.0 < old(fun)@.blocks.len(),
    ensures
        final(fun).union_find == old(fun).union_find,
        old(fun).well_formed() ==> final(fun).well_formed(),
        match r {
            Ok(_) => {
                &&& count <= old(state)@.stack.len()
                &&& final(fun)@ == array_sets(
                    old(fun)@,
                    block,
                    old(state)@,
                    count as nat,
                    count as nat,
                )
                &&& final(state)@ == old(state)@.drop_top(count as nat)
            },
            Err(e) => {
                &&& old(state)@.stack.len() < count
                &&& e@ == ParseErrorView::StackUnderflow(old(state)@.drained())
            },
        },
{
    let ghost depth = state@.stack.len() as int;
    let mut idx: usize = count;
    assert(state@.stack =~= state@.stack.take(depth));
    while idx > 0
        invariant
            idx <= count,
            count - idx <= depth,
            depth == old(state)@.stack.len(),
            block.0 < fun@.blocks.len(),
            state@ == old(state)@.drop_top((count - idx) as nat),
            fun@ == array_sets(old(fun)@, block, old(state)@, count as nat, (count - idx) as nat),
            fun.union_find == old(fun).union_find,
            old(fun).well_formed() ==> fun.well_formed(),
        decreases idx,
    {
        idx -= 1;
        let val = state.pop()?;
        fun.push_insn(block, Insn::ArraySet { idx, val });
        assert(state@.stack =~= old(state)@.stack.take(depth - (count - idx)));
    }
    Ok(())
}

/// Translates the instruction at `pc` into `block`: changes `state` as the
/// instruction changes the stack and the locals, appends to `block` the
/// instructions that it comes to, and says whether the block ends with it
/// and which block a branch in it leads to.
pub(crate) fn translate_insn(
    unit: &Unit,
    fun: &mut Function,
    state: &mut FrameState,
    block: BlockId,
    pc: u32,
) -> (r: Result<Step, ParseError>)
    requires
        unit.well_formed(),
        unit@.iseq.is_boundary(pc as int),
        pc < unit@.iseq.size(),
        block.0 < old(fun)@.blocks.len(),
        old(state)@.locals.len() == old(state)@.local_table_size,
        old(state)@.local_table_size == unit@.iseq.local_table_size,
    ensures
        final(fun).union_find == old(fun).union_find,
        old(fun).well_formed() ==> final(fun).well_formed(),
        match r {
            Ok(step) => unit@.translate_insn(old(fun)@, old(state)@, block, pc as int) == Ok::<
                StepView,
                ParseErrorView,
            >(
                StepView {
                    fun: final(fun)@,
                    state: final(state)@,
                    branch: step.branch.deep_view(),
                    ends_block: step.ends_block,
                },
            ),
            Err(e) => unit@.translate_insn(old(fun)@, old(state)@, block, pc as int) == Err::<
                StepView,
                ParseErrorView,
            >(e@),
        },
{
    let iseq = unit.iseq;
    proof {
        unit@.iseq.lemma_boundary_insn(pc as int);
        if unit@.iseq.op_at(pc as int).is_branch() {
            unit@.lemma_branch_target(pc as int);
        }
    }
    let opcode = Opcode::decode(iseq.opcode_at(pc));
    let next: u32 = pc + iseq.insn_len(pc) as u32;
    let go_on = Step { branch: None, ends_block: false };
    match opcode {
        Opcode::Nop => Ok(go_on),
        Opcode::PutNil => {
            push_value(fun, state, block, Insn::Const { val: VALUE::qnil() });
            Ok(go_on)
        },
        Opcode::PutObject => {
            push_value(fun, state, block, Insn::Const { val: get_arg(iseq, pc, 0) });
            Ok(go_on)
        },
        Opcode::PutString | Opcode::PutChilledString => {
            let val = fun.push_insn(block, Insn::Const { val: get_arg(iseq, pc, 0) });
            push_value(fun, state, block, Insn::StringCopy { val });
            Ok(go_on)
        },
        Opcode::PutSelf => {
            push_value(fun, state, block, Insn::PutSelf);
            Ok(go_on)
        },
        Opcode::Intern => {
            let val = state.pop()?;
            push_value(fun, state, block, Insn::StringIntern { val });
            Ok(go_on)
        },
        Opcode::NewArray => {
            assert(state.stack.len() == state@.stack.len());
            let count = match get_arg(iseq, pc, 0).as_usize() {
                Some(count) => count,
                None => {
                    return Err(underflow(state));
                },
            };
            let insn_id = fun.push_insn(block, Insn::NewArray { count });
            set_array_elements(fun, state, block, count)?;
            state.push(insn_id);
            Ok(go_on)
        },
        Opcode::DupArray => {
            let val = fun.push_insn(block, Insn::Const { val: get_arg(iseq, pc, 0) });
            push_value(fun, state, block, Insn::ArrayDup { val });
            Ok(go_on)
        },
        Opcode::PutObjectFix0 => {
            push_value(fun, state, block, Insn::Const { val: VALUE::fixnum_from_usize(0) });
            Ok(go_on)
        },
        Opcode::PutObjectFix1 => {
            push_value(fun, state, block, Insn::Const { val: VALUE::fixnum_from_usize(1) });
            Ok(go_on)
        },
        Opcode::Defined => {
            let op_type = get_arg(iseq, pc, 0);
            let obj = get_arg(iseq, pc, 0);
            let pushval = get_arg(iseq, pc, 0);
            let v = state.pop()?;
            push_value(fun, state, block, Insn::Defined { op_type, obj, pushval, v });
            Ok(go_on)
        },
        Opcode::OptGetConstantPath => {
            let ic = get_arg(iseq, pc, 0);
            push_value(fun, state, block, Insn::GetConstantPath { ic });
            Ok(go_on)
        },
        Opcode::BranchUnless => {
            let offset = get_arg(iseq, pc, 0).as_i64();
            let val = state.pop()?;
            let test_id = fun.push_insn(block, Insn::Test { val });
            let target_idx = insn_idx_at_offset(next, offset);
            let (target, pending) = unit.branch_to(state, target_idx);
            fun.push_insn(block, Insn::IfFalse { val: test_id, target });
            Ok(Step { branch: Some(pending), ends_block: false })
        },
        Opcode::BranchIf => {
            let offset = get_arg(iseq, pc, 0).as_i64();
            let val = state.pop()?;
            let test_id = fun.push_insn(block, Insn::Test { val });
            let target_idx = insn_idx_at_offset(next, offset);
            let (target, pending) = unit.branch_to(state, target_idx);
            fun.push_insn(block, Insn::IfTrue { val: test_id, target });
            Ok(Step { branch: Some(pending), ends_block: false })
        },
        Opcode::Jump => {
            let offset = get_arg(iseq, pc, 0).as_i64();
            let target_idx = insn_idx_at_offset(next, offset);
            let (target, pending) = unit.branch_to(state, target_idx);
            fun.push_insn(block, Insn::Jump(target));
            // Don't go on with the next instruction as a successor
            Ok(Step { branch: Some(pending), ends_block: true })
        },
        Opcode::OptNilP => {
            let recv = state.pop()?;
            push_value(fun, state, block, send_insn(recv, "nil?", Vec::new()));
            Ok(go_on)
        },
        Opcode::GetLocal => {
            let ep_offset = get_arg(iseq, pc, 0).as_u32().unwrap();
            let val = state.getlocal(ep_offset);
            state.push(val);
            Ok(go_on)
        },
        Opcode::SetLocal => {
            let ep_offset = get_arg(iseq, pc, 0).as_u32().unwrap();
            let val = state.pop()?;
            state.setlocal(ep_offset, val);
            Ok(go_on)
        },
        Opcode::Pop => {
            state.pop()?;
            Ok(go_on)
        },
        Opcode::Dup => {
            let top = state.top()?;
            state.push(top);
            Ok(go_on)
        },
        Opcode::Swap => {
            let right = state.pop()?;
            let left = state.pop()?;
            proof {
                old(state)@.lemma_drop_top_again(1, 1);
            }
            state.push(right);
            state.push(left);
            Ok(go_on)
        },
        Opcode::SetN => {
            let top = state.top()?;
            let depth = state.stack.len();
            match get_arg(iseq, pc, 0).as_usize() {
                Some(n) if n < depth => {
                    state.setn(n, top);
                    Ok(go_on)
                },
                _ => Err(ParseError::StackUnderflow(state.clone())),
            }
        },
        Opcode::OptPlus => {
            let right = state.pop()?;
            let left = state.pop()?;
            proof {
                old(state)@.lemma_drop_top_again(1, 1);
            }
            let both_fixnum = match unit.payload.get_insn_profile(next as usize) {
                Some(InsnProfile::OptPlus { recv_is_fixnum, obj_is_fixnum }) => recv_is_fixnum
                    && obj_is_fixnum,
                None => false,
            };
            if both_fixnum {
                fun.push_insn(
                    block,
                    Insn::PatchPoint(
                        Invariant::BOPRedefined { klass: INTEGER_REDEFINED_OP_FLAG, bop: BOP_PLUS },
                    ),
                );
                let left_fixnum = fun.push_insn(
                    block,
                    Insn::GuardType { val: left, is_fixnum: true },
                );
                let right_fixnum = fun.push_insn(
                    block,
                    Insn::GuardType { val: right, is_fixnum: true },
                );
                push_value(
                    fun,
                    state,
                    block,
                    Insn::FixnumAdd { recv: left_fixnum, obj: right_fixnum },
                );
            } else {
                let mut args: Vec<InsnId> = Vec::new();
                args.push(right);
                assert(args@ =~= seq![right]);
                push_value(fun, state, block, send_insn(left, "+", args));
            }
            Ok(go_on)
        },
        Opcode::OptDiv | Opcode::OptLt | Opcode::OptLtLt => {
            let right = state.pop()?;
            let left = state.pop()?;
            proof {
                old(state)@.lemma_drop_top_again(1, 1);
            }
            let name = match opcode {
                Opcode::OptDiv => "/",
                Opcode::OptLt => "<",
                _ => "<<",
            };
            let mut args: Vec<InsnId> = Vec::new();
            args.push(right);
            assert(args@ =~= seq![right]);
            push_value(fun, state, block, send_insn(left, name, args));
            Ok(go_on)
        },
        Opcode::OptAset => {
            let set = state.pop()?;
            let obj = state.pop()?;
            let recv = state.pop()?;
            proof {
                old(state)@.lemma_drop_top_again(1, 1);
                old(state)@.lemma_drop_top_again(2, 1);
            }
            let mut args: Vec<InsnId> = Vec::new();
            args.push(obj);
            args.push(set);
            assert(args@ =~= seq![obj, set]);
            fun.push_insn(block, send_insn(recv, "[]=", args));
            state.push(set);
            Ok(go_on)
        },
        Opcode::Leave => {
            let val = state.pop()?;
            fun.push_insn(block, Insn::Return { val });
            // Don't go on with the next instruction as a successor
            Ok(Step { branch: None, ends_block: true })
        },
        Opcode::OptSendWithoutBlock => {
            let cd = get_arg(iseq, pc, 0).0;
            assert(iseq.call_data.len() == iseq@.call_data.len());
            let call_data = &iseq.call_data[cd as usize];
            let args = pop_args(state, call_data.argc)?;
            let recv = state.pop()?;
            proof {
                old(state)@.lemma_drop_top_again(call_data.argc as nat, 1);
            }
            let insn = match &call_data.name {
                Some(name) => send_insn(recv, name.as_str(), args),
                None => send_insn(recv, "<unknown>", args),
            };
            push_value(fun, state, block, insn);
            Ok(go_on)
        },
        Opcode::BranchNil | Opcode::DelegateLeave | Opcode::Other => Err(
            ParseError::UnknownOpcode(iseq.insn_name(pc)),
        ),
    }
}

} // verus!
