//! Instructions of the intermediate representation.

use vstd::prelude::*;
use crate::hir::frame_state::{FrameState, FrameStateView};
use crate::hir::id::{ids_below, BlockId, InsnId};
use crate::hir::value::VALUE;

verus! {

/// Which class a watched redefinition concerns, as the host's flag bits.
#[allow(non_camel_case_types)]
pub type RedefinitionFlag = u32;

/// Which basic operator a watched redefinition concerns, by the host's number.
#[allow(non_camel_case_types)]
pub type ruby_basic_operators = u32;

/// The flag of the host's integer class.
pub const INTEGER_REDEFINED_OP_FLAG: RedefinitionFlag = 1;

/// The host's number for the operator `+`.
pub const BOP_PLUS: ruby_basic_operators = 0;

/// A control edge: the block that it leads to and the values that it hands to
/// that block's parameters, in order.
#[derive(Debug, PartialEq)]
pub struct BranchEdge {
    pub target: BlockId,
    pub args: Vec<InsnId>,
}

/// A control edge as a mathematical value.
pub struct BranchEdgeView {
    pub target: BlockId,
    pub args: Seq<InsnId>,
}

impl BranchEdgeView {
    /// Every argument is an instruction numbered below `bound`.
    pub open spec fn refers_below(self, bound: nat) -> bool {
        ids_below(self.args, bound)
    }
}

impl View for BranchEdge {
    type V = BranchEdgeView;

    open spec fn view(&self) -> BranchEdgeView {
        BranchEdgeView { target: self.target, args: self.args@ }
    }
}

impl Clone for BranchEdge {
    fn clone(&self) -> (res: Self)
        ensures
            res@ == self@,
    {
        BranchEdge { target: self.target, args: copy_ids(&self.args) }
    }
}

/// A copy of a list of instruction identities.
pub fn copy_ids(ids: &Vec<InsnId>) -> (res: Vec<InsnId>)
    ensures
        res@ == ids@,
{
    let mut res: Vec<InsnId> = Vec::new();
    let mut i: usize = 0;
    while i < ids.len()
        invariant
            i <= ids.len(),
            res@ == ids@.subrange(0, i as int),
        decreases ids.len() - i,
    {
        res.push(ids[i]);
        assert(ids@.subrange(0, i as int).push(ids@[i as int]) =~= ids@.subrange(0, i + 1));
        i += 1;
    }
    assert(ids@.subrange(0, i as int) =~= ids@);
    res
}

/// What is known of a call site: the name of the method called.
#[derive(Debug, PartialEq)]
pub struct CallInfo {
    pub name: String,
}

/// A call site as a mathematical value.
pub struct CallInfoView {
    pub name: Seq<char>,
}

impl View for CallInfo {
    type V = CallInfoView;

    open spec fn view(&self) -> CallInfoView {
        CallInfoView { name: self.name@ }
    }
}

impl Clone for CallInfo {
    fn clone(&self) -> (res: Self)
        ensures
            res@ == self@,
    {
        CallInfo { name: self.name.clone() }
    }
}

/// Invalidation reasons
#[derive(Debug, Clone, Copy, PartialEq, Eq, Structural)]
pub enum Invariant {
    /// Basic operation is redefined
    BOPRedefined {
        /// The class whose operator is watched.
        klass: RedefinitionFlag,
        /// The operator watched.
        bop: ruby_basic_operators,
    },
}

/// An instruction. Operands name other instructions by identity; an operand
/// must be resolved through the function's union-find before it is inspected.
#[allow(inconsistent_fields)]
#[derive(Debug)]
pub enum Insn {
    PutSelf,
    Const { val: VALUE },
    /// SSA block parameter. Also used for function parameters in the function's entry block.
    Param { idx: usize },
    StringCopy { val: InsnId },
    StringIntern { val: InsnId },
    NewArray { count: usize },
    ArraySet { idx: usize, val: InsnId },
    ArrayDup { val: InsnId },
    /// Check if the value is truthy and "return" a machine boolean.
    Test { val: InsnId },
    Defined { op_type: VALUE, obj: VALUE, pushval: VALUE, v: InsnId },
    /// Look a constant up through the inline cache at address `ic`.
    GetConstantPath { ic: VALUE },
    /// Owns a frame state so that later instructions can look up the state
    /// that precedes them when a fast path has to be left. Generates no code.
    Snapshot { state: FrameState },
    /// Unconditional jump
    Jump(BranchEdge),
    /// Conditional branch instructions
    IfTrue { val: InsnId, target: BranchEdge },
    IfFalse { val: InsnId, target: BranchEdge },
    /// Call a native function at address `cfun`
    CCall { cfun: VALUE, args: Vec<InsnId> },
    /// Send with dynamic dispatch
    Send { self_val: InsnId, call_info: CallInfo, args: Vec<InsnId> },
    /// Control flow instructions
    Return { val: InsnId },
    /// Fixnum + Fixnum
    FixnumAdd { recv: InsnId, obj: InsnId },
    /// Leave the fast path if `val` does not have the expected type.
    GuardType { val: InsnId, is_fixnum: bool },
    /// Generate no code (or padding if necessary) and insert a patch point
    /// that can be rewritten to a side exit when the invariant is broken.
    PatchPoint(Invariant),
}

/// An instruction as a mathematical value.
#[allow(inconsistent_fields)]
pub enum InsnView {
    PutSelf,
    Const { val: VALUE },
    Param { idx: usize },
    StringCopy { val: InsnId },
    StringIntern { val: InsnId },
    NewArray { count: usize },
    ArraySet { idx: usize, val: InsnId },
    ArrayDup { val: InsnId },
    Test { val: InsnId },
    Defined { op_type: VALUE, obj: VALUE, pushval: VALUE, v: InsnId },
    GetConstantPath { ic: VALUE },
    Snapshot { state: FrameStateView },
    Jump(BranchEdgeView),
    IfTrue { val: InsnId, target: BranchEdgeView },
    IfFalse { val: InsnId, target: BranchEdgeView },
    CCall { cfun: VALUE, args: Seq<InsnId> },
    Send { self_val: InsnId, call_info: CallInfoView, args: Seq<InsnId> },
    Return { val: InsnId },
    FixnumAdd { recv: InsnId, obj: InsnId },
    GuardType { val: InsnId, is_fixnum: bool },
    PatchPoint(Invariant),
}

impl InsnView {
    /// Every instruction that this one refers to, as an operand, as an
    /// argument of an edge or in a snapshot, is numbered below `bound`.
    pub open spec fn refers_below(self, bound: nat) -> bool {
        match self {
            InsnView::PutSelf
            | InsnView::Const { .. }
            | InsnView::Param { .. }
            | InsnView::NewArray { .. }
            | InsnView::GetConstantPath { .. }
            | InsnView::PatchPoint(_) => true,
            InsnView::StringCopy { val }
            | InsnView::StringIntern { val }
            | InsnView::ArraySet { val, .. }
            | InsnView::ArrayDup { val }
            | InsnView::Test { val }
            | InsnView::Return { val }
            | InsnView::GuardType { val, .. } => val.0 < bound,
            InsnView::Defined { v, .. } => v.0 < bound,
            InsnView::Snapshot { state } => state.refers_below(bound),
            InsnView::Jump(edge) => edge.refers_below(bound),
            InsnView::IfTrue { val, target } | InsnView::IfFalse { val, target } => val.0 < bound
                && target.refers_below(bound),
            InsnView::CCall { args, .. } => ids_below(args, bound),
            InsnView::Send { self_val, args, .. } => self_val.0 < bound && ids_below(args, bound),
            InsnView::FixnumAdd { recv, obj } => recv.0 < bound && obj.0 < bound,
        }
    }
}

impl View for Insn {
    type V = InsnView;

    open spec fn view(&self) -> InsnView {
        match *self {
            Insn::PutSelf => InsnView::PutSelf,
            Insn::Const { val } => InsnView::Const { val },
            Insn::Param { idx } => InsnView::Param { idx },
            Insn::StringCopy { val } => InsnView::StringCopy { val },
            Insn::StringIntern { val } => InsnView::StringIntern { val },
            Insn::NewArray { count } => InsnView::NewArray { count },
            Insn::ArraySet { idx, val } => InsnView::ArraySet { idx, val },
            Insn::ArrayDup { val } => InsnView::ArrayDup { val },
            Insn::Test { val } => InsnView::Test { val },
            Insn::Defined { op_type, obj, pushval, v } => InsnView::Defined {
                op_type,
                obj,
                pushval,
                v,
            },
            Insn::GetConstantPath { ic } => InsnView::GetConstantPath { ic },
            Insn::Snapshot { state } => InsnView::Snapshot { state: state@ },
            Insn::Jump(edge) => InsnView::Jump(edge@),
            Insn::IfTrue { val, target } => InsnView::IfTrue { val, target: target@ },
            Insn::IfFalse { val, target } => InsnView::IfFalse { val, target: target@ },
            Insn::CCall { cfun, args } => InsnView::CCall { cfun, args: args@ },
            Insn::Send { self_val, call_info, args } => InsnView::Send {
                self_val,
                call_info: call_info@,
                args: args@,
            },
            Insn::Return { val } => InsnView::Return { val },
            Insn::FixnumAdd { recv, obj } => InsnView::FixnumAdd { recv, obj },
            Insn::GuardType { val, is_fixnum } => InsnView::GuardType { val, is_fixnum },
            Insn::PatchPoint(reason) => InsnView::PatchPoint(reason),
        }
    }
}

impl DeepView for Insn {
    type V = InsnView;

    open spec fn deep_view(&self) -> InsnView {
        self@
    }
}

impl Clone for Insn {
    fn clone(&self) -> (res: Self)
        ensures
            res@ == self@,
    {
        match self {
            Insn::PutSelf => Insn::PutSelf,
            Insn::Const { val } => Insn::Const { val: *val },
            Insn::Param { idx } => Insn::Param { idx: *idx },
            Insn::StringCopy { val } => Insn::StringCopy { val: *val },
            Insn::StringIntern { val } => Insn::StringIntern { val: *val },
            Insn::NewArray { count } => Insn::NewArray { count: *count },
            Insn::ArraySet { idx, val } => Insn::ArraySet { idx: *idx, val: *val },
            Insn::ArrayDup { val } => Insn::ArrayDup { val: *val },
            Insn::Test { val } => Insn::Test { val: *val },
            Insn::Defined { op_type, obj, pushval, v } => Insn::Defined {
                op_type: *op_type,
                obj: *obj,
                pushval: *pushval,
                v: *v,
            },
            Insn::GetConstantPath { ic } => Insn::GetConstantPath { ic: *ic },
            Insn::Snapshot { state } => Insn::Snapshot { state: state.clone() },
            Insn::Jump(edge) => Insn::Jump(edge.clone()),
            Insn::IfTrue { val, target } => Insn::IfTrue { val: *val, target: target.clone() },
            Insn::IfFalse { val, target } => Insn::IfFalse { val: *val, target: target.clone() },
            Insn::CCall { cfun, args } => Insn::CCall { cfun: *cfun, args: copy_ids(args) },
            Insn::Send { self_val, call_info, args } => Insn::Send {
                self_val: *self_val,
                call_info: call_info.clone(),
                args: copy_ids(args),
            },
            Insn::Return { val } => Insn::Return { val: *val },
            Insn::FixnumAdd { recv, obj } => Insn::FixnumAdd { recv: *recv, obj: *obj },
            Insn::GuardType { val, is_fixnum } => Insn::GuardType {
                val: *val,
                is_fixnum: *is_fixnum,
            },
            Insn::PatchPoint(reason) => Insn::PatchPoint(*reason),
        }
    }
}

} // verus!
