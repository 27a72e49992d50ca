//! The abstract interpreter's state: what the operand stack and the locals
//! hold at a point of the translation, as instruction identities.

use vstd::prelude::*;
use crate::hir::id::{ids_below, InsnId};
use crate::hir::insn::copy_ids;

verus! {

/// The number of words that the host keeps between a frame's locals and its
/// environment pointer.
pub const VM_ENV_DATA_SIZE: u32 = 3;

/// Whether `ep_offset`, a distance below the environment pointer, names one
/// of `local_table_size` local slots.
pub open spec fn valid_ep_offset(local_table_size: usize, ep_offset: u32) -> bool {
    &&& local_table_size <= i32::MAX
    &&& VM_ENV_DATA_SIZE <= ep_offset
    &&& ep_offset - VM_ENV_DATA_SIZE < local_table_size
}

/// The dense index of the local slot at distance `ep_offset` below the
/// environment pointer: the slot nearest the pointer is the last one.
pub open spec fn local_idx_spec(local_table_size: usize, ep_offset: u32) -> int {
    local_table_size - (ep_offset - VM_ENV_DATA_SIZE) - 1
}

/// Compute the index of a local variable from its slot index
//
// Layout illustration
//                                          | VM_ENV_DATA_SIZE |
//                                          v                  v
// low addr <+-------+-------+-------+-------+------------------+
//           |local 0|local 1|  ...  |local n|       ....       |
//           +-------+-------+-------+-------+------------------+
//           ^       ^                       ^                  ^
//           +-------+---local_table_size----+         cfp->ep--+
//                   |                                          |
//                   +------------------ep_offset---------------+
pub fn ep_offset_to_local_idx(local_table_size: usize, ep_offset: u32) -> (idx: usize)
    requires
        valid_ep_offset(local_table_size, ep_offset),
    ensures
        idx == local_idx_spec(local_table_size, ep_offset),
        idx < local_table_size,
{
    let op: usize = (ep_offset - VM_ENV_DATA_SIZE) as usize;
    local_table_size - op - 1
}

/// Snapshot of the program counter, the operand stack and the locals at a
/// point of the translation.
#[derive(Debug)]
pub struct FrameState {
    /// The number of local slots that the unit declares.
    pub local_table_size: usize,
    /// Offset of the bytecode instruction that is about to be translated.
    pub pc: u32,
    pub stack: Vec<InsnId>,
    pub locals: Vec<InsnId>,
}

/// A frame state as a mathematical value.
pub struct FrameStateView {
    pub local_table_size: usize,
    pub pc: u32,
    pub stack: Seq<InsnId>,
    pub locals: Seq<InsnId>,
}

impl FrameStateView {
    /// The state with `opnd` on top of the stack.
    pub open spec fn push(self, opnd: InsnId) -> FrameStateView {
        FrameStateView { stack: self.stack.push(opnd), ..self }
    }

    /// The state without the top `n` stack slots.
    pub open spec fn drop_top(self, n: nat) -> FrameStateView
        recommends
            n <= self.stack.len(),
    {
        FrameStateView { stack: self.stack.take(self.stack.len() - n), ..self }
    }

    /// The stack slot `n` below the top.
    pub open spec fn peek(self, n: nat) -> InsnId
        recommends
            n < self.stack.len(),
    {
        self.stack[self.stack.len() - 1 - n]
    }

    /// The state with an empty stack.
    pub open spec fn drained(self) -> FrameStateView {
        FrameStateView { stack: Seq::empty(), ..self }
    }

    /// Every local first, then every stack slot from the bottom up: the
    /// order in which a state is handed across a control edge.
    pub open spec fn as_args(self) -> Seq<InsnId> {
        self.locals + self.stack
    }

    /// Every value on the stack and in the locals is an instruction numbered
    /// below `bound`.
    pub open spec fn refers_below(self, bound: nat) -> bool {
        ids_below(self.stack, bound) && ids_below(self.locals, bound)
    }

    /// Taking `a` slots off and then `b` more is taking `a + b` off, and the
    /// slots below the first `a` are where they were.
    pub proof fn lemma_drop_top_again(self, a: nat, b: nat)
        requires
            a + b <= self.stack.len(),
        ensures
            self.drop_top(a).drop_top(b) == self.drop_top(a + b),
            forall|k: nat|
                a + k < self.stack.len() ==> #[trigger] self.drop_top(a).peek(k) == self.peek(
                    a + k,
                ),
    {
        assert(self.drop_top(a).drop_top(b).stack =~= self.drop_top(a + b).stack);
    }
}

impl View for FrameState {
    type V = FrameStateView;

    open spec fn view(&self) -> FrameStateView {
        FrameStateView {
            local_table_size: self.local_table_size,
            pc: self.pc,
            stack: self.stack@,
            locals: self.locals@,
        }
    }
}

impl Clone for FrameState {
    fn clone(&self) -> (res: Self)
        ensures
            res@ == self@,
    {
        FrameState {
            local_table_size: self.local_table_size,
            pc: self.pc,
            stack: copy_ids(&self.stack),
            locals: copy_ids(&self.locals),
        }
    }
}

/// Why a unit could not be translated.
#[derive(Debug)]
pub enum ParseError {
    /// An instruction needed more operands than the stack held; carries the
    /// state in which that was found.
    StackUnderflow(FrameState),
    /// No translation is known for this opcode; carries its name.
    UnknownOpcode(String),
}

/// A translation failure as a mathematical value.
pub enum ParseErrorView {
    StackUnderflow(FrameStateView),
    UnknownOpcode(Seq<char>),
}

impl View for ParseError {
    type V = ParseErrorView;

    open spec fn view(&self) -> ParseErrorView {
        match *self {
            ParseError::StackUnderflow(state) => ParseErrorView::StackUnderflow(state@),
            ParseError::UnknownOpcode(name) => ParseErrorView::UnknownOpcode(name@),
        }
    }
}

impl FrameState {
    /// The state at the entry of a unit with `local_table_size` local slots,
    /// before any local is known: nothing on the stack, no local recorded.
    pub fn new(local_table_size: usize) -> (state: FrameState)
        ensures
            state@ == (FrameStateView {
                local_table_size,
                pc: 0,
                stack: Seq::empty(),
                locals: Seq::empty(),
            }),
    {
        FrameState { local_table_size, pc: 0, stack: Vec::new(), locals: Vec::new() }
    }

    /// Puts `opnd` on top of the stack.
    pub fn push(&mut self, opnd: InsnId)
        ensures
            final(self)@ == old(self)@.push(opnd),
    {
        self.stack.push(opnd);
    }

    /// The top of the stack. An empty stack is an underflow, reported with
    /// the state.
    pub fn top(&self) -> (r: Result<InsnId, ParseError>)
        ensures
            self@.stack.len() > 0 ==> r == Ok::<InsnId, ParseError>(self@.peek(0)),
            self@.stack.len() == 0 ==> r is Err && r->Err_0@ == ParseErrorView::StackUnderflow(
                self@,
            ) && self@ == self@.drained(),
    {
        let len = self.stack.len();
        if len > 0 {
            Ok(self.stack[len - 1])
        } else {
            assert(self@.stack =~= Seq::empty());
            Err(ParseError::StackUnderflow(self.clone()))
        }
    }

    /// Takes the top of the stack off. An empty stack is an underflow,
    /// reported with the state, which stays as it was.
    pub fn pop(&mut self) -> (r: Result<InsnId, ParseError>)
        ensures
            old(self)@.stack.len() > 0 ==> r == Ok::<InsnId, ParseError>(old(self)@.peek(0))
                && final(self)@ == old(self)@.drop_top(1),
            old(self)@.stack.len() == 0 ==> r is Err && r->Err_0@
                == ParseErrorView::StackUnderflow(old(self)@) && final(self)@ == old(self)@
                && old(self)@ == old(self)@.drained(),
    {
        match self.stack.pop() {
            Some(opnd) => {
                assert(self.stack@ =~= old(self).stack@.take(old(self).stack@.len() - 1));
                Ok(opnd)
            },
            None => {
                assert(self@.stack =~= Seq::empty());
                Err(ParseError::StackUnderflow(self.clone()))
            },
        }
    }

    /// Overwrites the stack slot `n` below the top with `opnd`.
    pub fn setn(&mut self, n: usize, opnd: InsnId)
        requires
            n < old(self)@.stack.len(),
        ensures
            final(self)@ == (FrameStateView {
                stack: old(self)@.stack.update(old(self)@.stack.len() - 1 - n, opnd),
                ..old(self)@
            }),
    {
        let idx = self.stack.len() - n - 1;
        self.stack[idx] = opnd;
    }

    /// Records `opnd` as the value of the local at distance `ep_offset`
    /// below the environment pointer.
    pub fn setlocal(&mut self, ep_offset: u32, opnd: InsnId)
        requires
            valid_ep_offset(old(self)@.local_table_size, ep_offset),
            old(self)@.locals.len() == old(self)@.local_table_size,
        ensures
            final(self)@ == (FrameStateView {
                locals: old(self)@.locals.update(
                    local_idx_spec(old(self)@.local_table_size, ep_offset),
                    opnd,
                ),
                ..old(self)@
            }),
    {
        let idx = ep_offset_to_local_idx(self.local_table_size, ep_offset);
        self.locals[idx] = opnd;
    }

    /// The value of the local at distance `ep_offset` below the environment
    /// pointer. The state stays as it was.
    pub fn getlocal(&mut self, ep_offset: u32) -> (opnd: InsnId)
        requires
            valid_ep_offset(old(self)@.local_table_size, ep_offset),
            old(self)@.locals.len() == old(self)@.local_table_size,
        ensures
            opnd == old(self)@.locals[local_idx_spec(old(self)@.local_table_size, ep_offset)],
            final(self)@ == old(self)@,
    {
        let idx = ep_offset_to_local_idx(self.local_table_size, ep_offset);
        self.locals[idx]
    }

    /// The whole state as the arguments of a control edge: every local
    /// first, then every stack slot from the bottom up.
    pub fn as_args(&self) -> (args: Vec<InsnId>)
        ensures
            args@ == self@.as_args(),
    {
        let mut args = copy_ids(&self.locals);
        let mut i: usize = 0;
        while i < self.stack.len()
            invariant
                i <= self.stack.len(),
                args@ == self.locals@ + self.stack@.subrange(0, i as int),
            decreases self.stack.len() - i,
        {
            args.push(self.stack[i]);
            assert((self.locals@ + self.stack@.subrange(0, i as int)).push(self.stack@[i as int])
                =~= self.locals@ + self.stack@.subrange(0, i + 1));
            i += 1;
        }
        assert(self.stack@.subrange(0, i as int) =~= self.stack@);
        args
    }
}

} // verus!
