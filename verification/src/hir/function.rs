//! Blocks and functions: the tables that hold a translated unit.

use vstd::prelude::*;
use crate::hir::id::{BlockId, InsnId};
use crate::hir::insn::{Insn, InsnView};
use crate::hir::union_find::UnionFind;

verus! {

/// A basic block: its formal parameters and its body, as instruction
/// identities in order.
#[derive(Debug)]
pub struct Block {
    pub params: Vec<InsnId>,
    pub insns: Vec<InsnId>,
}

/// A basic block as a mathematical value.
pub struct BlockView {
    pub params: Seq<InsnId>,
    pub insns: Seq<InsnId>,
}

impl BlockView {
    /// A block without parameters or instructions.
    pub open spec fn empty() -> BlockView {
        BlockView { params: Seq::empty(), insns: Seq::empty() }
    }
}

impl View for Block {
    type V = BlockView;

    open spec fn view(&self) -> BlockView {
        BlockView { params: self.params@, insns: self.insns@ }
    }
}

impl DeepView for Block {
    type V = BlockView;

    open spec fn deep_view(&self) -> BlockView {
        self@
    }
}

impl Default for Block {
    fn default() -> (block: Block)
        ensures
            block@ == BlockView::empty(),
    {
        Block { params: Vec::new(), insns: Vec::new() }
    }
}

/// A translated unit: the instruction table, the block table, the table of
/// replacements and the entry block. Tables only grow: an identity, once
/// given out, names the same entry for good.
#[derive(Debug)]
pub struct Function {
    pub insns: Vec<Insn>,
    pub union_find: UnionFind<InsnId>,
    pub blocks: Vec<Block>,
    pub entry_block: BlockId,
}

/// The instructions and blocks of a function as a mathematical value.
pub struct FunctionView {
    pub insns: Seq<InsnView>,
    pub blocks: Seq<BlockView>,
    pub entry_block: BlockId,
}

impl FunctionView {
    /// A function with one empty block, its entry, and no instruction.
    pub open spec fn empty() -> FunctionView {
        FunctionView {
            insns: Seq::empty(),
            blocks: seq![BlockView::empty()],
            entry_block: BlockId(0),
        }
    }

    /// The identity that the next instruction will get.
    pub open spec fn next_id(self) -> InsnId {
        InsnId(self.insns.len() as usize)
    }

    /// The function with `insn` appended to the instruction table and its
    /// identity appended to the body of `block`.
    pub open spec fn push_insn(self, block: BlockId, insn: InsnView) -> FunctionView
        recommends
            block.0 < self.blocks.len(),
    {
        FunctionView {
            insns: self.insns.push(insn),
            blocks: self.blocks.update(
                block.0 as int,
                BlockView {
                    insns: self.blocks[block.0 as int].insns.push(self.next_id()),
                    ..self.blocks[block.0 as int]
                },
            ),
            ..self
        }
    }

    /// The function with one more block, empty.
    pub open spec fn new_block(self) -> FunctionView {
        FunctionView { blocks: self.blocks.push(BlockView::empty()), ..self }
    }

    /// Every instruction refers only to instructions that were appended
    /// before it: whatever it uses, as an operand, as an argument of an edge
    /// or in a snapshot, has a smaller number than its own.
    pub open spec fn defined_before_use(self) -> bool {
        forall|i: int|
            0 <= i < self.insns.len() ==> (#[trigger] self.insns[i]).refers_below(i as nat)
    }

    /// Place `i` of block `b` exists.
    pub open spec fn is_place(self, b: int, i: int) -> bool {
        0 <= b < self.blocks.len() && 0 <= i < self.blocks[b].insns.len()
    }

    /// Every block holds only identities of instructions that exist.
    pub open spec fn listed_insns_exist(self) -> bool {
        forall|b: int, i: int|
            self.is_place(b, i) ==> (#[trigger] self.blocks[b].insns[i]).0 < self.insns.len()
    }

    /// The instruction numbered `id` stands in some block.
    pub open spec fn is_listed(self, id: int) -> bool {
        exists|b: int, i: int| self.is_place(b, i) && (#[trigger] self.blocks[b].insns[i]).0 == id
    }

    /// Every instruction stands in exactly one block, and there once.
    pub open spec fn each_insn_listed_once(self) -> bool {
        &&& forall|id: int| 0 <= id < self.insns.len() ==> #[trigger] self.is_listed(id)
        &&& forall|b: int, i: int, c: int, j: int|
            self.is_place(b, i) && self.is_place(c, j) && #[trigger] self.blocks[b].insns[i]
                == #[trigger] self.blocks[c].insns[j] ==> b == c && i == j
    }

    /// The entry block exists, every block holds only identities of
    /// instructions that exist, and every instruction stands in exactly one
    /// block.
    pub open spec fn well_formed(self) -> bool {
        &&& self.entry_block.0 < self.blocks.len()
        &&& self.listed_insns_exist()
        &&& self.each_insn_listed_once()
    }

    /// Appending an instruction to a block keeps the function well formed.
    pub proof fn lemma_push_insn_well_formed(self, block: BlockId, insn: InsnView)
        requires
            self.well_formed(),
            block.0 < self.blocks.len(),
            self.insns.len() < usize::MAX,
        ensures
            self.push_insn(block, insn).well_formed(),
    {
        let after = self.push_insn(block, insn);
        let fresh = self.insns.len() as int;
        let last = self.blocks[block.0 as int].insns.len() as int;
        assert(after.is_place(block.0 as int, last));
        assert(after.blocks[block.0 as int].insns[last].0 == fresh);
        assert forall|b: int, i: int| after.is_place(b, i) implies (
        #[trigger] after.blocks[b].insns[i]).0 < after.insns.len() by {
            if !(b == block.0 && i == last) {
                assert(self.is_place(b, i));
                assert(after.blocks[b].insns[i] == self.blocks[b].insns[i]);
            }
        }
        assert forall|id: int| 0 <= id < after.insns.len() implies #[trigger] after.is_listed(
            id,
        ) by {
            if id < fresh {
                assert(self.is_listed(id));
                let (b, i) = choose|b: int, i: int|
                    self.is_place(b, i) && (#[trigger] self.blocks[b].insns[i]).0 == id;
                assert(after.is_place(b, i));
                assert(after.blocks[b].insns[i].0 == id);
            }
        }
        assert forall|b: int, i: int, c: int, j: int|
            after.is_place(b, i) && after.is_place(c, j) && #[trigger] after.blocks[b].insns[i]
                == #[trigger] after.blocks[c].insns[j] implies b == c && i == j by {
            let at_new = b == block.0 && i == last;
            let also_new = c == block.0 && j == last;
            if !at_new {
                assert(self.is_place(b, i));
                assert(after.blocks[b].insns[i] == self.blocks[b].insns[i]);
            }
            if !also_new {
                assert(self.is_place(c, j));
                assert(after.blocks[c].insns[j] == self.blocks[c].insns[j]);
            }
        }
    }

    /// Adding an empty block keeps the function well formed.
    pub proof fn lemma_new_block_well_formed(self)
        requires
            self.well_formed(),
        ensures
            self.new_block().well_formed(),
    {
        let after = self.new_block();
        assert forall|b: int, i: int| after.is_place(b, i) implies self.is_place(b, i)
            && after.blocks[b].insns[i] == self.blocks[b].insns[i] by {}
        assert forall|id: int| 0 <= id < after.insns.len() implies #[trigger] after.is_listed(
            id,
        ) by {
            assert(self.is_listed(id));
            let (b, i) = choose|b: int, i: int|
                self.is_place(b, i) && (#[trigger] self.blocks[b].insns[i]).0 == id;
            assert(after.is_place(b, i));
            assert(after.blocks[b].insns[i].0 == id);
        }
        assert forall|b: int, i: int, c: int, j: int|
            after.is_place(b, i) && after.is_place(c, j) && #[trigger] after.blocks[b].insns[i]
                == #[trigger] after.blocks[c].insns[j] implies b == c && i == j by {
            assert(self.is_place(b, i) && self.is_place(c, j));
        }
    }
}

/// `insn` with each operand replaced by what `resolve` gives for it. Only
/// instructions without operands and those with a single value operand are
/// rewritten; every other instruction is left as it is.
pub open spec fn resolve_operands(insn: InsnView, resolve: spec_fn(InsnId) -> InsnId) -> InsnView {
    match insn {
        InsnView::StringCopy { val } => InsnView::StringCopy { val: resolve(val) },
        InsnView::StringIntern { val } => InsnView::StringIntern { val: resolve(val) },
        InsnView::Test { val } => InsnView::Test { val: resolve(val) },
        _ => insn,
    }
}

/// The instructions that `Function::find` can hand out.
pub open spec fn findable(insn: InsnView) -> bool {
    match insn {
        InsnView::PutSelf
        | InsnView::Const { .. }
        | InsnView::Param { .. }
        | InsnView::NewArray { .. }
        | InsnView::GetConstantPath { .. }
        | InsnView::StringCopy { .. }
        | InsnView::StringIntern { .. }
        | InsnView::Test { .. } => true,
        _ => false,
    }
}

impl View for Function {
    type V = FunctionView;

    open spec fn view(&self) -> FunctionView {
        FunctionView {
            insns: self.insns.deep_view(),
            blocks: self.blocks.deep_view(),
            entry_block: self.entry_block,
        }
    }
}

impl Function {
    /// The tables are consistent: the view is well formed, the replacements
    /// hold no cycle, and they speak only of instructions that exist.
    pub open spec fn well_formed(&self) -> bool {
        &&& self@.well_formed()
        &&& self.union_find.well_formed()
        &&& self.union_find.forwards_below(self@.insns.len())
        &&& self.union_find.forwarded_below(self@.insns.len())
    }

    /// The instruction that stands for `insn_id` after every replacement.
    pub open spec fn resolve(&self, insn_id: InsnId) -> InsnId {
        self.union_find.find_spec(insn_id)
    }

    /// A function with one empty block, its entry, no instruction and no
    /// replacement.
    pub fn new() -> (fun: Function)
        ensures
            fun@ == FunctionView::empty(),
            fun.well_formed(),
            forall|x: InsnId| #[trigger] fun.union_find.at_spec(x) is None,
    {
        let mut blocks: Vec<Block> = Vec::new();
        blocks.push(Block::default());
        let fun = Function {
            insns: Vec::new(),
            union_find: UnionFind::new(),
            blocks,
            entry_block: BlockId(0),
        };
        assert(fun@.blocks =~= seq![BlockView::empty()]);
        assert(fun@.insns =~= Seq::empty());
        fun
    }

    /// Add an instruction to an SSA block
    pub fn push_insn(&mut self, block: BlockId, insn: Insn) -> (id: InsnId)
        requires
            block.0 < old(self)@.blocks.len(),
        ensures
            id == old(self)@.next_id(),
            final(self)@ == old(self)@.push_insn(block, insn@),
            final(self).union_find == old(self).union_find,
            old(self).well_formed() ==> final(self).well_formed(),
            old(self)@.defined_before_use() && insn@.refers_below(old(self)@.insns.len())
                ==> final(self)@.defined_before_use(),
    {
        let id = InsnId(self.insns.len());
        self.insns.push(insn);
        self.blocks[block.0].insns.push(id);
        proof {
            assert(self@.insns =~= old(self)@.insns.push(insn@));
            assert(self@.blocks =~= old(self)@.push_insn(block, insn@).blocks);
            assert(self.insns.len() == self@.insns.len());
            if old(self)@.well_formed() {
                old(self)@.lemma_push_insn_well_formed(block, insn@);
            }
        }
        id
    }

    /// Adds an empty block and gives its identity.
    pub fn new_block(&mut self) -> (id: BlockId)
        ensures
            id == BlockId(old(self)@.blocks.len() as usize),
            final(self)@ == old(self)@.new_block(),
            final(self).union_find == old(self).union_find,
            old(self).well_formed() ==> final(self).well_formed(),
    {
        let id = BlockId(self.blocks.len());
        self.blocks.push(Block::default());
        proof {
            assert(self@.blocks =~= old(self)@.blocks.push(BlockView::empty()));
            assert(self@.insns =~= old(self)@.insns);
            if old(self)@.well_formed() {
                old(self)@.lemma_new_block_well_formed();
            }
        }
        id
    }

    /// The instruction that stands for `insn_id` after every replacement,
    /// with its operands resolved in the same way. Use this to inspect
    /// instructions: an identity read straight from the table may name a
    /// value that has been replaced. Only instructions without operands and
    /// those with a single value operand can be handed out.
    pub fn find(&mut self, insn_id: InsnId) -> (insn: Insn)
        requires
            old(self).well_formed(),
            insn_id.0 < old(self)@.insns.len(),
            findable(old(self)@.insns[old(self).resolve(insn_id).0 as int]),
        ensures
            insn@ == resolve_operands(
                old(self)@.insns[old(self).resolve(insn_id).0 as int],
                |x: InsnId| old(self).resolve(x),
            ),
            final(self)@ == old(self)@,
            final(self).well_formed(),
            forall|x: InsnId| #[trigger] final(self).resolve(x) == old(self).resolve(x),
    {
        proof {
            old(self).union_find.lemma_find_stays_below(old(self)@.insns.len(), insn_id);
        }
        let insn_id = self.union_find.find(insn_id);
        let ghost mid = self.union_find;
        let operand: Option<InsnId> = match &self.insns[insn_id.0] {
            Insn::StringCopy { val } => Some(*val),
            Insn::StringIntern { val } => Some(*val),
            Insn::Test { val } => Some(*val),
            _ => None,
        };
        let resolved: Option<InsnId> = match operand {
            Some(val) => Some(self.union_find.find(val)),
            None => None,
        };
        proof {
            if operand is Some {
                let val = operand->Some_0;
                if mid.find_spec(val) != val {
                    if mid.is_root(val) {
                        mid.lemma_find_of_root(val);
                    }
                    mid.lemma_find_stays_below(self@.insns.len(), val);
                }
            }
        }
        match (&self.insns[insn_id.0], resolved) {
            (Insn::PutSelf, _) => Insn::PutSelf,
            (Insn::Const { val }, _) => Insn::Const { val: *val },
            (Insn::Param { idx }, _) => Insn::Param { idx: *idx },
            (Insn::NewArray { count }, _) => Insn::NewArray { count: *count },
            (Insn::GetConstantPath { ic }, _) => Insn::GetConstantPath { ic: *ic },
            (Insn::StringCopy { .. }, Some(val)) => Insn::StringCopy { val },
            (Insn::StringIntern { .. }, Some(val)) => Insn::StringIntern { val },
            (Insn::Test { .. }, Some(val)) => Insn::Test { val },
            (other, _) => other.clone(),
        }
    }

    /// Replace `insn` with the new instruction `replacement`, which is
    /// appended to the instruction table and to `block`: from now on `insn`
    /// and everything that stood for the same value resolve to it.
    pub fn make_equal_to(&mut self, insn: InsnId, block: BlockId, replacement: Insn)
        requires
            old(self).well_formed(),
            insn.0 < old(self)@.insns.len(),
            block.0 < old(self)@.blocks.len(),
        ensures
            final(self).well_formed(),
            final(self)@ == old(self)@.push_insn(block, replacement@),
            forall|x: InsnId| #[trigger]
                final(self).resolve(x) == if old(self).resolve(x) == old(self).resolve(insn) {
                    old(self)@.next_id()
                } else {
                    old(self).resolve(x)
                },
    {
        let new_insn = self.push_insn(block, replacement);
        proof {
            let uf = self.union_find;
            uf.lemma_find_stays_below(old(self)@.insns.len(), insn);
            assert(old(self).insns.len() == old(self)@.insns.len());
            assert(uf.at_spec(new_insn) is None);
            uf.lemma_find_of_root(new_insn);
        }
        self.union_find.make_equal_to(insn, new_insn);
    }
}

} // verus!
