//! Identities of instructions and blocks: dense indices into append-only tables.

use vstd::prelude::*;

verus! {

/// An identity that names one slot of a dense, append-only table.
pub trait DenseId: Copy {
    /// The slot that this identity names.
    spec fn slot(self) -> usize;

    /// The slot that this identity names, as a table index.
    fn index(self) -> (i: usize)
        ensures
            i == self.slot(),
    ;

    /// Two identities that name the same slot are the same identity.
    proof fn slot_is_injective(self, other: Self)
        requires
            self.slot() == other.slot(),
        ensures
            self == other,
    ;
}

impl DenseId for usize {
    open spec fn slot(self) -> usize {
        self
    }

    fn index(self) -> (i: usize) {
        self
    }

    proof fn slot_is_injective(self, other: Self) {
    }
}

/// Identity of an instruction: its position in the function's instruction table.
#[derive(Copy, Clone, Eq, PartialEq, Hash, Debug, Structural)]
pub struct InsnId(pub usize);

impl DenseId for InsnId {
    open spec fn slot(self) -> usize {
        self.0
    }

    fn index(self) -> (i: usize) {
        self.0
    }

    proof fn slot_is_injective(self, other: Self) {
    }
}

/// Identity of a basic block: its position in the function's block table.
#[derive(Copy, Clone, Eq, PartialEq, Hash, Debug, Structural)]
pub struct BlockId(pub usize);

impl DenseId for BlockId {
    open spec fn slot(self) -> usize {
        self.0
    }

    fn index(self) -> (i: usize) {
        self.0
    }

    proof fn slot_is_injective(self, other: Self) {
    }
}

/// Every identity in `ids` names an instruction numbered below `bound`.
pub open spec fn ids_below(ids: Seq<InsnId>, bound: nat) -> bool {
    forall|i: int| 0 <= i < ids.len() ==> (#[trigger] ids[i]).0 < bound
}

impl From<InsnId> for usize {
    fn from(id: InsnId) -> (index: usize) {
        id.0
    }
}

impl vstd::std_specs::convert::FromSpecImpl<InsnId> for usize {
    open spec fn obeys_from_spec() -> bool {
        true
    }

    open spec fn from_spec(id: InsnId) -> usize {
        id.0
    }
}

} // verus!
