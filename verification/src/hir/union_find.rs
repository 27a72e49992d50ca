//! Disjoint sets over dense identities, with lazy resolution and path compression.
//!
//! Each set is a tree of forwarding entries whose root is the set's
//! representative. Replacing a value means forwarding its representative to the
//! replacement; every user of the old value sees the new one once it resolves
//! the identity through `find`.

use vstd::prelude::*;
use crate::hir::id::DenseId;

verus! {

/// A sparse, growable forwarding table keyed by dense identity. An identity
/// without an entry is not forwarded.
#[derive(Debug)]
pub struct UnionFind<T: DenseId> {
    forwarded: Vec<Option<T>>,
}

impl<T: DenseId> UnionFind<T> {
    /// The forwarding entry of `idx`: `None` where `idx` is not forwarded.
    pub closed spec fn at_spec(&self, idx: T) -> Option<T> {
        if idx.slot() < self.forwarded@.len() {
            self.forwarded@[idx.slot() as int]
        } else {
            None
        }
    }

    /// `x` is forwarded nowhere, so it represents its set.
    pub open spec fn is_root(&self, x: T) -> bool {
        self.at_spec(x) is None
    }

    /// The identity reached from `x` by following at most `n` forwarding entries.
    pub open spec fn walk(&self, x: T, n: nat) -> T
        decreases n,
    {
        if n == 0 {
            x
        } else {
            match self.at_spec(x) {
                None => x,
                Some(y) => self.walk(y, (n - 1) as nat),
            }
        }
    }

    /// Following `n` forwarding entries from `x` ends at a representative.
    pub open spec fn settles(&self, x: T, n: nat) -> bool {
        self.is_root(self.walk(x, n))
    }

    /// The forwarding entries that start at `x` end at a representative.
    pub open spec fn resolves(&self, x: T) -> bool {
        exists|n: nat| #[trigger] self.settles(x, n)
    }

    /// No chain of forwarding entries runs forever: the table holds no cycle.
    pub open spec fn well_formed(&self) -> bool {
        forall|x: T| #[trigger] self.resolves(x)
    }

    /// The representative of the set that holds `x`.
    pub open spec fn find_spec(&self, x: T) -> T {
        self.walk(x, choose|n: nat| self.settles(x, n))
    }

    /// From a representative every walk stays where it is.
    pub proof fn lemma_walk_from_root(&self, x: T, n: nat)
        requires
            self.is_root(x),
        ensures
            self.walk(x, n) == x,
    {
    }

    /// Once a walk has settled, walking further changes nothing.
    pub proof fn lemma_settles_mono(&self, x: T, n: nat, m: nat)
        requires
            self.settles(x, n),
            n <= m,
        ensures
            self.settles(x, m),
            self.walk(x, m) == self.walk(x, n),
        decreases n,
    {
        if n == 0 {
            self.lemma_walk_from_root(x, m);
        } else {
            match self.at_spec(x) {
                None => {
                    self.lemma_walk_from_root(x, m);
                },
                Some(y) => {
                    self.lemma_settles_mono(y, (n - 1) as nat, (m - 1) as nat);
                },
            }
        }
    }

    /// Any walk from `x` that settles ends at the representative of `x`.
    pub proof fn lemma_find_is_settled_walk(&self, x: T, n: nat)
        requires
            self.settles(x, n),
        ensures
            self.find_spec(x) == self.walk(x, n),
            self.is_root(self.find_spec(x)),
    {
        let k = choose|k: nat| self.settles(x, k);
        if k <= n {
            self.lemma_settles_mono(x, k, n);
        } else {
            self.lemma_settles_mono(x, n, k);
        }
    }

    /// A representative represents itself.
    pub proof fn lemma_find_of_root(&self, x: T)
        requires
            self.is_root(x),
        ensures
            self.find_spec(x) == x,
    {
        assert(self.settles(x, 0));
        self.lemma_find_is_settled_walk(x, 0);
    }

    /// In a table without cycles the representative of any identity is a root.
    pub proof fn lemma_find_is_root(&self, x: T)
        requires
            self.well_formed(),
        ensures
            self.is_root(self.find_spec(x)),
    {
        assert(self.resolves(x));
        let n = choose|n: nat| self.settles(x, n);
        self.lemma_find_is_settled_walk(x, n);
    }

    /// Every forwarding entry points at a slot below `bound`.
    pub open spec fn forwards_below(&self, bound: nat) -> bool {
        forall|x: T| (#[trigger] self.at_spec(x)) matches Some(y) ==> y.slot() < bound
    }

    /// Every forwarded identity names a slot below `bound`.
    pub open spec fn forwarded_below(&self, bound: nat) -> bool {
        forall|x: T| (#[trigger] self.at_spec(x)) is Some ==> x.slot() < bound
    }

    /// Where every entry points below a bound, no walk from below the bound
    /// leaves it.
    pub proof fn lemma_walk_stays_below(&self, bound: nat, x: T, n: nat)
        requires
            self.forwards_below(bound),
            x.slot() < bound,
        ensures
            self.walk(x, n).slot() < bound,
        decreases n,
    {
        if n > 0 {
            match self.at_spec(x) {
                None => {},
                Some(y) => {
                    self.lemma_walk_stays_below(bound, y, (n - 1) as nat);
                },
            }
        }
    }

    /// Where every entry points below a bound, the representative of an
    /// identity below the bound lies below it too.
    pub proof fn lemma_find_stays_below(&self, bound: nat, x: T)
        requires
            self.forwards_below(bound),
            x.slot() < bound,
        ensures
            self.find_spec(x).slot() < bound,
    {
        self.lemma_walk_stays_below(bound, x, choose|n: nat| self.settles(x, n));
    }

    /// `other` is `self` with the entry of `i` replaced by `Some(v)`.
    pub open spec fn updated_to(&self, other: &Self, i: T, v: T) -> bool {
        forall|x: T| #[trigger]
            other.at_spec(x) == if x == i {
                Some(v)
            } else {
                self.at_spec(x)
            }
    }

    proof fn lemma_compress_walk(&self, other: &Self, i: T, x: T, n: nat)
        requires
            self.well_formed(),
            self.find_spec(i) != i,
            self.updated_to(other, i, self.find_spec(i)),
            self.settles(x, n),
        ensures
            other.settles(x, n),
            other.walk(x, n) == self.walk(x, n),
        decreases n,
    {
        let r = self.find_spec(i);
        self.lemma_find_is_root(i);
        if self.is_root(i) {
            self.lemma_find_of_root(i);
        }
        assert(other.at_spec(r) == self.at_spec(r));
        match self.at_spec(x) {
            None => {
                assert(other.at_spec(x) == self.at_spec(x));
                self.lemma_walk_from_root(x, n);
                other.lemma_walk_from_root(x, n);
            },
            Some(y) => {
                assert(n > 0);
                if x == i {
                    self.lemma_find_is_settled_walk(i, n);
                    assert(other.at_spec(i) == Some(r));
                    other.lemma_walk_from_root(r, (n - 1) as nat);
                } else {
                    assert(other.at_spec(x) == Some(y));
                    self.lemma_compress_walk(other, i, y, (n - 1) as nat);
                }
            },
        }
    }

    /// Forwarding an identity straight to its representative changes no
    /// representative and creates no cycle.
    pub proof fn lemma_compression_keeps_sets(&self, other: &Self, i: T)
        requires
            self.well_formed(),
            self.find_spec(i) != i,
            self.updated_to(other, i, self.find_spec(i)),
        ensures
            other.well_formed(),
            forall|x: T| #[trigger] other.find_spec(x) == self.find_spec(x),
    {
        assert forall|x: T| #[trigger] other.resolves(x) by {
            assert(self.resolves(x));
            let n = choose|n: nat| self.settles(x, n);
            self.lemma_compress_walk(other, i, x, n);
        }
        assert forall|x: T| #[trigger] other.find_spec(x) == self.find_spec(x) by {
            assert(self.resolves(x));
            let n = choose|n: nat| self.settles(x, n);
            self.lemma_compress_walk(other, i, x, n);
            self.lemma_find_is_settled_walk(x, n);
            other.lemma_find_is_settled_walk(x, n);
        }
    }

    proof fn lemma_link_walk_outside(&self, other: &Self, root: T, target: T, x: T, n: nat)
        requires
            self.is_root(root),
            self.updated_to(other, root, target),
            self.settles(x, n),
            self.walk(x, n) != root,
        ensures
            other.settles(x, n),
            other.walk(x, n) == self.walk(x, n),
        decreases n,
    {
        match self.at_spec(x) {
            None => {
                self.lemma_walk_from_root(x, n);
                assert(other.at_spec(x) == self.at_spec(x));
                other.lemma_walk_from_root(x, n);
            },
            Some(y) => {
                assert(n > 0);
                assert(other.at_spec(x) == Some(y));
                self.lemma_link_walk_outside(other, root, target, y, (n - 1) as nat);
            },
        }
    }

    proof fn lemma_link_walk_inside(
        &self,
        other: &Self,
        root: T,
        target: T,
        x: T,
        n: nat,
        m: nat,
    )
        requires
            self.is_root(root),
            self.updated_to(other, root, target),
            self.settles(x, n),
            self.walk(x, n) == root,
            self.settles(target, m),
            self.walk(target, m) != root,
        ensures
            other.settles(x, n + 1 + m),
            other.walk(x, n + 1 + m) == self.walk(target, m),
        decreases n,
    {
        if x == root {
            assert(other.at_spec(root) == Some(target));
            self.lemma_link_walk_outside(other, root, target, target, m);
            other.lemma_settles_mono(target, m, n + m);
            assert(other.walk(root, n + 1 + m) == other.walk(target, (n + m) as nat));
        } else {
            match self.at_spec(x) {
                None => {
                    self.lemma_walk_from_root(x, n);
                },
                Some(y) => {
                    assert(n > 0);
                    assert(other.at_spec(x) == Some(y));
                    self.lemma_link_walk_inside(other, root, target, y, (n - 1) as nat, m);
                    assert(other.walk(x, n + 1 + m) == other.walk(y, (n + m) as nat));
                },
            }
        }
    }

    /// Forwarding a representative to an identity of another set merges the
    /// first set into the second and creates no cycle.
    pub proof fn lemma_link_merges_sets(&self, other: &Self, root: T, target: T)
        requires
            self.well_formed(),
            self.is_root(root),
            self.find_spec(target) != root,
            self.updated_to(other, root, target),
        ensures
            other.well_formed(),
            forall|x: T| #[trigger]
                other.find_spec(x) == if self.find_spec(x) == root {
                    self.find_spec(target)
                } else {
                    self.find_spec(x)
                },
    {
        assert forall|x: T| #[trigger]
            other.find_spec(x) == (if self.find_spec(x) == root {
                self.find_spec(target)
            } else {
                self.find_spec(x)
            }) by {
            self.lemma_link_at(other, root, target, x);
        }
        assert forall|x: T| #[trigger] other.resolves(x) by {
            self.lemma_link_at(other, root, target, x);
        }
    }

    proof fn lemma_link_at(&self, other: &Self, root: T, target: T, x: T)
        requires
            self.well_formed(),
            self.is_root(root),
            self.find_spec(target) != root,
            self.updated_to(other, root, target),
        ensures
            other.resolves(x),
            other.find_spec(x) == (if self.find_spec(x) == root {
                self.find_spec(target)
            } else {
                self.find_spec(x)
            }),
    {
        assert(self.resolves(target));
        let m = choose|m: nat| self.settles(target, m);
        self.lemma_find_is_settled_walk(target, m);
        assert(self.resolves(x));
        let n = choose|n: nat| self.settles(x, n);
        self.lemma_find_is_settled_walk(x, n);
        if self.walk(x, n) == root {
            self.lemma_link_walk_inside(other, root, target, x, n, m);
            other.lemma_find_is_settled_walk(x, n + 1 + m);
        } else {
            self.lemma_link_walk_outside(other, root, target, x, n);
            other.lemma_find_is_settled_walk(x, n);
        }
    }

    /// A table in which nothing is forwarded: every identity is alone in its set.
    pub fn new() -> (uf: UnionFind<T>)
        ensures
            uf.well_formed(),
            forall|x: T| #[trigger] uf.at_spec(x) is None,
            forall|x: T| #[trigger] uf.find_spec(x) == x,
    {
        let uf = UnionFind { forwarded: Vec::new() };
        proof {
            assert forall|x: T| #[trigger] uf.find_spec(x) == x by {
                uf.lemma_find_of_root(x);
            }
            assert forall|x: T| #[trigger] uf.resolves(x) by {
                assert(uf.settles(x, 0));
            }
        }
        uf
    }

    /// The forwarding entry of `idx`.
    pub fn at(&self, idx: T) -> (r: Option<T>)
        ensures
            r == self.at_spec(idx),
    {
        let i = idx.index();
        if i < self.forwarded.len() {
            self.forwarded[i]
        } else {
            None
        }
    }

    /// Forwards `idx` to `value`, growing the table where `idx` lies beyond it.
    /// Every other entry stays as it was.
    fn set(&mut self, idx: T, value: T)
        requires
            idx.slot() < usize::MAX,
        ensures
            old(self).updated_to(final(self), idx, value),
    {
        let i = idx.index();
        while self.forwarded.len() <= i
            invariant
                i == idx.slot(),
                i < usize::MAX,
                old(self).forwarded@.len() <= self.forwarded@.len(),
                forall|j: int|
                    0 <= j < old(self).forwarded@.len() ==> self.forwarded@[j] == old(
                        self,
                    ).forwarded@[j],
                forall|j: int|
                    old(self).forwarded@.len() <= j < self.forwarded@.len()
                        ==> self.forwarded@[j] is None,
            decreases i + 1 - self.forwarded.len(),
        {
            self.forwarded.push(None);
        }
        self.forwarded[i] = Some(value);
        proof {
            assert forall|x: T| #[trigger]
                self.at_spec(x) == if x == idx {
                    Some(value)
                } else {
                    old(self).at_spec(x)
                } by {
                if x.slot() == idx.slot() {
                    x.slot_is_injective(idx);
                }
            }
        }
    }

    /// The representative of the set that holds `insn`. Where `insn` is not its
    /// own representative it is forwarded straight to it afterwards, so the
    /// next lookup takes one step; no set changes.
    pub fn find(&mut self, insn: T) -> (r: T)
        requires
            old(self).well_formed(),
        ensures
            r == old(self).find_spec(insn),
            final(self).well_formed(),
            forall|x: T| #[trigger] final(self).find_spec(x) == old(self).find_spec(x),
            forall|x: T| #[trigger]
                final(self).at_spec(x) == if x == insn && r != insn {
                    Some(r)
                } else {
                    old(self).at_spec(x)
                },
    {
        let result = self.find_const(insn);
        if result.index() != insn.index() {
            proof {
                if self.is_root(insn) {
                    self.lemma_find_of_root(insn);
                }
                assert(insn.slot() < self.forwarded.len());
            }
            self.set(insn, result);
            proof {
                old(self).lemma_compression_keeps_sets(self, insn);
            }
        } else {
            proof {
                result.slot_is_injective(insn);
            }
        }
        result
    }

    /// The representative of the set that holds `insn`, found without changing
    /// the table.
    pub fn find_const(&self, insn: T) -> (r: T)
        requires
            self.well_formed(),
        ensures
            r == self.find_spec(insn),
            self.is_root(r),
    {
        let mut result = insn;
        let ghost mut fuel: nat = choose|n: nat| self.settles(insn, n);
        proof {
            assert(self.resolves(insn));
            self.lemma_find_is_settled_walk(insn, fuel);
        }
        loop
            invariant
                self.well_formed(),
                self.settles(result, fuel),
                self.walk(result, fuel) == self.find_spec(insn),
            ensures
                result == self.find_spec(insn),
                self.is_root(result),
            decreases fuel,
        {
            match self.at(result) {
                None => {
                    proof {
                        self.lemma_walk_from_root(result, fuel);
                    }
                    break ;
                },
                Some(next) => {
                    proof {
                        assert(fuel > 0);
                        fuel = (fuel - 1) as nat;
                    }
                    result = next;
                },
            }
        }
        result
    }

    /// Merges the set of `insn` into the set of `target`: the representative of
    /// `insn` is forwarded to `target`, so the representative of `target`
    /// becomes that of every member of both sets. The two must lie in
    /// different sets, since forwarding inside one set would close a cycle.
    pub fn make_equal_to(&mut self, insn: T, target: T)
        requires
            old(self).well_formed(),
            old(self).find_spec(insn) != old(self).find_spec(target),
            old(self).find_spec(insn).slot() < usize::MAX,
        ensures
            final(self).well_formed(),
            forall|x: T| #[trigger]
                final(self).find_spec(x) == if old(self).find_spec(x) == old(self).find_spec(
                    insn,
                ) {
                    old(self).find_spec(target)
                } else {
                    old(self).find_spec(x)
                },
            forall|x: T| #[trigger]
                final(self).at_spec(x) == if x == old(self).find_spec(insn) {
                    Some(target)
                } else if x == insn {
                    Some(old(self).find_spec(insn))
                } else {
                    old(self).at_spec(x)
                },
    {
        let found = self.find(insn);
        let ghost mid = *self;
        proof {
            old(self).lemma_find_is_root(insn);
            assert(mid.at_spec(found) == old(self).at_spec(found));
        }
        self.set(found, target);
        proof {
            mid.lemma_link_merges_sets(self, found, target);
        }
    }
}

} // verus!
