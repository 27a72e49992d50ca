//! What was observed of a unit's instructions while it ran in the
//! interpreter.

use vstd::prelude::*;
use std::collections::HashMap;

verus! {

broadcast use vstd::std_specs::hash::group_hash_axioms;

/// What was observed at one instruction, on every run so far.
#[derive(Copy, Clone, PartialEq, Eq, Debug, Structural)]
pub enum InsnProfile {
    /// At an addition: whether the receiver, and whether the argument, was
    /// a small integer each time.
    OptPlus { recv_is_fixnum: bool, obj_is_fixnum: bool },
}

/// The observations made of one unit. What was observed at an instruction is
/// kept under the offset at which that instruction ends.
#[derive(Debug)]
pub struct IseqPayload {
    pub insns: HashMap<usize, InsnProfile>,
}

impl View for IseqPayload {
    type V = Map<usize, InsnProfile>;

    open spec fn view(&self) -> Map<usize, InsnProfile> {
        self.insns@
    }
}

impl IseqPayload {
    /// No observation at all.
    pub fn new() -> (payload: IseqPayload)
        ensures
            payload@ == Map::<usize, InsnProfile>::empty(),
    {
        IseqPayload { insns: HashMap::new() }
    }

    /// Records `profile` as what was observed at the instruction that ends at
    /// `insn_idx`, in place of anything recorded there before.
    pub fn set_insn_profile(&mut self, insn_idx: usize, profile: InsnProfile)
        ensures
            final(self)@ == old(self)@.insert(insn_idx, profile),
    {
        self.insns.insert(insn_idx, profile);
    }

    /// What was observed at the instruction that ends at `insn_idx`, if
    /// anything.
    pub fn get_insn_profile(&self, insn_idx: usize) -> (profile: Option<InsnProfile>)
        ensures
            profile == if self@.contains_key(insn_idx) {
                Some(self@[insn_idx])
            } else {
                None
            },
    {
        match self.insns.get(&insn_idx) {
            Some(profile) => Some(*profile),
            None => None,
        }
    }
}

} // verus!
