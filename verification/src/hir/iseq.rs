//! A bytecode unit as the translation reads it: one method's instruction
//! stream, with what the host declares of it.
//!
//! The stream is a sequence of words. An instruction is one word that holds
//! its opcode, followed by its operands, one word each. How many words an
//! instruction takes is a matter of its opcode alone and stands in the host's
//! instruction table, which comes with the unit. Positions in the stream are
//! word offsets; a branch operand is relative to the offset at which the
//! branch instruction ends.

use vstd::prelude::*;
use crate::hir::frame_state::{valid_ep_offset, VM_ENV_DATA_SIZE};
use crate::hir::value::{word_as_int, VALUE};

verus! {

// The opcodes that the translation knows, each by the number that the
// interpreter gives it. The instruction table that comes with a unit follows
// the same numbering.

/// The number of the opcode `nop`.
#[allow(non_upper_case_globals)]
pub const YARVINSN_nop: u32 = 0;

/// The number of the opcode `opt_getconstant_path`.
#[allow(non_upper_case_globals)]
pub const YARVINSN_opt_getconstant_path: u32 = 12;

/// The number of the opcode `putnil`.
#[allow(non_upper_case_globals)]
pub const YARVINSN_putnil: u32 = 17;

/// The number of the opcode `putself`.
#[allow(non_upper_case_globals)]
pub const YARVINSN_putself: u32 = 18;

/// The number of the opcode `putobject`.
#[allow(non_upper_case_globals)]
pub const YARVINSN_putobject: u32 = 19;

/// The number of the opcode `putstring`.
#[allow(non_upper_case_globals)]
pub const YARVINSN_putstring: u32 = 21;

/// The number of the opcode `putchilledstring`.
#[allow(non_upper_case_globals)]
pub const YARVINSN_putchilledstring: u32 = 22;

/// The number of the opcode `intern`.
#[allow(non_upper_case_globals)]
pub const YARVINSN_intern: u32 = 26;

/// The number of the opcode `newarray`.
#[allow(non_upper_case_globals)]
pub const YARVINSN_newarray: u32 = 27;

/// The number of the opcode `duparray`.
#[allow(non_upper_case_globals)]
pub const YARVINSN_duparray: u32 = 29;

/// The number of the opcode `pop`.
#[allow(non_upper_case_globals)]
pub const YARVINSN_pop: u32 = 39;

/// The number of the opcode `dup`.
#[allow(non_upper_case_globals)]
pub const YARVINSN_dup: u32 = 40;

/// The number of the opcode `swap`.
#[allow(non_upper_case_globals)]
pub const YARVINSN_swap: u32 = 42;

/// The number of the opcode `setn`.
#[allow(non_upper_case_globals)]
pub const YARVINSN_setn: u32 = 45;

/// The number of the opcode `defined`.
#[allow(non_upper_case_globals)]
pub const YARVINSN_defined: u32 = 47;

/// The number of the opcode `opt_send_without_block`.
#[allow(non_upper_case_globals)]
pub const YARVINSN_opt_send_without_block: u32 = 57;

/// The number of the opcode `opt_nil_p`.
#[allow(non_upper_case_globals)]
pub const YARVINSN_opt_nil_p: u32 = 62;

/// The number of the opcode `leave`.
#[allow(non_upper_case_globals)]
pub const YARVINSN_leave: u32 = 69;

/// The number of the opcode `jump`.
#[allow(non_upper_case_globals)]
pub const YARVINSN_jump: u32 = 71;

/// The number of the opcode `branchif`.
#[allow(non_upper_case_globals)]
pub const YARVINSN_branchif: u32 = 72;

/// The number of the opcode `branchunless`.
#[allow(non_upper_case_globals)]
pub const YARVINSN_branchunless: u32 = 73;

/// The number of the opcode `branchnil`.
#[allow(non_upper_case_globals)]
pub const YARVINSN_branchnil: u32 = 74;

/// The number of the opcode `opt_plus`.
#[allow(non_upper_case_globals)]
pub const YARVINSN_opt_plus: u32 = 77;

/// The number of the opcode `opt_div`.
#[allow(non_upper_case_globals)]
pub const YARVINSN_opt_div: u32 = 80;

/// The number of the opcode `opt_lt`.
#[allow(non_upper_case_globals)]
pub const YARVINSN_opt_lt: u32 = 84;

/// The number of the opcode `opt_ltlt`.
#[allow(non_upper_case_globals)]
pub const YARVINSN_opt_ltlt: u32 = 88;

/// The number of the opcode `opt_aset`.
#[allow(non_upper_case_globals)]
pub const YARVINSN_opt_aset: u32 = 92;

/// The number of the opcode `opt_invokebuiltin_delegate_leave`.
#[allow(non_upper_case_globals)]
pub const YARVINSN_opt_invokebuiltin_delegate_leave: u32 = 103;

/// The number of the opcode `getlocal_WC_0`.
#[allow(non_upper_case_globals)]
pub const YARVINSN_getlocal_WC_0: u32 = 104;

/// The number of the opcode `setlocal_WC_0`.
#[allow(non_upper_case_globals)]
pub const YARVINSN_setlocal_WC_0: u32 = 106;

/// The number of the opcode `putobject_INT2FIX_0_`.
#[allow(non_upper_case_globals)]
pub const YARVINSN_putobject_INT2FIX_0_: u32 = 108;

/// The number of the opcode `putobject_INT2FIX_1_`.
#[allow(non_upper_case_globals)]
pub const YARVINSN_putobject_INT2FIX_1_: u32 = 109;

/// The number of the opcode `zjit_opt_plus`.
#[allow(non_upper_case_globals)]
pub const YARVINSN_zjit_opt_plus: u32 = 220;

/// The opcodes that the translation tells apart. Every opcode without a
/// rule of its own is `Other`.
#[derive(Copy, Clone, PartialEq, Eq, Debug, Structural)]
pub enum Opcode {
    Nop,
    PutNil,
    PutObject,
    PutString,
    PutChilledString,
    PutSelf,
    Intern,
    NewArray,
    DupArray,
    PutObjectFix0,
    PutObjectFix1,
    Defined,
    OptGetConstantPath,
    BranchUnless,
    BranchIf,
    BranchNil,
    Jump,
    OptNilP,
    GetLocal,
    SetLocal,
    Pop,
    Dup,
    Swap,
    SetN,
    OptPlus,
    OptDiv,
    OptLt,
    OptLtLt,
    OptAset,
    Leave,
    DelegateLeave,
    OptSendWithoutBlock,
    Other,
}

impl Opcode {
    /// The opcode that the number `opcode` stands for.
    pub open spec fn decode_spec(opcode: u64) -> Opcode {
        if opcode == YARVINSN_nop {
            Opcode::Nop
        } else if opcode == YARVINSN_putnil {
            Opcode::PutNil
        } else if opcode == YARVINSN_putobject {
            Opcode::PutObject
        } else if opcode == YARVINSN_putstring {
            Opcode::PutString
        } else if opcode == YARVINSN_putchilledstring {
            Opcode::PutChilledString
        } else if opcode == YARVINSN_putself {
            Opcode::PutSelf
        } else if opcode == YARVINSN_intern {
            Opcode::Intern
        } else if opcode == YARVINSN_newarray {
            Opcode::NewArray
        } else if opcode == YARVINSN_duparray {
            Opcode::DupArray
        } else if opcode == YARVINSN_putobject_INT2FIX_0_ {
            Opcode::PutObjectFix0
        } else if opcode == YARVINSN_putobject_INT2FIX_1_ {
            Opcode::PutObjectFix1
        } else if opcode == YARVINSN_defined {
            Opcode::Defined
        } else if opcode == YARVINSN_opt_getconstant_path {
            Opcode::OptGetConstantPath
        } else if opcode == YARVINSN_branchunless {
            Opcode::BranchUnless
        } else if opcode == YARVINSN_branchif {
            Opcode::BranchIf
        } else if opcode == YARVINSN_branchnil {
            Opcode::BranchNil
        } else if opcode == YARVINSN_jump {
            Opcode::Jump
        } else if opcode == YARVINSN_opt_nil_p {
            Opcode::OptNilP
        } else if opcode == YARVINSN_getlocal_WC_0 {
            Opcode::GetLocal
        } else if opcode == YARVINSN_setlocal_WC_0 {
            Opcode::SetLocal
        } else if opcode == YARVINSN_pop {
            Opcode::Pop
        } else if opcode == YARVINSN_dup {
            Opcode::Dup
        } else if opcode == YARVINSN_swap {
            Opcode::Swap
        } else if opcode == YARVINSN_setn {
            Opcode::SetN
        } else if opcode == YARVINSN_opt_plus || opcode == YARVINSN_zjit_opt_plus {
            Opcode::OptPlus
        } else if opcode == YARVINSN_opt_div {
            Opcode::OptDiv
        } else if opcode == YARVINSN_opt_lt {
            Opcode::OptLt
        } else if opcode == YARVINSN_opt_ltlt {
            Opcode::OptLtLt
        } else if opcode == YARVINSN_opt_aset {
            Opcode::OptAset
        } else if opcode == YARVINSN_leave {
            Opcode::Leave
        } else if opcode == YARVINSN_opt_invokebuiltin_delegate_leave {
            Opcode::DelegateLeave
        } else if opcode == YARVINSN_opt_send_without_block {
            Opcode::OptSendWithoutBlock
        } else {
            Opcode::Other
        }
    }

    /// Whether the translation or the scan for jump targets reads the first
    /// operand of an instruction with this opcode.
    pub open spec fn reads_operand(self) -> bool {
        match self {
            Opcode::PutObject
            | Opcode::PutString
            | Opcode::PutChilledString
            | Opcode::NewArray
            | Opcode::DupArray
            | Opcode::Defined
            | Opcode::OptGetConstantPath
            | Opcode::BranchUnless
            | Opcode::BranchIf
            | Opcode::BranchNil
            | Opcode::Jump
            | Opcode::GetLocal
            | Opcode::SetLocal
            | Opcode::SetN
            | Opcode::OptSendWithoutBlock => true,
            _ => false,
        }
    }

    /// Whether an instruction with this opcode names a branch target in its
    /// first operand.
    pub open spec fn is_branch(self) -> bool {
        self == Opcode::BranchUnless || self == Opcode::Jump || self == Opcode::BranchIf || self
            == Opcode::BranchNil
    }

    /// Whether an instruction with this opcode leaves the method.
    pub open spec fn is_terminal(self) -> bool {
        self == Opcode::Leave || self == Opcode::DelegateLeave
    }

    /// The opcode that the number `opcode` stands for.
    pub fn decode(opcode: u64) -> (op: Opcode)
        ensures
            op == Opcode::decode_spec(opcode),
    {
        if opcode == YARVINSN_nop as u64 {
            Opcode::Nop
        } else if opcode == YARVINSN_putnil as u64 {
            Opcode::PutNil
        } else if opcode == YARVINSN_putobject as u64 {
            Opcode::PutObject
        } else if opcode == YARVINSN_putstring as u64 {
            Opcode::PutString
        } else if opcode == YARVINSN_putchilledstring as u64 {
            Opcode::PutChilledString
        } else if opcode == YARVINSN_putself as u64 {
            Opcode::PutSelf
        } else if opcode == YARVINSN_intern as u64 {
            Opcode::Intern
        } else if opcode == YARVINSN_newarray as u64 {
            Opcode::NewArray
        } else if opcode == YARVINSN_duparray as u64 {
            Opcode::DupArray
        } else if opcode == YARVINSN_putobject_INT2FIX_0_ as u64 {
            Opcode::PutObjectFix0
        } else if opcode == YARVINSN_putobject_INT2FIX_1_ as u64 {
            Opcode::PutObjectFix1
        } else if opcode == YARVINSN_defined as u64 {
            Opcode::Defined
        } else if opcode == YARVINSN_opt_getconstant_path as u64 {
            Opcode::OptGetConstantPath
        } else if opcode == YARVINSN_branchunless as u64 {
            Opcode::BranchUnless
        } else if opcode == YARVINSN_branchif as u64 {
            Opcode::BranchIf
        } else if opcode == YARVINSN_branchnil as u64 {
            Opcode::BranchNil
        } else if opcode == YARVINSN_jump as u64 {
            Opcode::Jump
        } else if opcode == YARVINSN_opt_nil_p as u64 {
            Opcode::OptNilP
        } else if opcode == YARVINSN_getlocal_WC_0 as u64 {
            Opcode::GetLocal
        } else if opcode == YARVINSN_setlocal_WC_0 as u64 {
            Opcode::SetLocal
        } else if opcode == YARVINSN_pop as u64 {
            Opcode::Pop
        } else if opcode == YARVINSN_dup as u64 {
            Opcode::Dup
        } else if opcode == YARVINSN_swap as u64 {
            Opcode::Swap
        } else if opcode == YARVINSN_setn as u64 {
            Opcode::SetN
        } else if opcode == YARVINSN_opt_plus as u64 || opcode == YARVINSN_zjit_opt_plus as u64 {
            Opcode::OptPlus
        } else if opcode == YARVINSN_opt_div as u64 {
            Opcode::OptDiv
        } else if opcode == YARVINSN_opt_lt as u64 {
            Opcode::OptLt
        } else if opcode == YARVINSN_opt_ltlt as u64 {
            Opcode::OptLtLt
        } else if opcode == YARVINSN_opt_aset as u64 {
            Opcode::OptAset
        } else if opcode == YARVINSN_leave as u64 {
            Opcode::Leave
        } else if opcode == YARVINSN_opt_invokebuiltin_delegate_leave as u64 {
            Opcode::DelegateLeave
        } else if opcode == YARVINSN_opt_send_without_block as u64 {
            Opcode::OptSendWithoutBlock
        } else {
            Opcode::Other
        }
    }

    /// Whether the first operand of an instruction with this opcode is read.
    pub fn has_operand(self) -> (b: bool)
        ensures
            b == self.reads_operand(),
    {
        match self {
            Opcode::PutObject
            | Opcode::PutString
            | Opcode::PutChilledString
            | Opcode::NewArray
            | Opcode::DupArray
            | Opcode::Defined
            | Opcode::OptGetConstantPath
            | Opcode::BranchUnless
            | Opcode::BranchIf
            | Opcode::BranchNil
            | Opcode::Jump
            | Opcode::GetLocal
            | Opcode::SetLocal
            | Opcode::SetN
            | Opcode::OptSendWithoutBlock => true,
            _ => false,
        }
    }
}

/// What the host's instruction table says of one opcode.
#[derive(Debug)]
pub struct InsnInfo {
    /// The opcode's name.
    pub name: String,
    /// The number of words that an instruction with this opcode takes: one
    /// for the opcode and one for each operand.
    pub len: usize,
}

/// A row of the instruction table as a mathematical value.
pub struct InsnInfoView {
    pub name: Seq<char>,
    pub len: usize,
}

impl View for InsnInfo {
    type V = InsnInfoView;

    open spec fn view(&self) -> InsnInfoView {
        InsnInfoView { name: self.name@, len: self.len }
    }
}

impl DeepView for InsnInfo {
    type V = InsnInfoView;

    open spec fn deep_view(&self) -> InsnInfoView {
        self@
    }
}

/// What the host knows of one call site.
#[derive(Debug)]
pub struct CallData {
    /// The name of the method called, where the host has one for it.
    pub name: Option<String>,
    /// The number of arguments passed, the receiver not counted.
    pub argc: u32,
}

/// A call site as a mathematical value.
pub struct CallDataView {
    pub name: Option<Seq<char>>,
    pub argc: u32,
}

impl View for CallData {
    type V = CallDataView;

    open spec fn view(&self) -> CallDataView {
        CallDataView {
            name: match self.name {
                Some(name) => Some(name@),
                None => None,
            },
            argc: self.argc,
        }
    }
}

impl DeepView for CallData {
    type V = CallDataView;

    open spec fn deep_view(&self) -> CallDataView {
        self@
    }
}

/// One bytecode unit.
#[derive(Debug)]
pub struct Iseq {
    /// The host's instruction table, indexed by opcode.
    pub insn_table: Vec<InsnInfo>,
    /// The instruction stream.
    pub encoded: Vec<VALUE>,
    /// The number of leading positional parameters that the unit declares.
    pub param_lead_num: usize,
    /// The number of local slots that the unit declares, parameters included.
    pub local_table_size: usize,
    /// The unit's call sites. A call instruction names one by its index.
    pub call_data: Vec<CallData>,
}

/// A bytecode unit as a mathematical value.
pub struct IseqView {
    pub insn_table: Seq<InsnInfoView>,
    pub encoded: Seq<VALUE>,
    pub param_lead_num: usize,
    pub local_table_size: usize,
    pub call_data: Seq<CallDataView>,
}

impl View for Iseq {
    type V = IseqView;

    open spec fn view(&self) -> IseqView {
        IseqView {
            insn_table: self.insn_table.deep_view(),
            encoded: self.encoded@,
            param_lead_num: self.param_lead_num,
            local_table_size: self.local_table_size,
            call_data: self.call_data.deep_view(),
        }
    }
}

/// The 32-bit number that `v` comes to when it wraps around.
pub open spec fn wrap_u32(v: int) -> u32 {
    (v % 0x1_0000_0000) as u32
}

impl IseqView {
    /// The number of words in the stream.
    pub open spec fn size(self) -> int {
        self.encoded.len() as int
    }

    /// The number in the opcode word of the instruction at `p`.
    pub open spec fn opcode_at(self, p: int) -> u64 {
        self.encoded[p].0
    }

    /// The opcode of the instruction at `p`.
    pub open spec fn op_at(self, p: int) -> Opcode {
        Opcode::decode_spec(self.opcode_at(p))
    }

    /// The number of words that the instruction at `p` takes.
    pub open spec fn len_at(self, p: int) -> int {
        self.insn_table[self.opcode_at(p) as int].len as int
    }

    /// The offset at which the instruction at `p` ends and the next begins.
    pub open spec fn next(self, p: int) -> int {
        p + self.len_at(p)
    }

    /// The first operand of the instruction at `p`.
    pub open spec fn operand(self, p: int) -> VALUE {
        self.encoded[p + 1]
    }

    /// The instruction at `p` can be decoded: the table knows its opcode, and
    /// the opcode and the operands that are read lie inside the stream.
    pub open spec fn insn_fits(self, p: int) -> bool {
        &&& 0 <= p < self.size()
        &&& self.opcode_at(p) < self.insn_table.len()
        &&& 1 <= self.len_at(p)
        &&& self.next(p) <= self.size()
        &&& self.op_at(p).reads_operand() ==> 2 <= self.len_at(p)
    }

    /// Every instruction from `p` to the end of the stream can be decoded,
    /// one after the other.
    pub open spec fn scannable_from(self, p: int) -> bool
        decreases self.size() - p,
    {
        if 0 <= p < self.size() {
            if self.insn_fits(p) {
                self.scannable_from(self.next(p))
            } else {
                false
            }
        } else {
            true
        }
    }

    /// The stream can be read from its start to its end as a run of
    /// instructions, and offsets in it are 32-bit numbers.
    pub open spec fn scannable(self) -> bool {
        &&& self.size() <= u32::MAX
        &&& self.insn_table.len() <= u32::MAX
        &&& self.scannable_from(0)
    }

    /// Reading instructions one after the other from `from` arrives at `p`.
    pub open spec fn reaches(self, from: int, p: int) -> bool
        decreases p - from,
    {
        if from >= p {
            from == p
        } else if self.insn_fits(from) && self.next(from) <= p {
            self.reaches(self.next(from), p)
        } else {
            false
        }
    }

    /// An instruction starts at `p`, or the stream ends there.
    pub open spec fn is_boundary(self, p: int) -> bool {
        self.reaches(0, p)
    }

    /// The offset that the branch at `p` names: its operand, a signed
    /// distance, counted from the offset at which the branch ends.
    pub open spec fn branch_target(self, p: int) -> u32 {
        wrap_u32(self.next(p) + word_as_int(self.operand(p).0))
    }

    /// The jump targets that the instruction at `p` gives rise to: the
    /// target of a branch, and the offset behind an instruction that leaves
    /// the method, unless the stream ends there.
    pub open spec fn targets_at(self, p: int) -> Set<u32> {
        if self.op_at(p).is_branch() {
            set![self.branch_target(p)]
        } else if self.op_at(p).is_terminal() && self.next(p) < self.size() {
            set![self.next(p) as u32]
        } else {
            Set::empty()
        }
    }

    /// The jump targets that the instructions from `p` to the end of the
    /// stream give rise to.
    pub open spec fn jump_targets_from(self, p: int) -> Set<u32>
        decreases self.size() - p,
    {
        if 0 <= p < self.size() && self.insn_fits(p) {
            self.targets_at(p).union(self.jump_targets_from(self.next(p)))
        } else {
            Set::empty()
        }
    }

    /// The jump targets of the unit.
    pub open spec fn jump_targets(self) -> Set<u32> {
        self.jump_targets_from(0)
    }

    /// The offset that the branch at `p` names, before any wrapping.
    pub open spec fn branch_destination(self, p: int) -> int {
        self.next(p) + word_as_int(self.operand(p).0)
    }

    /// The operand of the instruction at `p` says what its opcode needs it
    /// to say: a branch leads to the start of an instruction behind the
    /// first, or to the end of the stream; an access to a local names one of
    /// the declared slots; a call names one of the unit's call sites.
    pub open spec fn insn_ok(self, p: int) -> bool {
        let op = self.op_at(p);
        &&& op.is_branch() ==> 1 <= self.branch_destination(p) <= self.size() && self.is_boundary(
            self.branch_destination(p),
        )
        &&& (op == Opcode::GetLocal || op == Opcode::SetLocal) ==> self.operand(p).0 <= u32::MAX
            && valid_ep_offset(self.local_table_size, self.operand(p).0 as u32)
        &&& op == Opcode::OptSendWithoutBlock ==> self.operand(p).0 < self.call_data.len()
    }

    /// Every instruction from `p` to the end of the stream has an operand
    /// that says what its opcode needs.
    pub open spec fn all_ok_from(self, p: int) -> bool
        decreases self.size() - p,
    {
        if 0 <= p < self.size() && self.insn_fits(p) {
            self.insn_ok(p) && self.all_ok_from(self.next(p))
        } else {
            true
        }
    }

    /// The unit can be translated: its stream is a run of instructions that
    /// the table knows, and every operand that the translation relies on
    /// says what its opcode needs.
    pub open spec fn well_formed(self) -> bool {
        &&& self.scannable()
        &&& self.all_ok_from(0)
    }

    /// Reading on from an offset that was reached arrives at the end of the
    /// instruction that starts there.
    pub proof fn lemma_reaches_next(self, from: int, p: int)
        requires
            self.reaches(from, p),
            self.insn_fits(p),
        ensures
            self.reaches(from, self.next(p)),
        decreases p - from,
    {
        if from < p {
            self.lemma_reaches_next(self.next(from), p);
        } else {
            assert(self.reaches(self.next(p), self.next(p)));
        }
    }

    /// What the jump targets found from `from` are: the targets of the
    /// instructions that reading from `from` arrives at.
    pub proof fn lemma_jump_targets_from(self, from: int, t: u32)
        requires
            0 <= from,
        ensures
            self.jump_targets_from(from).contains(t) <==> exists|p: int|
                self.reaches(from, p) && self.insn_fits(p) && #[trigger] self.targets_at(
                    p,
                ).contains(t),
        decreases self.size() - from,
    {
        if from < self.size() && self.insn_fits(from) {
            let next = self.next(from);
            self.lemma_jump_targets_from(next, t);
            if self.jump_targets_from(from).contains(t) {
                if self.targets_at(from).contains(t) {
                    assert(self.reaches(from, from));
                } else {
                    let p = choose|p: int|
                        self.reaches(next, p) && self.insn_fits(p) && #[trigger] self.targets_at(
                            p,
                        ).contains(t);
                    assert(next <= p) by {
                        if p < next {
                            assert(!self.reaches(next, p));
                        }
                    }
                    assert(self.reaches(from, p));
                }
            }
            if exists|p: int|
                self.reaches(from, p) && self.insn_fits(p) && #[trigger] self.targets_at(
                    p,
                ).contains(t) {
                let p = choose|p: int|
                    self.reaches(from, p) && self.insn_fits(p) && #[trigger] self.targets_at(
                        p,
                    ).contains(t);
                if p != from {
                    assert(from < p) by {
                        if p < from {
                            assert(!self.reaches(from, p));
                        }
                    }
                    assert(self.reaches(next, p));
                }
            }
        } else {
            assert forall|p: int|
                self.reaches(from, p) && self.insn_fits(p) implies !(#[trigger] self.targets_at(
                    p,
                ).contains(t)) by {
                if from < p {
                } else if p < from {
                }
            }
        }
    }

    /// The jump targets of a unit are the offsets that its instructions name:
    /// an offset is a jump target exactly if an instruction of the unit, read
    /// from the start of the stream, branches there or leaves the method
    /// right before it.
    pub proof fn lemma_jump_targets_are_named(self, t: u32)
        ensures
            self.jump_targets().contains(t) <==> exists|p: int|
                self.is_boundary(p) && self.insn_fits(p) && #[trigger] self.targets_at(p).contains(
                    t,
                ),
    {
        self.lemma_jump_targets_from(0, t);
    }

    /// No instruction starts inside another: reading from `from` arrives at
    /// `p` and at `q` behind it only if `q` lies at or behind the end of the
    /// instruction at `p`.
    pub proof fn lemma_no_boundary_inside(self, from: int, p: int, q: int)
        requires
            self.reaches(from, p),
            self.reaches(from, q),
            p < q,
        ensures
            self.insn_fits(p),
            self.next(p) <= q,
            self.reaches(self.next(p), q),
        decreases p - from,
    {
        if from < p {
            self.lemma_no_boundary_inside(self.next(from), p, q);
        }
    }

    /// In a unit that can be translated, an instruction that can be decoded
    /// starts at every offset that reading from `from` arrives at, short of
    /// the end; its operand is as its opcode needs; and its jump targets are
    /// among those found from `from`.
    pub proof fn lemma_reached_insn(self, from: int, p: int)
        requires
            0 <= from,
            self.scannable_from(from),
            self.all_ok_from(from),
            self.reaches(from, p),
            p < self.size(),
        ensures
            self.insn_fits(p),
            self.insn_ok(p),
            self.scannable_from(self.next(p)),
            self.all_ok_from(self.next(p)),
            self.targets_at(p).subset_of(self.jump_targets_from(from)),
        decreases p - from,
    {
        if from < p {
            self.lemma_reached_insn(self.next(from), p);
        }
    }

    /// In a unit that can be translated, every instruction boundary short of
    /// the end starts an instruction that can be decoded, whose operand is as
    /// its opcode needs, and whose jump targets are among the unit's.
    pub proof fn lemma_boundary_insn(self, p: int)
        requires
            self.well_formed(),
            self.is_boundary(p),
            p < self.size(),
        ensures
            self.insn_fits(p),
            self.insn_ok(p),
            self.is_boundary(self.next(p)),
            self.targets_at(p).subset_of(self.jump_targets()),
    {
        self.lemma_reached_insn(0, p);
        self.lemma_reaches_next(0, p);
    }
}

impl Iseq {
    /// Whether the instruction at `pc` can be decoded.
    fn insn_fits(&self, pc: usize) -> (b: bool)
        requires
            pc < self@.size(),
        ensures
            b == self@.insn_fits(pc as int),
    {
        assert(self.insn_table.len() == self@.insn_table.len());
        assert(self.encoded.len() == self@.size());
        let word = self.encoded[pc].0;
        if word >= self.insn_table.len() as u64 {
            return false;
        }
        let len = self.insn_table[word as usize].len;
        if len < 1 || len > self.encoded.len() - pc {
            return false;
        }
        !Opcode::decode(word).has_operand() || len >= 2
    }

    /// Whether the operand of the instruction at `pc` says what its opcode
    /// needs. `boundary` tells for each offset whether an instruction starts
    /// there or the stream ends there.
    fn insn_ok(&self, pc: usize, boundary: &Vec<bool>) -> (b: bool)
        requires
            self@.size() <= u32::MAX,
            self@.insn_fits(pc as int),
            boundary@.len() == self@.size() + 1,
            forall|q: int| 0 <= q <= self@.size() ==> boundary@[q] == self@.is_boundary(q),
        ensures
            b == self@.insn_ok(pc as int),
    {
        assert(self.insn_table.len() == self@.insn_table.len());
        assert(self.encoded.len() == self@.size());
        assert(self.call_data.len() == self@.call_data.len());
        let word = self.encoded[pc].0;
        let len = self.insn_table[word as usize].len;
        match Opcode::decode(word) {
            Opcode::BranchUnless | Opcode::Jump | Opcode::BranchIf | Opcode::BranchNil => {
                let offset = self.encoded[pc + 1].as_i64();
                let destination: i128 = (pc + len) as i128 + offset as i128;
                1 <= destination && destination <= self.encoded.len() as i128
                    && boundary[destination as usize]
            },
            Opcode::GetLocal | Opcode::SetLocal => {
                let slot = self.encoded[pc + 1].0;
                slot <= u32::MAX as u64 && self.local_table_size <= i32::MAX as usize && slot
                    >= VM_ENV_DATA_SIZE as u64 && slot - (VM_ENV_DATA_SIZE as u64)
                    < self.local_table_size as u64
            },
            Opcode::OptSendWithoutBlock => self.encoded[pc + 1].0 < self.call_data.len() as u64,
            _ => true,
        }
    }

    /// For each offset up to the size of the stream, whether an instruction
    /// starts there or the stream ends there; `None` where the stream is not
    /// a run of instructions that can be decoded.
    fn boundaries(&self) -> (r: Option<Vec<bool>>)
        requires
            self@.size() <= u32::MAX,
        ensures
            r is Some <==> self@.scannable_from(0),
            r matches Some(boundary) ==> boundary@.len() == self@.size() + 1 && forall|q: int|
                0 <= q <= self@.size() ==> boundary@[q] == self@.is_boundary(q),
    {
        let size = self.encoded.len();
        let mut boundary: Vec<bool> = Vec::new();
        while boundary.len() <= size
            invariant
                size == self@.size(),
                size <= u32::MAX,
                boundary@.len() <= size + 1,
                forall|q: int| 0 <= q < boundary@.len() ==> !boundary@[q],
            decreases size + 1 - boundary.len(),
        {
            boundary.push(false);
        }
        let mut pc: usize = 0;
        while pc < size
            invariant
                size == self@.size(),
                size <= u32::MAX,
                pc <= size,
                boundary@.len() == size + 1,
                self@.is_boundary(pc as int),
                self@.scannable_from(0) == self@.scannable_from(pc as int),
                forall|q: int| 0 <= q < pc ==> boundary@[q] == self@.is_boundary(q),
                forall|q: int| pc <= q <= size ==> !boundary@[q],
            decreases size - pc,
        {
            if !self.insn_fits(pc) {
                return None;
            }
            let next = pc + self.insn_len(pc as u32);
            boundary[pc] = true;
            proof {
                self@.lemma_reaches_next(0, pc as int);
                assert forall|q: int| pc < q < next implies !self@.is_boundary(q) by {
                    if self@.is_boundary(q) {
                        self@.lemma_no_boundary_inside(0, pc as int, q);
                    }
                }
            }
            pc = next;
        }
        boundary[size] = true;
        Some(boundary)
    }

    /// Whether the stream of the unit can be read from its start to its end
    /// as a run of instructions.
    pub fn is_scannable(&self) -> (b: bool)
        ensures
            b == self@.scannable(),
    {
        assert(self.insn_table.len() == self@.insn_table.len());
        assert(self.encoded.len() == self@.size());
        if self.encoded.len() > u32::MAX as usize || self.insn_table.len() > u32::MAX as usize {
            return false;
        }
        self.boundaries().is_some()
    }

    /// Whether the unit can be translated.
    pub fn is_well_formed(&self) -> (b: bool)
        ensures
            b == self@.well_formed(),
    {
        assert(self.insn_table.len() == self@.insn_table.len());
        assert(self.encoded.len() == self@.size());
        if self.encoded.len() > u32::MAX as usize || self.insn_table.len() > u32::MAX as usize {
            return false;
        }
        let boundary = match self.boundaries() {
            Some(boundary) => boundary,
            None => {
                return false;
            },
        };
        let size = self.encoded.len();
        let mut pc: usize = 0;
        while pc < size
            invariant
                size == self@.size(),
                size <= u32::MAX,
                pc <= size,
                boundary@.len() == size + 1,
                forall|q: int| 0 <= q <= size ==> boundary@[q] == self@.is_boundary(q),
                self@.scannable_from(pc as int),
                self@.all_ok_from(0) == self@.all_ok_from(pc as int),
            decreases size - pc,
        {
            if !self.insn_ok(pc, &boundary) {
                return false;
            }
            pc = pc + self.insn_len(pc as u32);
        }
        true
    }

    /// The number of words in the stream.
    pub fn encoded_size(&self) -> (size: usize)
        ensures
            size == self@.size(),
    {
        self.encoded.len()
    }

    /// The number in the opcode word of the instruction at `pc`.
    pub fn opcode_at(&self, pc: u32) -> (opcode: u64)
        requires
            pc < self@.size(),
        ensures
            opcode == self@.opcode_at(pc as int),
    {
        self.encoded[pc as usize].0
    }

    /// The number of words that the instruction at `pc` takes.
    pub fn insn_len(&self, pc: u32) -> (len: usize)
        requires
            self@.insn_fits(pc as int),
        ensures
            len == self@.len_at(pc as int),
    {
        let opcode = self.encoded[pc as usize].0;
        assert(self.insn_table.len() == self@.insn_table.len());
        self.insn_table[opcode as usize].len
    }

    /// The name that the instruction table gives to the instruction at `pc`.
    pub fn insn_name(&self, pc: u32) -> (name: String)
        requires
            self@.insn_fits(pc as int),
        ensures
            name@ == self@.insn_table[self@.opcode_at(pc as int) as int].name,
    {
        let opcode = self.encoded[pc as usize].0;
        assert(self.insn_table.len() == self@.insn_table.len());
        self.insn_table[opcode as usize].name.clone()
    }
}

/// Get instruction argument
pub fn get_arg(iseq: &Iseq, pc: u32, arg_idx: usize) -> (arg: VALUE)
    requires
        pc + 1 + arg_idx < iseq@.size(),
    ensures
        arg == iseq@.encoded[pc + 1 + arg_idx],
{
    assert(iseq.encoded.len() == iseq@.size());
    iseq.encoded[pc as usize + 1 + arg_idx]
}

/// The number of leading positional parameters that the unit declares.
pub fn num_lead_params(iseq: &Iseq) -> (n: usize)
    ensures
        n == iseq@.param_lead_num,
{
    iseq.param_lead_num
}

/// Return the number of locals in the current ISEQ (includes parameters)
pub fn num_locals(iseq: &Iseq) -> (n: usize)
    ensures
        n == iseq@.local_table_size,
{
    iseq.local_table_size
}

} // verus!
