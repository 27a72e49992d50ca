//! The append-only buffer into which machine code is emitted.
//!
//! A block writes bytes and little-endian integers at its write position into
//! a region of fixed capacity. When the region is full a write is dropped: the
//! position stays, and a sticky flag records that the output is incomplete.

use vstd::prelude::*;
use vstd::arithmetic::power2::{lemma2_to64, lemma2_to64_rest, pow2};
use crate::virtualmem::{CodePtr, VirtualMem};

verus! {

/// A place in emitted code that refers to a label whose position is not yet
/// known. `E` is what encodes the branch once it is: a function of the code
/// block, the position of the reference and the position of the label.
#[derive(Clone)]
pub struct LabelRef<E> {
    /// Position in the code block where the reference stands.
    pub pos: usize,
    /// The label referred to.
    pub label_idx: usize,
    /// The number of bytes that the reference occupies, fixed in advance so
    /// that patching it later takes the same space.
    pub num_bytes: usize,
    /// The object that knows how to encode the branch instruction.
    pub encode: E,
}

/// What a code block is, as a mathematical value.
pub struct CodeBlockView {
    /// The bytes of the region, one per offset below its capacity.
    pub mem: Seq<u8>,
    /// The offset at which the next byte goes.
    pub write_pos: nat,
    /// Whether any write was dropped for want of space.
    pub dropped_bytes: bool,
}

impl CodeBlockView {
    /// The write position lies inside the region or at its end.
    pub open spec fn well_formed(self) -> bool {
        self.write_pos <= self.mem.len()
    }

    /// The block after an attempt to write `byte`: committed where there is
    /// room, dropped where there is none.
    pub open spec fn write_byte(self, byte: u8) -> CodeBlockView {
        if self.write_pos < self.mem.len() {
            CodeBlockView {
                mem: self.mem.update(self.write_pos as int, byte),
                write_pos: self.write_pos + 1,
                dropped_bytes: self.dropped_bytes,
            }
        } else {
            CodeBlockView { mem: self.mem, write_pos: self.write_pos, dropped_bytes: true }
        }
    }

    /// The block after attempts to write each of `bytes` in turn.
    pub open spec fn write_bytes(self, bytes: Seq<u8>) -> CodeBlockView
        decreases bytes.len(),
    {
        if bytes.len() == 0 {
            self
        } else {
            self.write_byte(bytes[0]).write_bytes(bytes.subrange(1, bytes.len() as int))
        }
    }

    /// The number of bytes that still fit.
    pub open spec fn room(self) -> nat {
        if self.write_pos <= self.mem.len() {
            (self.mem.len() - self.write_pos) as nat
        } else {
            0
        }
    }
}

/// The little-endian encoding of `val` in `n` bytes: the lowest byte first.
/// Bytes beyond the value's width are zero.
pub open spec fn le_bytes(val: nat, n: nat) -> Seq<u8>
    decreases n,
{
    if n == 0 {
        Seq::empty()
    } else {
        seq![(val % 256) as u8] + le_bytes(val / 256, (n - 1) as nat)
    }
}

/// `v` can be written as a two's complement number of `bits` bits.
pub open spec fn fits_signed(v: int, bits: nat) -> bool
    recommends
        bits > 0,
{
    -pow2((bits - 1) as nat) <= v < pow2((bits - 1) as nat)
}

/// `v` can be written as an unsigned number of `bits` bits.
pub open spec fn fits_unsigned(v: int, bits: nat) -> bool {
    0 <= v < pow2(bits)
}

/// Writing one byte after some others is writing the longer run.
pub proof fn lemma_write_bytes_push(v: CodeBlockView, bytes: Seq<u8>, byte: u8)
    ensures
        v.write_bytes(bytes.push(byte)) == v.write_bytes(bytes).write_byte(byte),
    decreases bytes.len(),
{
    if bytes.len() == 0 {
        assert(bytes.push(byte).subrange(1, 1) =~= Seq::<u8>::empty());
        assert(v.write_byte(byte).write_bytes(Seq::<u8>::empty()) == v.write_byte(byte));
    } else {
        let rest = bytes.subrange(1, bytes.len() as int);
        assert(bytes.push(byte).subrange(1, bytes.len() as int + 1) =~= rest.push(byte));
        lemma_write_bytes_push(v.write_byte(bytes[0]), rest, byte);
    }
}

/// What a run of writes comes to: the bytes that fit are committed in order
/// from the old write position, the position advances by their number and no
/// further, nothing else in the region changes, and the flag is raised exactly
/// when a byte did not fit.
pub proof fn lemma_write_bytes_effect(v: CodeBlockView, bytes: Seq<u8>)
    requires
        v.well_formed(),
    ensures
        v.write_bytes(bytes).well_formed(),
        v.write_bytes(bytes).mem.len() == v.mem.len(),
        v.write_bytes(bytes).write_pos == if bytes.len() <= v.room() {
            v.write_pos + bytes.len()
        } else {
            v.mem.len()
        },
        v.write_bytes(bytes).dropped_bytes == (v.dropped_bytes || bytes.len() > v.room()),
        forall|i: int|
            0 <= i < v.mem.len() ==> #[trigger] v.write_bytes(bytes).mem[i] == if v.write_pos <= i
                < v.write_pos + bytes.len() {
                bytes[i - v.write_pos]
            } else {
                v.mem[i]
            },
    decreases bytes.len(),
{
    if bytes.len() > 0 {
        let rest = bytes.subrange(1, bytes.len() as int);
        lemma_write_bytes_effect(v.write_byte(bytes[0]), rest);
        assert forall|i: int| 0 <= i < v.mem.len() implies #[trigger] v.write_bytes(bytes).mem[i]
            == if v.write_pos <= i < v.write_pos + bytes.len() {
            bytes[i - v.write_pos]
        } else {
            v.mem[i]
        } by {
            if v.write_pos < i < v.write_pos + bytes.len() {
                assert(rest[i - v.write_pos - 1] == bytes[i - v.write_pos]);
            }
        }
    }
}

/// Block of memory into which instructions are assembled.
#[derive(Debug)]
pub struct CodeBlock {
    // Memory for storing the encoded instructions
    mem_block: VirtualMem,
    // Current writing position
    write_pos: usize,
    // Set if the block was unable to output some bytes for want of space
    dropped_bytes: bool,
}

impl View for CodeBlock {
    type V = CodeBlockView;

    closed spec fn view(&self) -> CodeBlockView {
        CodeBlockView {
            mem: self.mem_block@,
            write_pos: self.write_pos as nat,
            dropped_bytes: self.dropped_bytes,
        }
    }
}

impl CodeBlock {
    /// A block that writes into `mem_block` from its start.
    pub fn new(mem_block: VirtualMem) -> (cb: CodeBlock)
        ensures
            cb@ == (CodeBlockView { mem: mem_block@, write_pos: 0, dropped_bytes: false }),
            cb@.well_formed(),
    {
        CodeBlock { mem_block, write_pos: 0, dropped_bytes: false }
    }

    /// The position at which the next byte goes.
    pub fn get_write_ptr(&self) -> (p: CodePtr)
        ensures
            p.0 == self@.write_pos,
    {
        self.get_ptr(self.write_pos)
    }

    /// The position `offset` bytes into the region. It need not have been
    /// written yet, nor lie inside the region.
    pub fn get_ptr(&self, offset: usize) -> (p: CodePtr)
        ensures
            p == CodePtr(offset),
    {
        self.mem_block.start_ptr().add_bytes(offset)
    }

    /// The number of bytes committed so far.
    pub fn get_write_pos(&self) -> (pos: usize)
        ensures
            pos == self@.write_pos,
    {
        self.write_pos
    }

    /// Whether any write was dropped for want of space.
    pub fn has_dropped_bytes(&self) -> (dropped: bool)
        ensures
            dropped == self@.dropped_bytes,
    {
        self.dropped_bytes
    }

    /// The region that the block writes into.
    pub fn mem_block(&self) -> (mem: &VirtualMem)
        ensures
            mem@ == self@.mem,
    {
        &self.mem_block
    }

    /// Gives the region back, for the next producer or for installation.
    pub fn into_mem_block(self) -> (mem: VirtualMem)
        ensures
            mem@ == self@.mem,
    {
        self.mem_block
    }

    /// Write a single byte at the current position.
    pub fn write_byte(&mut self, byte: u8)
        ensures
            final(self)@ == old(self)@.write_byte(byte),
            old(self)@.well_formed() ==> final(self)@.well_formed(),
    {
        let write_ptr = self.get_write_ptr();
        proof {
            self.mem_block.lemma_capacity_fits();
        }
        if self.mem_block.write_byte(write_ptr, byte).is_ok() {
            self.write_pos += 1;
        } else {
            self.dropped_bytes = true;
        }
    }

    /// Write multiple bytes starting from the current position.
    pub fn write_bytes(&mut self, bytes: &[u8])
        ensures
            final(self)@ == old(self)@.write_bytes(bytes@),
            old(self)@.well_formed() ==> final(self)@.well_formed(),
    {
        proof {
            if old(self)@.well_formed() {
                lemma_write_bytes_effect(old(self)@, bytes@);
            }
        }
        let mut i: usize = 0;
        while i < bytes.len()
            invariant
                i <= bytes.len(),
                self@ == old(self)@.write_bytes(bytes@.subrange(0, i as int)),
            decreases bytes.len() - i,
        {
            proof {
                lemma_write_bytes_push(old(self)@, bytes@.subrange(0, i as int), bytes@[i as int]);
                assert(bytes@.subrange(0, i as int).push(bytes@[i as int]) =~= bytes@.subrange(
                    0,
                    i + 1,
                ));
            }
            self.write_byte(bytes[i]);
            i += 1;
        }
        assert(bytes@.subrange(0, i as int) =~= bytes@);
    }

    /// Write an integer over the given number of bits at the current
    /// position, lowest byte first. The width is a positive multiple of 8;
    /// bytes beyond the eighth are zero.
    pub fn write_int(&mut self, val: u64, num_bits: u32)
        requires
            num_bits > 0,
            num_bits % 8 == 0,
        ensures
            final(self)@ == old(self)@.write_bytes(le_bytes(val as nat, (num_bits / 8) as nat)),
            old(self)@.well_formed() ==> final(self)@.well_formed(),
    {
        proof {
            if old(self)@.well_formed() {
                lemma_write_bytes_effect(
                    old(self)@,
                    le_bytes(val as nat, (num_bits / 8) as nat),
                );
            }
        }
        let mut cur: u64 = val;
        let n: u32 = num_bits / 8;
        let mut i: u32 = 0;
        let ghost mut written: Seq<u8> = Seq::empty();
        while i < n
            invariant
                i <= n,
                written.len() == i,
                self@ == old(self)@.write_bytes(written),
                le_bytes(val as nat, n as nat) == written + le_bytes(cur as nat, (n - i) as nat),
            decreases n - i,
        {
            let byte = (cur & 0xff) as u8;
            proof {
                assert(cur & 0xff == cur % 256) by (bit_vector);
                assert(cur >> 8 == cur / 256) by (bit_vector);
                lemma_write_bytes_push(old(self)@, written, byte);
                assert(written + le_bytes(cur as nat, (n - i) as nat) =~= written.push(byte)
                    + le_bytes((cur / 256) as nat, (n - i - 1) as nat));
                written = written.push(byte);
            }
            self.write_byte(byte);
            cur = cur >> 8;
            i += 1;
        }
        assert(written + le_bytes(cur as nat, 0) =~= written);
    }

    /// Reserved for the component that will resolve labels: notes nothing and
    /// writes nothing. The reference would stand at the current write
    /// position, take `_num_bytes` bytes, refer to label `_label_idx`, and be
    /// encoded by `_encode` once the label's position is known.
    pub fn label_ref<F: Fn(&mut CodeBlock, i64, i64)>(
        &mut self,
        _label_idx: usize,
        _num_bytes: usize,
        _encode: F,
    )
        ensures
            final(self)@ == old(self)@,
    {
    }
}

/// Compute the number of bits needed to encode a signed value: the smallest
/// of 8, 16, 32 and 64 in which it fits.
pub fn imm_num_bits(imm: i64) -> (bits: u8)
    ensures
        bits == 8 || bits == 16 || bits == 32 || bits == 64,
        fits_signed(imm as int, bits as nat),
        bits > 8 ==> !fits_signed(imm as int, (bits / 2) as nat),
{
    proof {
        lemma2_to64();
        lemma2_to64_rest();
    }
    // Compute the smallest size this immediate fits in
    if imm >= -128 && imm <= 127 {
        return 8;
    }
    if imm >= -32768 && imm <= 32767 {
        return 16;
    }
    if imm >= -2147483648 && imm <= 2147483647 {
        return 32;
    }
    return 64;
}

/// Compute the number of bits needed to encode an unsigned value: the
/// smallest of 8, 16, 32 and 64 in which it fits.
pub fn uimm_num_bits(uimm: u64) -> (bits: u8)
    ensures
        bits == 8 || bits == 16 || bits == 32 || bits == 64,
        fits_unsigned(uimm as int, bits as nat),
        bits > 8 ==> !fits_unsigned(uimm as int, (bits / 2) as nat),
{
    proof {
        lemma2_to64();
    }
    // Compute the smallest size this immediate fits in
    if uimm <= 255 {
        return 8;
    } else if uimm <= 65535 {
        return 16;
    } else if uimm <= 4294967295 {
        return 32;
    }
    return 64;
}

} // verus!
