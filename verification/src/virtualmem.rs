//! A region of code memory with a fixed capacity, addressed by offset.

use vstd::prelude::*;

verus! {

/// A position in a code region: the offset of a byte from the region's start.
/// An offset may lie beyond the region; writing there fails.
#[derive(Copy, Clone, PartialEq, Eq, Debug, Structural)]
pub struct CodePtr(pub usize);

impl CodePtr {
    /// The position `bytes` further on.
    pub fn add_bytes(self, bytes: usize) -> (r: CodePtr)
        requires
            self.0 + bytes <= usize::MAX,
        ensures
            r.0 == self.0 + bytes,
    {
        CodePtr(self.0 + bytes)
    }

    /// The offset of this position from the region's start.
    pub fn offset(self) -> (r: usize)
        ensures
            r == self.0,
    {
        self.0
    }
}

/// Why a write into a region did not happen.
#[derive(Copy, Clone, PartialEq, Eq, Debug, Structural)]
pub enum WriteError {
    /// The position lies outside the region.
    OutOfBounds,
}

/// A region of memory of fixed capacity that holds emitted code.
#[derive(Debug)]
pub struct VirtualMem {
    bytes: Vec<u8>,
}

impl View for VirtualMem {
    type V = Seq<u8>;

    /// The bytes of the region, one per offset below its capacity.
    closed spec fn view(&self) -> Seq<u8> {
        self.bytes@
    }
}

impl VirtualMem {
    /// A region of `capacity` bytes, all zero.
    pub fn new(capacity: usize) -> (mem: VirtualMem)
        ensures
            mem@.len() == capacity,
            forall|i: int| 0 <= i < capacity ==> mem@[i] == 0u8,
    {
        let mut bytes: Vec<u8> = Vec::new();
        while bytes.len() < capacity
            invariant
                bytes.len() <= capacity,
                forall|i: int| 0 <= i < bytes.len() ==> bytes@[i] == 0u8,
            decreases capacity - bytes.len(),
        {
            bytes.push(0u8);
        }
        VirtualMem { bytes }
    }

    /// The capacity of a region is a machine-sized number.
    pub proof fn lemma_capacity_fits(&self)
        ensures
            self@.len() <= usize::MAX,
    {
        assert(self.bytes.len() == self.bytes@.len());
    }

    /// The position of the region's first byte.
    pub fn start_ptr(&self) -> (p: CodePtr)
        ensures
            p == CodePtr(0),
    {
        CodePtr(0)
    }

    /// The number of bytes that the region can hold.
    pub fn capacity(&self) -> (n: usize)
        ensures
            n == self@.len(),
    {
        self.bytes.len()
    }

    /// Stores `byte` at `write_ptr`. A position outside the region is refused
    /// and the region stays as it was.
    pub fn write_byte(&mut self, write_ptr: CodePtr, byte: u8) -> (r: Result<(), WriteError>)
        ensures
            write_ptr.0 < old(self)@.len() ==> r is Ok && final(self)@ == old(self)@.update(
                write_ptr.0 as int,
                byte,
            ),
            write_ptr.0 >= old(self)@.len() ==> r == Err::<(), WriteError>(WriteError::OutOfBounds)
                && final(self)@ == old(self)@,
    {
        let offset = write_ptr.0;
        if offset < self.bytes.len() {
            self.bytes[offset] = byte;
            Ok(())
        } else {
            Err(WriteError::OutOfBounds)
        }
    }

    /// The byte at `ptr`, or `None` for a position outside the region.
    pub fn read_byte(&self, ptr: CodePtr) -> (r: Option<u8>)
        ensures
            r == if ptr.0 < self@.len() {
                Some(self@[ptr.0 as int])
            } else {
                None
            },
    {
        if ptr.0 < self.bytes.len() {
            Some(self.bytes[ptr.0])
        } else {
            None
        }
    }
}

} // verus!
