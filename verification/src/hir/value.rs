//! Words of the host: tagged values, operands of the instruction stream.

use vstd::prelude::*;

verus! {

/// One word of the host: an operand of the instruction stream, or a tagged
/// reference to an object. A word whose lowest bit is set holds a small
/// integer in its upper 63 bits.
#[allow(non_camel_case_types)]
#[derive(Copy, Clone, PartialEq, Eq, Debug, Hash, Structural)]
pub struct VALUE(pub u64);

/// The word that stands for the host's `false`.
#[allow(non_upper_case_globals)]
pub const RUBY_Qfalse: u64 = 0;

/// The word that stands for the host's `nil`.
#[allow(non_upper_case_globals)]
pub const RUBY_Qnil: u64 = 4;

/// The word that stands for the host's `true`.
#[allow(non_upper_case_globals)]
pub const RUBY_Qtrue: u64 = 20;

/// The largest integer that a tagged word can hold.
pub const RUBY_FIXNUM_MAX: u64 = 0x3fff_ffff_ffff_ffff;

/// The number that the 64 bits of `word` stand for in two's complement.
pub open spec fn word_as_int(word: u64) -> int {
    if word < 0x8000_0000_0000_0000 {
        word as int
    } else {
        word - 0x1_0000_0000_0000_0000
    }
}

impl VALUE {
    /// Whether the word holds a small integer.
    pub open spec fn is_fixnum(self) -> bool {
        self.0 % 2 == 1
    }

    /// The small integer that a tagged word holds.
    pub open spec fn fixnum_value(self) -> int {
        (word_as_int(self.0) - 1) / 2
    }

    /// The host's `nil`.
    pub fn qnil() -> (v: VALUE)
        ensures
            v == VALUE(RUBY_Qnil),
    {
        VALUE(RUBY_Qnil)
    }

    /// The host's `true`.
    pub fn qtrue() -> (v: VALUE)
        ensures
            v == VALUE(RUBY_Qtrue),
    {
        VALUE(RUBY_Qtrue)
    }

    /// The host's `false`.
    pub fn qfalse() -> (v: VALUE)
        ensures
            v == VALUE(RUBY_Qfalse),
    {
        VALUE(RUBY_Qfalse)
    }

    /// Whether the word holds a small integer.
    pub fn fixnum_p(self) -> (b: bool)
        ensures
            b == self.is_fixnum(),
    {
        self.0 % 2 == 1
    }

    /// The small integer that the word holds.
    pub fn as_fixnum(self) -> (n: i64)
        requires
            self.is_fixnum(),
        ensures
            n == self.fixnum_value(),
    {
        (self.as_i64() - 1) / 2
    }

    /// The word read as a signed number.
    pub fn as_i64(self) -> (n: i64)
        ensures
            n == word_as_int(self.0),
    {
        if self.0 < 0x8000_0000_0000_0000 {
            self.0 as i64
        } else {
            let below: u64 = u64::MAX - self.0;
            -(below as i64) - 1
        }
    }

    /// The word read as a 32-bit number, or `None` where it does not fit.
    pub fn as_u32(self) -> (n: Option<u32>)
        ensures
            n == if self.0 <= u32::MAX {
                Some(self.0 as u32)
            } else {
                None
            },
    {
        if self.0 <= u32::MAX as u64 {
            Some(self.0 as u32)
        } else {
            None
        }
    }

    /// The word read as an index or a count, or `None` where the machine's
    /// word is too narrow for it.
    pub fn as_usize(self) -> (n: Option<usize>)
        ensures
            n == if self.0 <= usize::MAX {
                Some(self.0 as usize)
            } else {
                None
            },
    {
        if self.0 <= usize::MAX as u64 {
            Some(self.0 as usize)
        } else {
            None
        }
    }

    /// The tagged word that holds the small integer `item`.
    pub fn fixnum_from_usize(item: usize) -> (v: VALUE)
        requires
            item <= RUBY_FIXNUM_MAX,
        ensures
            v.0 == 2 * item + 1,
            v.is_fixnum(),
            v.fixnum_value() == item,
    {
        VALUE(2 * (item as u64) + 1)
    }
}

} // verus!
