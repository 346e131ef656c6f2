//! Unpacking of the 32-bit words that window messages carry.

use vstd::prelude::*;

verus! {

/// The low 16 bits of `value`.
pub open spec fn spec_loword(value: u32) -> u16 {
    (value % 0x1_0000) as u16
}

/// The high 16 bits of `value`.
pub open spec fn spec_hiword(value: u32) -> u16 {
    (value / 0x1_0000) as u16
}

/// A 16-bit word read as a two's complement number.
pub open spec fn spec_signed(word: u16) -> i16 {
    if word < 0x8000 {
        word as i16
    } else {
        (word - 0x1_0000) as i16
    }
}

/// Low word of a message parameter.
pub fn loword(value: u32) -> (word: u16)
    ensures
        word == spec_loword(value),
{
    assert(value & 0xFFFF == value % 0x1_0000) by (bit_vector);
    (value & 0xFFFF) as u16
}

/// High word of a message parameter.
pub fn hiword(value: u32) -> (word: u16)
    ensures
        word == spec_hiword(value),
{
    assert((value >> 16) & 0xFFFF == value / 0x1_0000) by (bit_vector);
    ((value >> 16) & 0xFFFF) as u16
}

/// Signed x coordinate packed in the low word.
pub fn xparam(value: u32) -> (x: i16)
    ensures
        x == spec_signed(spec_loword(value)),
{
    signed(loword(value))
}

/// Signed y coordinate packed in the high word.
pub fn yparam(value: u32) -> (y: i16)
    ensures
        y == spec_signed(spec_hiword(value)),
{
    signed(hiword(value))
}

fn signed(word: u16) -> (n: i16)
    ensures
        n == spec_signed(word),
{
    if word < 0x8000 {
        word as i16
    } else {
        let below: u16 = 0xFFFF - word;
        -1 - (below as i16)
    }
}

/// A message parameter of which the low 32 bits are read as a word pair.
pub trait Win32 {
    /// The low 32 bits of the parameter.
    spec fn spec_dword(&self) -> u32;

    /// The low 32 bits of the parameter.
    fn dword(&self) -> (d: u32)
        ensures
            d == self.spec_dword(),
    ;

    /// The low word of the parameter.
    fn loword(&self) -> (word: u16)
        ensures
            word == spec_loword(self.spec_dword()),
    {
        loword(self.dword())
    }

    /// The high word of the parameter's low 32 bits.
    fn hiword(&self) -> (word: u16)
        ensures
            word == spec_hiword(self.spec_dword()),
    {
        hiword(self.dword())
    }

    /// The signed x coordinate in the parameter.
    fn xparam(&self) -> (x: i16)
        ensures
            x == spec_signed(spec_loword(self.spec_dword())),
    {
        xparam(self.dword())
    }

    /// The signed y coordinate in the parameter.
    fn yparam(&self) -> (y: i16)
        ensures
            y == spec_signed(spec_hiword(self.spec_dword())),
    {
        yparam(self.dword())
    }
}

/// The second parameter of a window message, a signed machine word.
#[derive(Clone, Copy, Debug, PartialEq, Eq, Structural)]
pub struct LParam(pub isize);

/// The first parameter of a window message, an unsigned machine word.
#[derive(Clone, Copy, Debug, PartialEq, Eq, Structural)]
pub struct WParam(pub usize);

impl Win32 for LParam {
    open spec fn spec_dword(&self) -> u32 {
        (self.0 as int % 0x1_0000_0000) as u32
    }

    fn dword(&self) -> (d: u32) {
        let word: i64 = self.0 as i64;
        assert(word & 0xFFFF_FFFF == word as int % 0x1_0000_0000) by (bit_vector);
        (word & 0xFFFF_FFFF) as u32
    }
}

impl Win32 for WParam {
    open spec fn spec_dword(&self) -> u32 {
        (self.0 as int % 0x1_0000_0000) as u32
    }

    fn dword(&self) -> (d: u32) {
        let word: u64 = self.0 as u64;
        assert(word & 0xFFFF_FFFF == word % 0x1_0000_0000) by (bit_vector);
        (word & 0xFFFF_FFFF) as u32
    }
}

} // verus!
