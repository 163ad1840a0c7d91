//! How values lie in memory: sizes, alignment and byte order.

use vstd::prelude::*;
use crate::bytecode::Int;

verus! {

/// Bytes of memory that the machine has.
pub const MEMORY_SIZE: usize = 4096;

/// The low byte of a word's two's-complement pattern.
pub open spec fn low_byte(n: Int) -> u8 {
    ((n as int) % 256) as u8
}

/// The high byte of a word's two's-complement pattern.
pub open spec fn high_byte(n: Int) -> u8 {
    (((n as int) / 256) % 256) as u8
}

/// The word whose two's-complement pattern has the bytes `lo` and `hi`.
pub open spec fn word_of(lo: u8, hi: u8) -> Int {
    if hi < 128 {
        (lo + 256 * hi) as Int
    } else {
        (lo + 256 * hi - 65536) as Int
    }
}

/// `mem` with `data` written over it from position `at` on.
pub open spec fn overwrite(mem: Seq<u8>, at: int, data: Seq<u8>) -> Seq<u8> {
    Seq::new(
        mem.len(),
        |i: int|
            if at <= i < at + data.len() {
                data[i - at]
            } else {
                mem[i]
            },
    )
}

/// A word is the word of its two bytes, and two bytes are the bytes of
/// their word.
pub proof fn lemma_word_bytes(n: Int, lo: u8, hi: u8)
    ensures
        word_of(low_byte(n), high_byte(n)) == n,
        low_byte(word_of(lo, hi)) == lo,
        high_byte(word_of(lo, hi)) == hi,
{
}

pub fn split_word(n: Int) -> (b: (u8, u8))
    ensures
        b.0 == low_byte(n),
        b.1 == high_byte(n),
{
    let u: u32 = if n >= 0 {
        n as u32
    } else {
        (n as i32 + 65536) as u32
    };
    ((u % 256) as u8, (u / 256) as u8)
}

pub fn join_word(lo: u8, hi: u8) -> (n: Int)
    ensures
        n == word_of(lo, hi),
{
    let u: i32 = lo as i32 + 256 * (hi as i32);
    if hi < 128 {
        u as Int
    } else {
        (u - 65536) as Int
    }
}

/// A type whose values can be kept in the machine's memory.
pub trait Storable: Sized {
    /// Bytes that a value occupies.
    spec fn width() -> nat;

    /// What the address of a value must be a multiple of.
    spec fn alignment() -> nat;

    /// The bytes that stand for the value.
    spec fn encoding(&self) -> Seq<u8>;

    /// The value that `bytes` stand for, if they stand for one.
    spec fn decoding(bytes: Seq<u8>) -> Option<Self>;

    /// A value fits in memory and its alignment is a positive word.
    proof fn lemma_layout()
        ensures
            0 < Self::width() <= MEMORY_SIZE,
            0 < Self::alignment() <= MEMORY_SIZE,
    ;

    /// A value has as many bytes as its type says, and they stand for it.
    proof fn lemma_roundtrip(&self)
        ensures
            self.encoding().len() == Self::width(),
            Self::decoding(self.encoding()) == Some(*self),
    ;

    fn size() -> (n: usize)
        ensures
            n == Self::width(),
    ;

    fn align() -> (n: usize)
        ensures
            n == Self::alignment(),
    ;

    /// Writes the value's bytes into `buf` from position `at` on.
    fn write_to(&self, buf: &mut [u8], at: usize)
        requires
            at + Self::width() <= old(buf)@.len(),
        ensures
            final(buf)@ == overwrite(old(buf)@, at as int, self.encoding()),
    ;

    /// Reads the value whose bytes start at position `at` of `buf`.
    fn read_from(buf: &[u8], at: usize) -> (r: Option<Self>)
        requires
            at + Self::width() <= buf@.len(),
        ensures
            r == Self::decoding(buf@.subrange(at as int, at + Self::width())),
    ;
}

impl Storable for u8 {
    open spec fn width() -> nat {
        1
    }

    open spec fn alignment() -> nat {
        1
    }

    open spec fn encoding(&self) -> Seq<u8> {
        seq![*self]
    }

    open spec fn decoding(bytes: Seq<u8>) -> Option<u8> {
        Some(bytes[0])
    }

    proof fn lemma_layout() {
    }

    proof fn lemma_roundtrip(&self) {
    }

    fn size() -> (n: usize) {
        1
    }

    fn align() -> (n: usize) {
        1
    }

    fn write_to(&self, buf: &mut [u8], at: usize) {
        buf[at] = *self;
        assert(buf@ =~= overwrite(old(buf)@, at as int, self.encoding()));
    }

    fn read_from(buf: &[u8], at: usize) -> (r: Option<u8>) {
        Some(buf[at])
    }
}

impl Storable for Int {
    open spec fn width() -> nat {
        2
    }

    open spec fn alignment() -> nat {
        2
    }

    open spec fn encoding(&self) -> Seq<u8> {
        seq![low_byte(*self), high_byte(*self)]
    }

    open spec fn decoding(bytes: Seq<u8>) -> Option<Int> {
        Some(word_of(bytes[0], bytes[1]))
    }

    proof fn lemma_layout() {
    }

    proof fn lemma_roundtrip(&self) {
    }

    fn size() -> (n: usize) {
        2
    }

    fn align() -> (n: usize) {
        2
    }

    fn write_to(&self, buf: &mut [u8], at: usize) {
        let (lo, hi) = split_word(*self);
        buf[at] = lo;
        buf[at + 1] = hi;
        assert(buf@ =~= overwrite(old(buf)@, at as int, self.encoding()));
    }

    fn read_from(buf: &[u8], at: usize) -> (r: Option<Int>) {
        Some(join_word(buf[at], buf[at + 1]))
    }
}

} // verus!
