//! Capabilities: bounded, permissioned, sealable pointers with a validity
//! tag that lives outside their bytes.

use vstd::prelude::*;
use vstd::std_specs::convert::FromSpecImpl;
use std::ops::Range;
use crate::bytecode::Int;
use crate::layout::{high_byte, join_word, low_byte, overwrite, split_word, word_of, Storable};
use crate::text::push_char;

verus! {

/// Bytes of memory that one validity tag stands for.
pub const CAP_SIZE: usize = 16;

/// What a capability allows: reading, writing, fetching instructions.
#[derive(Debug, Clone, Copy, PartialEq, Eq, Structural)]
pub struct Permissions {
    pub read: bool,
    pub write: bool,
    pub execute: bool,
}

impl Permissions {
    pub fn rwx(read: bool, write: bool, execute: bool) -> (p: Self)
        ensures
            p == (Permissions { read, write, execute }),
    {
        Self { read, write, execute }
    }

    /// The byte that holds the permissions: read in bit 0, write in bit 1,
    /// execute in bit 2.
    pub open spec fn bits(self) -> u8 {
        ((if self.read { 1int } else { 0 }) + (if self.write { 2int } else { 0 }) + (if self.execute { 4int } else { 0 })) as u8
    }

    /// The permissions that the low three bits of `b` hold.
    pub open spec fn of_bits(b: u8) -> Permissions {
        Permissions { read: b % 2 == 1, write: (b / 2) % 2 == 1, execute: (b / 4) % 2 == 1 }
    }

    /// Three characters: `r`, `w` and `x` in this order, each replaced by
    /// `-` where the permission is missing.
    pub open spec fn text(self) -> Seq<char> {
        seq![
            if self.read { 'r' } else { '-' },
            if self.write { 'w' } else { '-' },
            if self.execute { 'x' } else { '-' },
        ]
    }

    pub fn to_text(&self) -> (s: String)
        ensures
            s@ == self.text(),
    {
        let mut s = String::new();
        push_char(&mut s, if self.read { 'r' } else { '-' });
        push_char(&mut s, if self.write { 'w' } else { '-' });
        push_char(&mut s, if self.execute { 'x' } else { '-' });
        assert(s@ =~= self.text());
        s
    }
}

impl From<Permissions> for u8 {
    fn from(value: Permissions) -> (b: u8) {
        let r: u8 = if value.read { 1 } else { 0 };
        let w: u8 = if value.write { 2 } else { 0 };
        let x: u8 = if value.execute { 4 } else { 0 };
        r + w + x
    }
}

impl FromSpecImpl<Permissions> for u8 {
    open spec fn obeys_from_spec() -> bool {
        true
    }

    open spec fn from_spec(value: Permissions) -> u8 {
        value.bits()
    }
}

impl From<u8> for Permissions {
    fn from(value: u8) -> (p: Permissions) {
        Self { read: value % 2 == 1, write: (value / 2) % 2 == 1, execute: (value / 4) % 2 == 1 }
    }
}

impl FromSpecImpl<u8> for Permissions {
    open spec fn obeys_from_spec() -> bool {
        true
    }

    open spec fn from_spec(value: u8) -> Permissions {
        Permissions::of_bits(value)
    }
}

/// The permissions read back from their byte are the permissions.
pub proof fn lemma_permissions_roundtrip(p: Permissions)
    ensures
        Permissions::of_bits(p.bits()) == p,
        p.bits() < 8,
{
}

/// The name of a seal: any byte but zero.
#[derive(Debug, Clone, Copy, PartialEq, Eq)]
pub struct SealId {
    id: u8,
}

impl SealId {
    #[verifier::type_invariant]
    spec fn is_nonzero(self) -> bool {
        self.id != 0
    }

    /// The byte that names the seal.
    pub closed spec fn value(self) -> u8 {
        self.id
    }

    /// The seal named by `id`, unless `id` is zero.
    pub fn new(id: u8) -> (s: Option<SealId>)
        ensures
            match s {
                Some(k) => id != 0 && k.value() == id,
                None => id == 0,
            },
    {
        if id == 0 {
            None
        } else {
            Some(SealId { id })
        }
    }

    pub fn get(self) -> (id: u8)
        ensures
            id == self.value(),
            id != 0,
    {
        proof {
            use_type_invariant(&self);
        }
        self.id
    }

    /// Two seal names with the same byte are the same name.
    pub proof fn lemma_same_value(a: SealId, b: SealId)
        requires
            a.value() == b.value(),
        ensures
            a == b,
    {
    }
}

/// Whether a capability is sealed, and under which name.
#[derive(Debug, Clone, Copy, PartialEq, Eq)]
pub enum Seal {
    Sealed(SealId),
    Unsealed,
}

impl Seal {
    /// A sealed capability's name is not zero.
    pub open spec fn wf(self) -> bool {
        self matches Seal::Sealed(k) ==> k.value() != 0
    }

    /// The byte that holds the seal: the name of the seal, or zero for
    /// `Unsealed`.
    pub open spec fn byte(self) -> u8 {
        match self {
            Seal::Sealed(k) => k.value(),
            Seal::Unsealed => 0,
        }
    }

    /// The seal that the byte `b` holds.
    pub closed spec fn of_byte(b: u8) -> Seal {
        if b == 0 {
            Seal::Unsealed
        } else {
            Seal::Sealed(SealId { id: b })
        }
    }

    /// The byte of the seal that a byte holds is that byte, and a
    /// well-formed seal is the seal that its byte holds.
    pub proof fn lemma_byte_roundtrip(b: u8, s: Seal)
        ensures
            Seal::of_byte(b).byte() == b,
            Seal::of_byte(b).wf(),
            Seal::of_byte(b) is Unsealed <==> b == 0,
            s.wf() ==> Seal::of_byte(s.byte()) == s,
    {
    }
}

impl From<Seal> for u8 {
    fn from(value: Seal) -> (b: u8) {
        match value {
            Seal::Sealed(n) => n.get(),
            Seal::Unsealed => 0,
        }
    }
}

impl FromSpecImpl<Seal> for u8 {
    open spec fn obeys_from_spec() -> bool {
        true
    }

    open spec fn from_spec(value: Seal) -> u8 {
        value.byte()
    }
}

impl From<u8> for Seal {
    fn from(value: u8) -> (s: Seal) {
        match SealId::new(value) {
            Some(n) => Seal::Sealed(n),
            None => Seal::Unsealed,
        }
    }
}

impl FromSpecImpl<u8> for Seal {
    open spec fn obeys_from_spec() -> bool {
        true
    }

    open spec fn from_spec(value: u8) -> Seal {
        Seal::of_byte(value)
    }
}

/// The fields of a capability that lie in memory: where it points, the
/// half-open range it may reach, and a word that packs its permissions
/// (low byte) and its seal (high byte).
#[derive(Debug, Clone, Copy, PartialEq, Eq, Structural)]
pub struct Inner {
    ptr: Int,
    start: Int,
    end: Int,
    meta: Int,
}

impl Inner {
    pub closed spec fn spec_ptr(&self) -> Int {
        self.ptr
    }

    pub closed spec fn spec_bounds(&self) -> Range<Int> {
        self.start..self.end
    }

    /// The word that packs permissions and seal.
    pub closed spec fn meta(&self) -> Int {
        self.meta
    }

    pub open spec fn spec_perms(&self) -> Permissions {
        Permissions::of_bits(low_byte(self.meta()))
    }

    pub open spec fn spec_seal(&self) -> Seal {
        Seal::of_byte(high_byte(self.meta()))
    }

    pub open spec fn spec_in_range(&self) -> bool {
        self.bounds().start <= self.ptr() < self.bounds().end
    }

    /// The word that packs `perms` and `seal`.
    pub open spec fn pack(perms: Permissions, seal: Seal) -> Int {
        word_of(perms.bits(), seal.byte())
    }

    /// A capability's fields are its pointer, its bounds and its packed
    /// word: two that agree on these are equal.
    pub proof fn lemma_same_fields(a: Inner, b: Inner)
        requires
            a.ptr() == b.ptr(),
            a.bounds() == b.bounds(),
            a.meta() == b.meta(),
        ensures
            a == b,
    {
    }

    pub fn new(ptr: Int, bounds: Range<Int>, perms: Permissions, seal: Seal) -> (c: Self)
        ensures
            c == Inner::of_words(ptr, bounds.start, bounds.end, Inner::pack(perms, seal)),
            c.ptr() == ptr,
            c.bounds() == bounds,
            c.meta() == Inner::pack(perms, seal),
            c.perms() == perms,
            c.seal() == seal,
    {
        proof {
            match seal {
                Seal::Sealed(k) => {
                    use_type_invariant(&k);
                },
                Seal::Unsealed => {},
            }
        }
        let p: u8 = u8::from(perms);
        let s: u8 = u8::from(seal);
        let meta: Int = join_word(p, s);
        Self { ptr, start: bounds.start, end: bounds.end, meta }
    }

    #[verifier::when_used_as_spec(spec_perms)]
    pub fn perms(&self) -> (p: Permissions)
        ensures
            p == self.spec_perms(),
    {
        Permissions::from(split_word(self.meta).0)
    }

    #[verifier::when_used_as_spec(spec_seal)]
    pub fn seal(&self) -> (s: Seal)
        ensures
            s == self.spec_seal(),
            s.wf(),
    {
        Seal::from(split_word(self.meta).1)
    }

    #[verifier::when_used_as_spec(spec_bounds)]
    pub fn bounds(&self) -> (b: Range<Int>)
        ensures
            b == self.spec_bounds(),
    {
        self.start..self.end
    }

    #[verifier::when_used_as_spec(spec_ptr)]
    pub fn ptr(&self) -> (p: Int)
        ensures
            p == self.spec_ptr(),
    {
        self.ptr
    }

    /// Whether the pointer lies inside the bounds.
    #[verifier::when_used_as_spec(spec_in_range)]
    pub fn in_range(&self) -> (b: bool)
        ensures
            b == self.spec_in_range(),
    {
        self.start <= self.ptr && self.ptr < self.end
    }
}

impl Inner {
    /// The capability made of four words as they lie in memory.
    pub closed spec fn of_words(ptr: Int, start: Int, end: Int, meta: Int) -> Inner {
        Inner { ptr, start, end, meta }
    }

    /// The capability made of four words has them as its fields.
    pub proof fn lemma_of_words(ptr: Int, start: Int, end: Int, meta: Int)
        ensures
            Inner::of_words(ptr, start, end, meta).ptr() == ptr,
            Inner::of_words(ptr, start, end, meta).bounds() == (start..end),
            Inner::of_words(ptr, start, end, meta).meta() == meta,
    {
    }
}

impl Storable for Inner {
    open spec fn width() -> nat {
        8
    }

    open spec fn alignment() -> nat {
        4
    }

    /// Pointer, start, end and packed word, each low byte first.
    open spec fn encoding(&self) -> Seq<u8> {
        seq![
            low_byte(self.ptr()),
            high_byte(self.ptr()),
            low_byte(self.bounds().start),
            high_byte(self.bounds().start),
            low_byte(self.bounds().end),
            high_byte(self.bounds().end),
            low_byte(self.meta()),
            high_byte(self.meta()),
        ]
    }

    open spec fn decoding(bytes: Seq<u8>) -> Option<Inner> {
        Some(
            Inner::of_words(
                word_of(bytes[0], bytes[1]),
                word_of(bytes[2], bytes[3]),
                word_of(bytes[4], bytes[5]),
                word_of(bytes[6], bytes[7]),
            ),
        )
    }

    proof fn lemma_layout() {
    }

    proof fn lemma_roundtrip(&self) {
    }

    fn size() -> (n: usize) {
        8
    }

    fn align() -> (n: usize) {
        4
    }

    fn write_to(&self, buf: &mut [u8], at: usize) {
        proof {
            vstd::slice::axiom_spec_len(buf);
        }
        self.ptr.write_to(buf, at);
        self.start.write_to(buf, at + 2);
        self.end.write_to(buf, at + 4);
        self.meta.write_to(buf, at + 6);
        assert(buf@ =~= overwrite(old(buf)@, at as int, self.encoding()));
    }

    fn read_from(buf: &[u8], at: usize) -> (r: Option<Inner>) {
        let ptr = join_word(buf[at], buf[at + 1]);
        let start = join_word(buf[at + 2], buf[at + 3]);
        let end = join_word(buf[at + 4], buf[at + 5]);
        let meta = join_word(buf[at + 6], buf[at + 7]);
        Some(Inner { ptr, start, end, meta })
    }
}

impl Default for Inner {
    /// The null capability: it points at zero, reaches nothing, allows
    /// nothing and is unsealed.
    fn default() -> (c: Self)
        ensures
            c == Inner::of_words(0, 0, 0, 0),
            c.ptr() == 0,
            c.bounds() == (0i16..0i16),
            c.meta() == 0,
            c.perms() == (Permissions { read: false, write: false, execute: false }),
            c.seal() == Seal::Unsealed,
    {
        Self::new(0, 0..0, Permissions::rwx(false, false, false), Seal::Unsealed)
    }
}

/// A capability as a register holds it: its fields and its validity tag.
/// Two capabilities with the same fields and different tags are different.
#[derive(Debug, Clone, Copy, PartialEq, Eq, Structural)]
pub struct Capability {
    pub inner: Inner,
    pub valid: bool,
}

impl Default for Capability {
    /// The null capability, not valid.
    fn default() -> (c: Self)
        ensures
            c == (Capability { inner: Inner::of_words(0, 0, 0, 0), valid: false }),
    {
        Capability { inner: Inner::default(), valid: false }
    }
}

} // verus!
