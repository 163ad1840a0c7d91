//! Tagged memory: a fixed array of bytes, and one validity tag for every
//! aligned run of `CAP_SIZE` bytes. Every access goes through a capability
//! and is checked against it; every write clears the tags of the slots it
//! touches, so that only a capability store can leave a tag set.

use vstd::prelude::*;
use crate::bytecode::{Instruction, Int};
use crate::capability::{Capability, Inner, Permissions, CAP_SIZE};
use crate::layout::{overwrite, Storable, MEMORY_SIZE};

verus! {

/// Number of validity tags: one for each slot of `CAP_SIZE` bytes.
pub const TAG_COUNT: usize = 256;

/// The kind of access that a capability is asked to allow.
#[derive(Debug, Clone, Copy, PartialEq, Eq, Structural)]
pub enum Access {
    Read,
    Write,
    Execute,
}

/// Why an access was refused.
#[derive(Debug, Clone, Copy, PartialEq, Eq, Structural)]
pub enum RuntimeError {
    /// The address is not a multiple of the alignment of what is accessed.
    UnalignedAccess { addr: Int, align: Int },
    /// The bytes accessed do not all lie inside the capability's bounds and
    /// inside memory.
    OutOfBoundsAccess(Capability),
    /// The capability's validity tag is not set.
    InvalidCapability(Capability),
    /// The capability lacks the permission that the access needs.
    InsufficientPermissions(Capability),
    /// The bytes at the address stand for no value of the type that was
    /// asked for.
    IllegalEncoding { addr: Int },
}

/// Whether permissions `p` allow an access of the kind `access`.
pub open spec fn permits(p: Permissions, access: Access) -> bool {
    match access {
        Access::Read => p.read,
        Access::Write => p.write,
        Access::Execute => p.execute,
    }
}

/// The address that `offset` names through `cap`.
pub open spec fn effective_address(cap: Capability, offset: Int) -> int {
    cap.inner.ptr() + offset
}

/// Whether the `width` bytes from address `a` on lie inside the bounds of
/// `cap` and inside memory.
pub open spec fn within(cap: Capability, a: int, width: nat) -> bool {
    &&& cap.inner.bounds().start <= a
    &&& a + width <= cap.inner.bounds().end
    &&& 0 <= a
    &&& a + width <= MEMORY_SIZE
}

/// The checks that every access makes, in their order: the capability is
/// valid, it has the permission, the bytes lie within its bounds and within
/// memory, the address is aligned. Gives the address where all of them
/// pass, and the first failure otherwise.
pub open spec fn checked_address(
    cap: Capability,
    offset: Int,
    width: nat,
    align: nat,
    access: Access,
) -> Result<int, RuntimeError> {
    let a = effective_address(cap, offset);
    if !cap.valid {
        Err(RuntimeError::InvalidCapability(cap))
    } else if !permits(cap.inner.perms(), access) {
        Err(RuntimeError::InsufficientPermissions(cap))
    } else if !within(cap, a, width) {
        Err(RuntimeError::OutOfBoundsAccess(cap))
    } else if a % (align as int) != 0 {
        Err(RuntimeError::UnalignedAccess { addr: a as Int, align: align as Int })
    } else {
        Ok(a)
    }
}

/// The bytes of a sequence of values, one value after the other.
pub open spec fn encode_all<T: Storable>(items: Seq<T>) -> Seq<u8>
    decreases items.len(),
{
    if items.len() == 0 {
        Seq::empty()
    } else {
        encode_all(items.drop_last()) + items.last().encoding()
    }
}

/// Whether a write of `size` bytes at address `a` clears the tag of `slot`:
/// it clears the slots from that of its first byte to that of its last, and
/// none if it writes nothing.
pub open spec fn clears(a: int, size: nat, slot: int) -> bool {
    size > 0 && a / (CAP_SIZE as int) <= slot <= (a + size - 1) / (CAP_SIZE as int)
}

/// What a memory holds: its bytes and its validity tags.
pub struct MemoryView {
    pub bytes: Seq<u8>,
    pub tags: Seq<bool>,
}

impl MemoryView {
    /// There are `MEMORY_SIZE` bytes and `TAG_COUNT` tags.
    pub open spec fn wf(self) -> bool {
        self.bytes.len() == MEMORY_SIZE && self.tags.len() == TAG_COUNT
    }

    /// The memory after `data` was written at address `a`: the bytes are
    /// replaced and the tags of the slots touched are cleared.
    pub open spec fn written(self, a: int, data: Seq<u8>) -> MemoryView {
        MemoryView {
            bytes: overwrite(self.bytes, a, data),
            tags: Seq::new(self.tags.len(), |i: int| self.tags[i] && !clears(a, data.len(), i)),
        }
    }

    /// The value of type `T` found through `cap` at `offset` by an access
    /// of the kind `access`.
    pub open spec fn read<T: Storable>(self, cap: Capability, offset: Int, access: Access) -> Result<
        T,
        RuntimeError,
    > {
        match checked_address(cap, offset, T::width(), T::alignment(), access) {
            Err(e) => Err(e),
            Ok(a) => match T::decoding(self.bytes.subrange(a, a + T::width())) {
                Some(v) => Ok(v),
                None => Err(RuntimeError::IllegalEncoding { addr: a as Int }),
            },
        }
    }

    /// What a load of a `T` through `cap` at `offset` gives.
    pub open spec fn load<T: Storable>(self, cap: Capability, offset: Int) -> Result<
        T,
        RuntimeError,
    > {
        self.read::<T>(cap, offset, Access::Read)
    }

    /// What a fetch through `cap` at `offset` gives.
    pub open spec fn fetch(self, cap: Capability, offset: Int) -> Result<Instruction, RuntimeError> {
        self.read::<Instruction>(cap, offset, Access::Execute)
    }

    /// The memory after `data` was stored through `cap` at `offset`, or why
    /// the store is refused.
    pub open spec fn store<T: Storable>(self, cap: Capability, offset: Int, data: T) -> Result<
        MemoryView,
        RuntimeError,
    > {
        match checked_address(cap, offset, T::width(), T::alignment(), Access::Write) {
            Err(e) => Err(e),
            Ok(a) => Ok(self.written(a, data.encoding())),
        }
    }

    /// The memory after the items of `data` were stored one after the other
    /// through `cap` from `offset` on, or why the store is refused.
    pub open spec fn store_slice<T: Storable>(
        self,
        cap: Capability,
        offset: Int,
        data: Seq<T>,
    ) -> Result<MemoryView, RuntimeError> {
        match checked_address(
            cap,
            offset,
            data.len() * T::width(),
            T::alignment(),
            Access::Write,
        ) {
            Err(e) => Err(e),
            Ok(a) => Ok(self.written(a, encode_all(data))),
        }
    }

    /// The capability found at `offset`: its fields are read from the
    /// bytes, its validity from the tag of the slot that its address lies
    /// in.
    pub open spec fn load_cap(self, cap: Capability, offset: Int) -> Result<
        Capability,
        RuntimeError,
    > {
        match self.read::<Inner>(cap, offset, Access::Read) {
            Err(e) => Err(e),
            Ok(inner) => Ok(
                Capability {
                    inner,
                    valid: self.tags[effective_address(cap, offset) / (CAP_SIZE as int)],
                },
            ),
        }
    }

    /// The memory after the capability `data` was stored at `offset`: its
    /// fields are written like any bytes, then the tag of the slot that its
    /// address lies in is set to its validity.
    pub open spec fn store_cap(self, cap: Capability, offset: Int, data: Capability) -> Result<
        MemoryView,
        RuntimeError,
    > {
        match self.store::<Inner>(cap, offset, data.inner) {
            Err(e) => Err(e),
            Ok(m) => Ok(
                MemoryView {
                    bytes: m.bytes,
                    tags: m.tags.update(
                        effective_address(cap, offset) / (CAP_SIZE as int),
                        data.valid,
                    ),
                },
            ),
        }
    }
}

/// Whether bit `k` of `byte` is set.
pub open spec fn bit_of(byte: u8, k: u8) -> bool {
    byte & (1u8 << k) != 0
}

/// Setting or clearing bit `k` of a byte changes that bit and no other,
/// and the zero byte has no bit set.
proof fn lemma_bit_set(byte: u8, k: u8, j: u8)
    requires
        k < 8,
        j < 8,
    ensures
        bit_of(byte | (1u8 << k), j) == (j == k || bit_of(byte, j)),
        bit_of(byte & !(1u8 << k), j) == (j != k && bit_of(byte, j)),
        !bit_of(0u8, j),
{
    assert((byte | (1u8 << k)) & (1u8 << j) != 0 <==> (j == k || byte & (1u8 << j) != 0))
        by (bit_vector)
        requires
            k < 8,
            j < 8,
    ;
    assert((byte & !(1u8 << k)) & (1u8 << j) != 0 <==> (j != k && byte & (1u8 << j) != 0))
        by (bit_vector)
        requires
            k < 8,
            j < 8,
    ;
    assert(0u8 & (1u8 << j) == 0) by (bit_vector);
}

/// The machine's memory.
pub struct Memory {
    mem: [u8; MEMORY_SIZE],
    /// One bit for each tag, eight tags to a byte, the lowest bit first.
    cap_tags: [u8; 32],
}

impl View for Memory {
    type V = MemoryView;

    closed spec fn view(&self) -> MemoryView {
        MemoryView {
            bytes: self.mem@,
            tags: Seq::new(
                TAG_COUNT as nat,
                |i: int| bit_of(self.cap_tags@[i / 8], (i % 8) as u8),
            ),
        }
    }
}

/// The checks of an access; gives the address where they all pass.
fn check_access(cap: Capability, offset: Int, width: usize, align: usize, access: Access) -> (r:
    Result<usize, RuntimeError>)
    requires
        width <= MEMORY_SIZE * MEMORY_SIZE,
        0 < align <= MEMORY_SIZE,
    ensures
        match checked_address(cap, offset, width as nat, align as nat, access) {
            Ok(a) => r == Ok::<usize, RuntimeError>(a as usize) && 0 <= a && a + width
                <= MEMORY_SIZE,
            Err(e) => r == Err::<usize, RuntimeError>(e),
        },
{
    if !cap.valid {
        return Err(RuntimeError::InvalidCapability(cap));
    }
    let perms = cap.inner.perms();
    let allowed = match access {
        Access::Read => perms.read,
        Access::Write => perms.write,
        Access::Execute => perms.execute,
    };
    if !allowed {
        return Err(RuntimeError::InsufficientPermissions(cap));
    }
    let bounds = cap.inner.bounds();
    let a: i64 = cap.inner.ptr() as i64 + offset as i64;
    let end: i64 = a + width as i64;
    if !(bounds.start as i64 <= a && end <= bounds.end as i64 && 0 <= a && end
        <= MEMORY_SIZE as i64) {
        return Err(RuntimeError::OutOfBoundsAccess(cap));
    }
    let addr = a as usize;
    if addr % align != 0 {
        return Err(RuntimeError::UnalignedAccess { addr: a as Int, align: align as Int });
    }
    Ok(addr)
}

impl Memory {
    /// A memory always has `MEMORY_SIZE` bytes and `TAG_COUNT` tags.
    pub proof fn lemma_wf(&self)
        ensures
            self@.wf(),
    {
    }

    /// The validity tag of slot `idx`.
    pub fn get_cap_tag(&self, idx: usize) -> (valid: bool)
        requires
            idx < TAG_COUNT,
        ensures
            valid == self@.tags[idx as int],
    {
        self.cap_tags[idx / 8] & (1u8 << (idx % 8) as u8) != 0
    }

    /// Sets the validity tag of slot `idx`.
    fn set_cap_tag(&mut self, idx: usize, valid: bool)
        requires
            idx < TAG_COUNT,
        ensures
            final(self)@.bytes == old(self)@.bytes,
            final(self)@.tags == old(self)@.tags.update(idx as int, valid),
    {
        let k: u8 = (idx % 8) as u8;
        let byte = self.cap_tags[idx / 8];
        if valid {
            self.cap_tags[idx / 8] = byte | (1u8 << k);
        } else {
            self.cap_tags[idx / 8] = byte & !(1u8 << k);
        }
        proof {
            assert forall|i: int| 0 <= i < TAG_COUNT implies #[trigger] self@.tags[i] == old(
                self,
            )@.tags.update(idx as int, valid)[i] by {
                if i / 8 == idx / 8 {
                    lemma_bit_set(byte, k, (i % 8) as u8);
                }
            }
            assert(self@.tags =~= old(self)@.tags.update(idx as int, valid));
        }
    }

    /// Clears the tag of every slot that a write of `size` bytes at `addr`
    /// touches.
    fn invalidate_range(&mut self, addr: usize, size: usize)
        requires
            addr + size <= MEMORY_SIZE,
        ensures
            final(self)@.bytes == old(self)@.bytes,
            final(self)@.tags == Seq::new(
                TAG_COUNT as nat,
                |i: int| old(self)@.tags[i] && !clears(addr as int, size as nat, i),
            ),
    {
        if size == 0 {
            assert(self@.tags =~= Seq::new(
                TAG_COUNT as nat,
                |i: int| old(self)@.tags[i] && !clears(addr as int, size as nat, i),
            ));
            return ;
        }
        let start = addr / CAP_SIZE;
        let end = (addr + size - 1) / CAP_SIZE;
        let mut i = start;
        while i <= end
            invariant
                start <= i <= end + 1,
                end < TAG_COUNT,
                self@.bytes == old(self)@.bytes,
                self@.tags == Seq::new(
                    TAG_COUNT as nat,
                    |j: int| old(self)@.tags[j] && !(start <= j < i),
                ),
            decreases end + 1 - i,
        {
            self.set_cap_tag(i, false);
            i += 1;
            assert(self@.tags =~= Seq::new(
                TAG_COUNT as nat,
                |j: int| old(self)@.tags[j] && !(start <= j < i),
            ));
        }
        assert(self@.tags =~= Seq::new(
            TAG_COUNT as nat,
            |i: int| old(self)@.tags[i] && !clears(addr as int, size as nat, i),
        ));
    }

    /// Reads the value of type `T` at `offset`. Needs the permission to
    /// read.
    pub fn load<T: Storable>(&self, cap: Capability, offset: Int) -> (r: Result<T, RuntimeError>)
        ensures
            r == self@.load::<T>(cap, offset),
    {
        self.read(cap, offset, Access::Read)
    }

    /// Reads the instruction at `offset`. Needs the permission to execute.
    pub fn fetch(&self, cap: Capability, offset: Int) -> (r: Result<Instruction, RuntimeError>)
        ensures
            r == self@.fetch(cap, offset),
    {
        self.read(cap, offset, Access::Execute)
    }

    /// Writes `data` at `offset` and clears the tag of every slot that the
    /// write touches. Needs the permission to write. A store that is
    /// refused changes nothing.
    pub fn store<T: Storable>(&mut self, cap: Capability, offset: Int, data: T) -> (r: Result<
        (),
        RuntimeError,
    >)
        ensures
            match old(self)@.store::<T>(cap, offset, data) {
                Ok(m) => r is Ok && final(self)@ == m,
                Err(e) => r == Err::<(), RuntimeError>(e) && final(self)@ == old(self)@,
            },
    {
        proof {
            T::lemma_layout();
            data.lemma_roundtrip();
        }
        match check_access(cap, offset, T::size(), T::align(), Access::Write) {
            Err(e) => Err(e),
            Ok(a) => {
                self.invalidate_range(a, T::size());
                data.write_to(&mut self.mem, a);
                proof {
                    let m = old(self)@.written(a as int, data.encoding());
                    assert(self@.bytes =~= m.bytes);
                    assert(self@.tags =~= m.tags);
                }
                Ok(())
            },
        }
    }

    /// Writes the items of `data` one after the other, the first at
    /// `offset`.
    pub fn store_slice<T: Storable>(&mut self, cap: Capability, offset: Int, data: &[T]) -> (r:
        Result<(), RuntimeError>)
        ensures
            match old(self)@.store_slice::<T>(cap, offset, data@) {
                Ok(m) => r is Ok && final(self)@ == m,
                Err(e) => r == Err::<(), RuntimeError>(e) && final(self)@ == old(self)@,
            },
    {
        proof {
            T::lemma_layout();
            lemma_encode_all_len::<T>(data@, data@.len() as int);
            assert(data@.take(data@.len() as int) =~= data@);
        }
        let n = data.len();
        let w = T::size();
        let total = if n > MEMORY_SIZE {
            assert(n * w > MEMORY_SIZE) by (nonlinear_arith)
                requires
                    n > MEMORY_SIZE,
                    w >= 1,
            ;
            MEMORY_SIZE + 1
        } else {
            assert(n * w <= MEMORY_SIZE * MEMORY_SIZE) by (nonlinear_arith)
                requires
                    n <= MEMORY_SIZE,
                    w <= MEMORY_SIZE,
            ;
            n * w
        };
        match check_access(cap, offset, total, T::align(), Access::Write) {
            Err(e) => Err(e),
            Ok(a) => {
                self.invalidate_range(a, total);
                proof {
                    let m = old(self)@.written(a as int, encode_all(data@));
                    assert(self@.tags =~= m.tags);
                    assert(data@.take(0) =~= Seq::<T>::empty());
                    assert(self@.bytes =~= overwrite(
                        old(self)@.bytes,
                        a as int,
                        encode_all(data@.take(0)),
                    ));
                }
                let mut i: usize = 0;
                let mut at: usize = a;
                while i < n
                    invariant
                        i <= n,
                        n == data@.len(),
                        w == T::width(),
                        0 < w,
                        a + n * w <= MEMORY_SIZE,
                        at == a + i * w,
                        self@.tags == old(self)@.written(a as int, encode_all(data@)).tags,
                        self@.bytes == overwrite(
                            old(self)@.bytes,
                            a as int,
                            encode_all(data@.take(i as int)),
                        ),
                    decreases n - i,
                {
                    proof {
                        lemma_encode_all_len::<T>(data@, i as int);
                        lemma_encode_all_len::<T>(data@, i + 1);
                        assert((i + 1) * w <= n * w) by (nonlinear_arith)
                            requires
                                i + 1 <= n,
                                0 < w,
                        ;
                        assert((i + 1) * w == i * w + w) by (nonlinear_arith);
                    }
                    data[i].write_to(&mut self.mem, at);
                    proof {
                        assert(data@.take(i + 1).drop_last() =~= data@.take(i as int));
                        assert(self@.bytes =~= overwrite(
                            old(self)@.bytes,
                            a as int,
                            encode_all(data@.take(i + 1)),
                        ));
                    }
                    i += 1;
                    at += w;
                }
                proof {
                    assert(data@.take(n as int) =~= data@);
                    let m = old(self)@.written(a as int, encode_all(data@));
                    assert(self@.bytes =~= m.bytes);
                    assert(self@.tags =~= m.tags);
                }
                Ok(())
            },
        }
    }

    /// Reads the capability at `offset`; its validity is the tag of the
    /// slot that it lies in.
    pub fn load_cap(&self, cap: Capability, offset: Int) -> (r: Result<Capability, RuntimeError>)
        ensures
            r == self@.load_cap(cap, offset),
    {
        match self.read::<Inner>(cap, offset, Access::Read) {
            Err(e) => Err(e),
            Ok(inner) => {
                let a = (cap.inner.ptr() as i32 + offset as i32) as usize;
                let valid = self.get_cap_tag(a / CAP_SIZE);
                Ok(Capability { inner, valid })
            },
        }
    }

    /// Stores the capability `data` at `offset`; the tag of the slot that
    /// it lies in becomes its validity.
    pub fn store_cap(&mut self, cap: Capability, offset: Int, data: Capability) -> (r: Result<
        (),
        RuntimeError,
    >)
        ensures
            match old(self)@.store_cap(cap, offset, data) {
                Ok(m) => r is Ok && final(self)@ == m,
                Err(e) => r == Err::<(), RuntimeError>(e) && final(self)@ == old(self)@,
            },
    {
        proof {
            data.inner.lemma_roundtrip();
        }
        match check_access(cap, offset, Inner::size(), Inner::align(), Access::Write) {
            Err(e) => Err(e),
            Ok(a) => {
                self.invalidate_range(a, Inner::size());
                self.set_cap_tag(a / CAP_SIZE, data.valid);
                data.inner.write_to(&mut self.mem, a);
                proof {
                    let m = old(self)@.store_cap(cap, offset, data)->Ok_0;
                    assert(self@.bytes =~= m.bytes);
                    assert(self@.tags =~= m.tags);
                }
                Ok(())
            },
        }
    }

    /// Reads the value of type `T` at `offset` by an access of the kind
    /// `access`.
    fn read<T: Storable>(&self, cap: Capability, offset: Int, access: Access) -> (r: Result<
        T,
        RuntimeError,
    >)
        ensures
            r == self@.read::<T>(cap, offset, access),
    {
        proof {
            T::lemma_layout();
        }
        match check_access(cap, offset, T::size(), T::align(), access) {
            Err(e) => Err(e),
            Ok(a) => match T::read_from(&self.mem, a) {
                Some(v) => Ok(v),
                None => Err(RuntimeError::IllegalEncoding { addr: a as Int }),
            },
        }
    }
}

/// The first `k` of a sequence of values take `k` times the width of one
/// value.
pub proof fn lemma_encode_all_len<T: Storable>(items: Seq<T>, k: int)
    requires
        0 <= k <= items.len(),
    ensures
        encode_all(items.take(k)).len() == k * T::width(),
    decreases k,
{
    let w = T::width() as int;
    if k > 0 {
        lemma_encode_all_len::<T>(items, k - 1);
        assert(items.take(k).drop_last() =~= items.take(k - 1));
        items.take(k).last().lemma_roundtrip();
        assert(encode_all(items.take(k)).len() == (k - 1) * w + w);
        assert(k * w == (k - 1) * w + w) by (nonlinear_arith);
    } else {
        assert(items.take(k).len() == 0);
        assert(k * w == 0);
    }
}

/// Whether the `size` bytes from address `a` on and the `CAP_SIZE` bytes of
/// `slot` have a byte in common.
pub open spec fn overlaps(a: int, size: nat, slot: int) -> bool {
    size > 0 && a < (slot + 1) * CAP_SIZE && slot * CAP_SIZE < a + size
}

/// An access that passes its checks lies within the capability's bounds
/// and within memory, at the address that the capability and the offset
/// name, and the capability is valid and allows it.
pub proof fn lemma_checked_address(
    cap: Capability,
    offset: Int,
    width: nat,
    align: nat,
    access: Access,
)
    ensures
        checked_address(cap, offset, width, align, access) matches Ok(a) ==> {
            &&& a == cap.inner.ptr() + offset
            &&& cap.inner.bounds().start <= a
            &&& a + width <= cap.inner.bounds().end
            &&& 0 <= a
            &&& a + width <= MEMORY_SIZE
            &&& a % (align as int) == 0
            &&& cap.valid
            &&& permits(cap.inner.perms(), access)
        },
{
}

/// Every load, fetch and store that succeeds lies within the bounds of the
/// capability it went through and within memory.
pub proof fn lemma_success_within_bounds<T: Storable>(
    m: MemoryView,
    cap: Capability,
    offset: Int,
    data: T,
    items: Seq<T>,
    c: Capability,
)
    ensures
        m.load::<T>(cap, offset) is Ok ==> within(
            cap,
            effective_address(cap, offset),
            T::width(),
        ),
        m.store::<T>(cap, offset, data) is Ok ==> within(
            cap,
            effective_address(cap, offset),
            T::width(),
        ),
        m.store_slice::<T>(cap, offset, items) is Ok ==> within(
            cap,
            effective_address(cap, offset),
            items.len() * T::width(),
        ),
        m.fetch(cap, offset) is Ok ==> within(
            cap,
            effective_address(cap, offset),
            Instruction::width(),
        ),
        m.load_cap(cap, offset) is Ok ==> within(
            cap,
            effective_address(cap, offset),
            Inner::width(),
        ),
        m.store_cap(cap, offset, c) is Ok ==> within(
            cap,
            effective_address(cap, offset),
            Inner::width(),
        ),
{
}

/// Right after bytes were written, the tag of every slot that shares a byte
/// with them is clear; no write sets a tag, and the tags of the other
/// slots are as before.
pub proof fn lemma_write_clears_tags(m: MemoryView, a: int, data: Seq<u8>, slot: int)
    requires
        m.wf(),
        0 <= a,
        a + data.len() <= MEMORY_SIZE,
        0 <= slot < TAG_COUNT,
    ensures
        m.written(a, data).wf(),
        overlaps(a, data.len(), slot) ==> !m.written(a, data).tags[slot],
        m.written(a, data).tags[slot] ==> m.tags[slot],
        !overlaps(a, data.len(), slot) ==> m.written(a, data).tags[slot] == m.tags[slot],
{
    assert(overlaps(a, data.len(), slot) <==> clears(a, data.len(), slot));
}

/// Right after a store of a value or of a slice of values, the tag of
/// every slot that shares a byte with what was written is clear.
pub proof fn lemma_store_clears_tags<T: Storable>(
    m: MemoryView,
    cap: Capability,
    offset: Int,
    data: T,
    items: Seq<T>,
    slot: int,
)
    requires
        m.wf(),
        0 <= slot < TAG_COUNT,
    ensures
        m.store::<T>(cap, offset, data) matches Ok(after) ==> after.wf() && (overlaps(
            effective_address(cap, offset),
            T::width(),
            slot,
        ) ==> !after.tags[slot]),
        m.store_slice::<T>(cap, offset, items) matches Ok(after) ==> after.wf() && (overlaps(
            effective_address(cap, offset),
            items.len() * T::width(),
            slot,
        ) ==> !after.tags[slot]),
{
    let a = effective_address(cap, offset);
    data.lemma_roundtrip();
    lemma_encode_all_len::<T>(items, items.len() as int);
    assert(items.take(items.len() as int) =~= items);
    if m.store::<T>(cap, offset, data) is Ok {
        lemma_write_clears_tags(m, a, data.encoding(), slot);
    }
    if m.store_slice::<T>(cap, offset, items) is Ok {
        lemma_write_clears_tags(m, a, encode_all(items), slot);
    }
}

/// A capability stored is the capability loaded from the same place, its
/// validity included, as long as nothing was written in between. The load
/// needs the permission to read.
pub proof fn lemma_store_cap_load_cap(
    m: MemoryView,
    cap: Capability,
    offset: Int,
    data: Capability,
)
    requires
        m.wf(),
    ensures
        m.store_cap(cap, offset, data) matches Ok(after) ==> after.wf() && after.load_cap(
            cap,
            offset,
        ) == (if cap.inner.perms().read {
            Ok::<Capability, RuntimeError>(data)
        } else {
            Err::<Capability, RuntimeError>(RuntimeError::InsufficientPermissions(cap))
        }),
{
    if let Ok(after) = m.store_cap(cap, offset, data) {
        let a = effective_address(cap, offset);
        data.inner.lemma_roundtrip();
        assert(after.bytes.subrange(a, a + 8) =~= data.inner.encoding());
    }
}

/// A load of a capability gives what it gave before a write, where the
/// write shares no byte with the capability's fields and does not clear the
/// tag of the slot that its address lies in.
pub proof fn lemma_load_cap_unchanged(
    m: MemoryView,
    cap: Capability,
    offset: Int,
    a: int,
    data: Seq<u8>,
)
    requires
        m.wf(),
        0 <= a,
        a + data.len() <= MEMORY_SIZE,
        a + data.len() <= effective_address(cap, offset) || effective_address(cap, offset)
            + Inner::width() <= a,
        !clears(a, data.len(), effective_address(cap, offset) / (CAP_SIZE as int)),
    ensures
        m.written(a, data).load_cap(cap, offset) == m.load_cap(cap, offset),
{
    let at = effective_address(cap, offset);
    if checked_address(cap, offset, Inner::width(), Inner::alignment(), Access::Read) is Ok {
        assert(m.written(a, data).bytes.subrange(at, at + 8) =~= m.bytes.subrange(at, at + 8));
    }
}

/// A capability stored is still the capability loaded after a write in
/// between, where the write shares no byte with the capability's fields
/// and does not clear the tag of the slot that its address lies in.
pub proof fn lemma_store_cap_write_load_cap(
    m: MemoryView,
    cap: Capability,
    offset: Int,
    data: Capability,
    a: int,
    bytes: Seq<u8>,
)
    requires
        m.wf(),
        cap.inner.perms().read,
        m.store_cap(cap, offset, data) is Ok,
        0 <= a,
        a + bytes.len() <= MEMORY_SIZE,
        a + bytes.len() <= effective_address(cap, offset) || effective_address(cap, offset)
            + Inner::width() <= a,
        !clears(a, bytes.len(), effective_address(cap, offset) / (CAP_SIZE as int)),
    ensures
        m.store_cap(cap, offset, data)->Ok_0.written(a, bytes).load_cap(cap, offset) == Ok::<
            Capability,
            RuntimeError,
        >(data),
{
    lemma_store_cap_load_cap(m, cap, offset, data);
    lemma_load_cap_unchanged(m.store_cap(cap, offset, data)->Ok_0, cap, offset, a, bytes);
}

/// After a write that shares a byte with a slot, a capability loaded from
/// an address in that slot is not valid, whatever the slot held before.
pub proof fn lemma_write_invalidates_capability(
    m: MemoryView,
    cap: Capability,
    offset: Int,
    a: int,
    data: Seq<u8>,
)
    requires
        m.wf(),
        0 <= a,
        a + data.len() <= MEMORY_SIZE,
        overlaps(a, data.len(), effective_address(cap, offset) / (CAP_SIZE as int)),
    ensures
        m.written(a, data).load_cap(cap, offset) matches Ok(c) ==> !c.valid,
{
    let slot = effective_address(cap, offset) / (CAP_SIZE as int);
    if m.written(a, data).load_cap(cap, offset) is Ok {
        lemma_write_clears_tags(m, a, data, slot);
    }
}

/// After a store of a value that shares a byte with a slot, a capability
/// loaded from an address in that slot is not valid.
pub proof fn lemma_store_invalidates_capability<T: Storable>(
    m: MemoryView,
    through: Capability,
    at: Int,
    data: T,
    cap: Capability,
    offset: Int,
)
    requires
        m.wf(),
        overlaps(
            effective_address(through, at),
            T::width(),
            effective_address(cap, offset) / (CAP_SIZE as int),
        ),
    ensures
        m.store::<T>(through, at, data) matches Ok(after) ==> (after.load_cap(cap, offset) matches Ok(
            c,
        ) ==> !c.valid),
{
    data.lemma_roundtrip();
    if m.store::<T>(through, at, data) is Ok {
        lemma_write_invalidates_capability(
            m,
            cap,
            offset,
            effective_address(through, at),
            data.encoding(),
        );
    }
}

impl Default for Memory {
    /// A memory of zero bytes with no tag set.
    fn default() -> (m: Self)
        ensures
            m@.wf(),
            forall|i: int| 0 <= i < MEMORY_SIZE ==> m@.bytes[i] == 0u8,
            forall|i: int| 0 <= i < TAG_COUNT ==> !m@.tags[i],
    {
        let m = Self { mem: [0u8; MEMORY_SIZE], cap_tags: [0u8; 32] };
        proof {
            assert forall|i: int| 0 <= i < TAG_COUNT implies !m@.tags[i] by {
                lemma_bit_set(0u8, 0u8, (i % 8) as u8);
            }
        }
        m
    }
}

} // verus!
