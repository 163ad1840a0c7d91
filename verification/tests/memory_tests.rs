use capvm::bytecode::{GpRegister, Instruction, Value};
use capvm::capability::{Capability, Inner, Permissions, Seal, SealId};
use capvm::layout::{Storable, MEMORY_SIZE};
use capvm::memory::{Memory, RuntimeError, TAG_COUNT};

fn cap(ptr: i16, start: i16, end: i16, r: bool, w: bool, x: bool) -> Capability {
    Capability { inner: Inner::new(ptr, start..end, Permissions::rwx(r, w, x), Seal::Unsealed), valid: true }
}

fn all() -> Capability {
    cap(0, 0, 4096, true, true, true)
}

#[test]
fn a_fresh_memory_is_zero_with_no_tag_set() {
    let m = Memory::default();
    assert_eq!(MEMORY_SIZE, 4096);
    assert_eq!(TAG_COUNT, 256);
    for a in [0i16, 1, 2047, 4095] {
        assert_eq!(m.load::<u8>(all(), a), Ok(0));
    }
    for i in 0..TAG_COUNT {
        assert!(!m.get_cap_tag(i));
    }
}

#[test]
fn a_word_stored_is_the_word_loaded() {
    let mut m = Memory::default();
    assert_eq!(m.store::<i16>(all(), 100, -12345), Ok(()));
    assert_eq!(m.load::<i16>(all(), 100), Ok(-12345));
    assert_eq!(m.load::<u8>(all(), 100), Ok((-12345i16).to_le_bytes()[0]));
    assert_eq!(m.load::<u8>(all(), 101), Ok((-12345i16).to_le_bytes()[1]));
    assert_eq!(m.load::<i16>(all(), 98), Ok(0));
    assert_eq!(m.load::<i16>(all(), 102), Ok(0));
}

#[test]
fn the_address_is_pointer_plus_offset() {
    let mut m = Memory::default();
    let c = cap(200, 100, 300, true, true, false);
    assert_eq!(m.store::<i16>(c, -50, 77), Ok(()));
    assert_eq!(m.load::<i16>(all(), 150), Ok(77));
    assert_eq!(m.load::<i16>(c, -50), Ok(77));
}

#[test]
fn an_invalid_capability_is_refused_first() {
    let mut m = Memory::default();
    let mut c = cap(1, 0, 0, false, false, false);
    c.valid = false;
    assert_eq!(m.load::<i16>(c, 0), Err(RuntimeError::InvalidCapability(c)));
    assert_eq!(m.store::<i16>(c, 0, 1), Err(RuntimeError::InvalidCapability(c)));
    assert_eq!(m.fetch(c, 0), Err(RuntimeError::InvalidCapability(c)));
    assert_eq!(m.load_cap(c, 0), Err(RuntimeError::InvalidCapability(c)));
    assert_eq!(m.store_cap(c, 0, all()), Err(RuntimeError::InvalidCapability(c)));
    assert_eq!(m.store_slice::<u8>(c, 0, &[1, 2]), Err(RuntimeError::InvalidCapability(c)));
}

#[test]
fn a_missing_permission_is_refused_before_bounds_and_alignment() {
    let mut m = Memory::default();
    let none = cap(1, 0, 0, false, false, false);
    assert_eq!(m.load::<i16>(none, 0), Err(RuntimeError::InsufficientPermissions(none)));
    assert_eq!(m.store::<i16>(none, 0, 1), Err(RuntimeError::InsufficientPermissions(none)));
    assert_eq!(m.fetch(none, 0), Err(RuntimeError::InsufficientPermissions(none)));
    assert_eq!(m.load_cap(none, 0), Err(RuntimeError::InsufficientPermissions(none)));
    assert_eq!(m.store_cap(none, 0, all()), Err(RuntimeError::InsufficientPermissions(none)));
    let read_only = cap(0, 0, 4096, true, false, false);
    assert_eq!(m.load::<i16>(read_only, 0), Ok(0));
    assert_eq!(m.store::<i16>(read_only, 0, 1), Err(RuntimeError::InsufficientPermissions(read_only)));
    assert_eq!(m.fetch(read_only, 0), Err(RuntimeError::InsufficientPermissions(read_only)));
    let write_only = cap(0, 0, 4096, false, true, false);
    assert_eq!(m.store::<i16>(write_only, 0, 1), Ok(()));
    assert_eq!(m.load::<i16>(write_only, 0), Err(RuntimeError::InsufficientPermissions(write_only)));
    let execute_only = cap(0, 0, 4096, false, false, true);
    assert!(m.fetch(execute_only, 12).is_ok());
    assert_eq!(m.load::<i16>(execute_only, 0), Err(RuntimeError::InsufficientPermissions(execute_only)));
}

#[test]
fn an_access_outside_the_bounds_is_refused_before_alignment() {
    let mut m = Memory::default();
    let c = cap(0, 16, 32, true, true, true);
    assert_eq!(m.load::<i16>(c, 14), Err(RuntimeError::OutOfBoundsAccess(c)));
    assert_eq!(m.load::<i16>(c, 15), Err(RuntimeError::OutOfBoundsAccess(c)));
    assert_eq!(m.load::<i16>(c, 16), Ok(0));
    assert_eq!(m.load::<i16>(c, 30), Ok(0));
    assert_eq!(m.load::<i16>(c, 31), Err(RuntimeError::OutOfBoundsAccess(c)));
    assert_eq!(m.load::<i16>(c, 32), Err(RuntimeError::OutOfBoundsAccess(c)));
    assert_eq!(m.store::<i16>(c, 31, 1), Err(RuntimeError::OutOfBoundsAccess(c)));
    assert_eq!(m.load::<u8>(c, 31), Ok(0));
    assert_eq!(m.load::<u8>(c, 32), Err(RuntimeError::OutOfBoundsAccess(c)));
}

#[test]
fn an_access_outside_memory_is_out_of_bounds() {
    let mut m = Memory::default();
    let wide = cap(0, -100, 5000, true, true, true);
    assert_eq!(m.load::<i16>(wide, 4094), Ok(0));
    assert_eq!(m.load::<i16>(wide, 4095), Err(RuntimeError::OutOfBoundsAccess(wide)));
    assert_eq!(m.load::<i16>(wide, 4096), Err(RuntimeError::OutOfBoundsAccess(wide)));
    assert_eq!(m.load::<i16>(wide, -2), Err(RuntimeError::OutOfBoundsAccess(wide)));
    assert_eq!(m.store::<u8>(wide, -1, 1), Err(RuntimeError::OutOfBoundsAccess(wide)));
    assert_eq!(m.load::<u8>(all(), 4095), Ok(0));
    let far = cap(32767, -32768, 32767, true, true, true);
    assert_eq!(m.load::<u8>(far, 32767), Err(RuntimeError::OutOfBoundsAccess(far)));
    let low = cap(-32768, -32768, 32767, true, true, true);
    assert_eq!(m.load::<u8>(low, -32768), Err(RuntimeError::OutOfBoundsAccess(low)));
    assert_eq!(m.load::<u8>(low, 32767), Err(RuntimeError::OutOfBoundsAccess(low)));
    assert_eq!(m.store::<u8>(cap(-30000, 0, 4096, true, true, true), 30010, 9), Ok(()));
    assert_eq!(m.load::<u8>(all(), 10), Ok(9));
}

#[test]
fn an_unaligned_access_names_address_and_alignment() {
    let mut m = Memory::default();
    assert_eq!(m.load::<i16>(all(), 37), Err(RuntimeError::UnalignedAccess { addr: 37, align: 2 }));
    assert_eq!(m.store::<i16>(all(), 1, 5), Err(RuntimeError::UnalignedAccess { addr: 1, align: 2 }));
    assert_eq!(m.fetch(all(), 2), Err(RuntimeError::UnalignedAccess { addr: 2, align: 4 }));
    assert_eq!(m.load_cap(all(), 6), Err(RuntimeError::UnalignedAccess { addr: 6, align: 4 }));
    assert_eq!(m.store_cap(all(), 34, all()), Err(RuntimeError::UnalignedAccess { addr: 34, align: 4 }));
    assert_eq!(m.load::<u8>(all(), 37), Ok(0));
    assert_eq!(m.load::<i16>(all(), 1), Err(RuntimeError::UnalignedAccess { addr: 1, align: 2 }));
}

#[test]
fn a_store_that_fails_writes_nothing() {
    let mut m = Memory::default();
    assert_eq!(m.store_cap(all(), 32, all()), Ok(()));
    assert_eq!(m.store::<i16>(all(), 36, 0x0707), Ok(()));
    assert_eq!(m.store_cap(all(), 32, all()), Ok(()));
    let read_only = cap(0, 0, 4096, true, false, false);
    assert!(m.store::<i16>(read_only, 36, 1).is_err());
    assert!(m.store::<i16>(all(), 37, 1).is_err());
    assert!(m.store::<i16>(cap(0, 0, 37, true, true, true), 36, 1).is_err());
    assert!(m.store_slice::<i16>(all(), 4090, &[1, 2, 3, 4]).is_err());
    assert_eq!(m.load_cap(all(), 32), Ok(all()));
    assert!(m.get_cap_tag(2));
}

#[test]
fn fetch_needs_execute_and_reads_one_slot() {
    let mut m = Memory::default();
    let i = Instruction::Add(GpRegister::R1, Value::Imm(5));
    assert_eq!(m.store::<Instruction>(all(), 24, i), Ok(()));
    assert_eq!(m.fetch(all(), 24), Ok(i));
    assert_eq!(m.load::<Instruction>(all(), 24), Ok(i));
    assert_eq!(m.fetch(all(), 4084), Ok(Instruction::Mov(GpRegister::R0, Value::Reg(GpRegister::R0))));
    assert_eq!(m.fetch(all(), 4088), Err(RuntimeError::OutOfBoundsAccess(all())));
}

#[test]
fn bytes_that_are_no_instruction_are_an_illegal_encoding() {
    let mut m = Memory::default();
    assert_eq!(m.store::<u8>(all(), 48, 16), Ok(()));
    assert_eq!(m.fetch(all(), 48), Err(RuntimeError::IllegalEncoding { addr: 48 }));
    assert_eq!(m.load::<Instruction>(all(), 48), Err(RuntimeError::IllegalEncoding { addr: 48 }));
}

#[test]
fn fetch_outside_restricted_code_bounds_is_out_of_bounds() {
    let m = Memory::default();
    let code = cap(0, 0, 16, true, false, true);
    assert!(m.fetch(code, 0).is_ok());
    assert!(m.fetch(code, 4).is_ok());
    assert_eq!(m.fetch(code, 8), Err(RuntimeError::OutOfBoundsAccess(code)));
    assert_eq!(m.fetch(code, 16), Err(RuntimeError::OutOfBoundsAccess(code)));
}

#[test]
fn a_slice_is_written_item_after_item() {
    let mut m = Memory::default();
    assert_eq!(m.store_slice::<i16>(all(), 10, &[1, -1, 0x0203]), Ok(()));
    assert_eq!(m.load::<i16>(all(), 10), Ok(1));
    assert_eq!(m.load::<i16>(all(), 12), Ok(-1));
    assert_eq!(m.load::<i16>(all(), 14), Ok(0x0203));
    assert_eq!(m.load::<u8>(all(), 14), Ok(3));
    assert_eq!(m.load::<u8>(all(), 16), Ok(0));
    let program = [
        Instruction::Mov(GpRegister::R0, Value::Imm(1)),
        Instruction::Emit(Value::Reg(GpRegister::R0)),
    ];
    assert_eq!(m.store_slice(all(), 0, &program), Ok(()));
    assert_eq!(m.fetch(all(), 0), Ok(program[0]));
    assert_eq!(m.fetch(all(), 12), Ok(program[1]));
}

#[test]
fn a_slice_must_fit_as_a_whole() {
    let mut m = Memory::default();
    let c = cap(0, 0, 8, true, true, true);
    assert_eq!(m.store_slice::<i16>(c, 0, &[1, 2, 3, 4]), Ok(()));
    assert_eq!(m.store_slice::<i16>(c, 2, &[9, 9, 9, 9]), Err(RuntimeError::OutOfBoundsAccess(c)));
    assert_eq!(m.load::<i16>(c, 2), Ok(2));
    let big = vec![0u8; 5000];
    assert_eq!(m.store_slice::<u8>(all(), 0, &big), Err(RuntimeError::OutOfBoundsAccess(all())));
    let whole = vec![7u8; 4096];
    assert_eq!(m.store_slice::<u8>(all(), 0, &whole), Ok(()));
    assert_eq!(m.load::<u8>(all(), 4095), Ok(7));
}

#[test]
fn an_empty_slice_writes_nothing_and_clears_nothing() {
    let mut m = Memory::default();
    assert_eq!(m.store_cap(all(), 32, all()), Ok(()));
    assert_eq!(m.store_slice::<i16>(all(), 36, &[]), Ok(()));
    assert!(m.get_cap_tag(2));
    assert_eq!(m.load_cap(all(), 32), Ok(all()));
    assert_eq!(m.store_slice::<i16>(all(), 4096, &[]), Ok(()));
    assert_eq!(m.store_slice::<i16>(all(), 37, &[]), Err(RuntimeError::UnalignedAccess { addr: 37, align: 2 }));
    let c = cap(0, 16, 32, true, true, true);
    assert_eq!(m.store_slice::<u8>(c, 32, &[]), Ok(()));
    assert_eq!(m.store_slice::<u8>(c, 33, &[]), Err(RuntimeError::OutOfBoundsAccess(c)));
}

#[test]
fn a_capability_stored_is_the_capability_loaded() {
    let mut m = Memory::default();
    let sealed = Capability {
        inner: Inner::new(
            -7,
            -32768..32767,
            Permissions::rwx(false, true, false),
            Seal::Sealed(SealId::new(255).unwrap()),
        ),
        valid: true,
    };
    assert_eq!(m.store_cap(all(), 32, sealed), Ok(()));
    assert_eq!(m.load_cap(all(), 32), Ok(sealed));
    assert!(m.get_cap_tag(2));
    let invalid = Capability { inner: sealed.inner, valid: false };
    assert_eq!(m.store_cap(all(), 64, invalid), Ok(()));
    assert_eq!(m.load_cap(all(), 64), Ok(invalid));
    assert!(!m.get_cap_tag(4));
    assert_eq!(m.store_cap(all(), 44, sealed), Ok(()));
    assert_eq!(m.load_cap(all(), 44), Ok(sealed));
    assert!(m.get_cap_tag(2));
    assert!(!m.get_cap_tag(3));
}

#[test]
fn a_valid_capability_store_leaves_exactly_its_own_tag() {
    let mut m = Memory::default();
    assert_eq!(m.store_cap(all(), 4080, all()), Ok(()));
    for i in 0..TAG_COUNT {
        assert_eq!(m.get_cap_tag(i), i == 255);
    }
    assert_eq!(m.store_cap(all(), 4088, Capability { inner: all().inner, valid: false }), Ok(()));
    for i in 0..TAG_COUNT {
        assert!(!m.get_cap_tag(i));
    }
}

#[test]
fn tag_invalidation() {
    let mut m = Memory::default();
    assert_eq!(m.store_cap(all(), 32, all()), Ok(()));
    assert_eq!(m.load_cap(all(), 32).map(|c| c.valid), Ok(true));
    assert_eq!(m.store::<i16>(all(), 36, 5), Ok(()));
    let after = m.load_cap(all(), 32).unwrap();
    assert!(!after.valid);
    assert!(!m.get_cap_tag(2));
}

#[test]
fn a_write_clears_the_tag_of_every_slot_it_touches_and_no_other() {
    let mut m = Memory::default();
    for slot in 0..6i16 {
        assert_eq!(m.store_cap(all(), slot * 16, all()), Ok(()));
    }
    assert_eq!(m.store_slice::<u8>(all(), 31, &[1; 34]), Ok(()));
    let expected = [true, false, false, false, false, true];
    for slot in 0..6 {
        assert_eq!(m.get_cap_tag(slot), expected[slot]);
    }
    assert_eq!(m.store::<u8>(all(), 15, 0), Ok(()));
    assert!(!m.get_cap_tag(0));
    assert!(m.get_cap_tag(5));
    assert_eq!(m.store::<i16>(all(), 94, 0), Ok(()));
    assert!(!m.get_cap_tag(5));
}

#[test]
fn no_byte_write_can_forge_a_tag() {
    let mut m = Memory::default();
    let mut bytes = [0u8; 8];
    all().inner.write_to(&mut bytes, 0);
    assert_eq!(m.store_slice::<u8>(all(), 32, &bytes), Ok(()));
    let forged = m.load_cap(all(), 32).unwrap();
    assert_eq!(forged.inner, all().inner);
    assert!(!forged.valid);
}

#[test]
fn a_write_elsewhere_leaves_a_stored_capability_alone() {
    let mut m = Memory::default();
    assert_eq!(m.store_cap(all(), 32, all()), Ok(()));
    assert_eq!(m.store::<i16>(all(), 30, -1), Ok(()));
    assert_eq!(m.store::<i16>(all(), 48, -1), Ok(()));
    assert_eq!(m.store_slice::<u8>(all(), 0, &[3; 32]), Ok(()));
    assert_eq!(m.load_cap(all(), 32), Ok(all()));
}
