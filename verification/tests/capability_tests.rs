use capvm::bytecode::{CRegister, GpRegister};
use capvm::capability::{Capability, Inner, Permissions, Seal, SealId, CAP_SIZE};
use capvm::layout::{join_word, split_word, Storable};

#[test]
fn permissions_pack_into_the_low_three_bits() {
    assert_eq!(u8::from(Permissions::rwx(false, false, false)), 0);
    assert_eq!(u8::from(Permissions::rwx(true, false, false)), 1);
    assert_eq!(u8::from(Permissions::rwx(false, true, false)), 2);
    assert_eq!(u8::from(Permissions::rwx(false, false, true)), 4);
    assert_eq!(u8::from(Permissions::rwx(true, true, true)), 7);
}

#[test]
fn permissions_read_back_from_every_byte_pattern() {
    for b in 0..=255u8 {
        let p = Permissions::from(b);
        assert_eq!(p.read, b & 1 != 0);
        assert_eq!(p.write, b & 2 != 0);
        assert_eq!(p.execute, b & 4 != 0);
        assert_eq!(u8::from(p), b & 7);
    }
}

#[test]
fn permissions_render_as_three_characters() {
    assert_eq!(Permissions::rwx(true, true, true).to_text(), "rwx");
    assert_eq!(Permissions::rwx(true, false, true).to_text(), "r-x");
    assert_eq!(Permissions::rwx(false, true, false).to_text(), "-w-");
    assert_eq!(Permissions::rwx(false, false, false).to_text(), "---");
}

#[test]
fn seal_names_exclude_zero() {
    assert!(SealId::new(0).is_none());
    assert_eq!(SealId::new(1).unwrap().get(), 1);
    assert_eq!(SealId::new(255).unwrap().get(), 255);
}

#[test]
fn seals_convert_to_and_from_bytes() {
    assert_eq!(u8::from(Seal::Unsealed), 0);
    assert_eq!(u8::from(Seal::Sealed(SealId::new(9).unwrap())), 9);
    assert_eq!(Seal::from(0), Seal::Unsealed);
    assert_eq!(Seal::from(200), Seal::Sealed(SealId::new(200).unwrap()));
    for b in 0..=255u8 {
        assert_eq!(u8::from(Seal::from(b)), b);
    }
}

#[test]
fn a_capability_keeps_what_it_was_made_of() {
    let seal = Seal::Sealed(SealId::new(0x80).unwrap());
    let c = Inner::new(-4, -10..300, Permissions::rwx(true, false, true), seal);
    assert_eq!(c.ptr(), -4);
    assert_eq!(c.bounds(), -10..300);
    assert_eq!(c.perms(), Permissions::rwx(true, false, true));
    assert_eq!(c.seal(), seal);
    assert!(c.in_range());
}

#[test]
fn in_range_is_half_open() {
    let p = Permissions::rwx(true, true, false);
    assert!(Inner::new(0, 0..1, p, Seal::Unsealed).in_range());
    assert!(!Inner::new(1, 0..1, p, Seal::Unsealed).in_range());
    assert!(!Inner::new(-1, 0..1, p, Seal::Unsealed).in_range());
    assert!(!Inner::new(0, 0..0, p, Seal::Unsealed).in_range());
}

#[test]
fn the_default_capability_is_null_and_invalid() {
    let c = Capability::default();
    assert!(!c.valid);
    assert_eq!(c.inner.ptr(), 0);
    assert_eq!(c.inner.bounds(), 0..0);
    assert_eq!(c.inner.perms(), Permissions::rwx(false, false, false));
    assert_eq!(c.inner.seal(), Seal::Unsealed);
    assert_eq!(c.inner, Inner::default());
}

#[test]
fn capabilities_with_different_tags_differ() {
    let inner = Inner::new(0, 0..16, Permissions::rwx(true, true, true), Seal::Unsealed);
    assert_ne!(Capability { inner, valid: true }, Capability { inner, valid: false });
}

#[test]
fn capability_fields_take_eight_bytes_low_byte_first() {
    assert_eq!(CAP_SIZE, 16);
    assert_eq!(Inner::size(), 8);
    assert_eq!(Inner::align(), 4);
    let seal = Seal::Sealed(SealId::new(3).unwrap());
    let c = Inner::new(0x0102, 0x0304..0x0506, Permissions::rwx(true, false, true), seal);
    let mut buf = [0xaau8; 12];
    c.write_to(&mut buf, 2);
    assert_eq!(buf, [0xaa, 0xaa, 0x02, 0x01, 0x04, 0x03, 0x06, 0x05, 0x05, 0x03, 0xaa, 0xaa]);
    assert_eq!(Inner::read_from(&buf, 2), Some(c));
}

#[test]
fn words_split_into_two_complement_bytes() {
    assert_eq!(split_word(0), (0, 0));
    assert_eq!(split_word(1), (1, 0));
    assert_eq!(split_word(256), (0, 1));
    assert_eq!(split_word(-1), (255, 255));
    assert_eq!(split_word(-32768), (0, 128));
    assert_eq!(split_word(32767), (255, 127));
    assert_eq!(join_word(0x34, 0x12), 0x1234);
    assert_eq!(join_word(255, 255), -1);
    assert_eq!(join_word(0, 128), -32768);
    for n in [-32768i16, -300, -1, 0, 1, 255, 256, 12345, 32767] {
        let (lo, hi) = split_word(n);
        assert_eq!(join_word(lo, hi), n);
        assert_eq!([lo, hi], n.to_le_bytes());
    }
}

#[test]
fn registers_are_numbered_in_order() {
    let gp = [
        GpRegister::R0,
        GpRegister::R1,
        GpRegister::R2,
        GpRegister::R3,
        GpRegister::R4,
        GpRegister::R5,
        GpRegister::R6,
        GpRegister::SP,
    ];
    let cap = [
        CRegister::C0,
        CRegister::C1,
        CRegister::C2,
        CRegister::C3,
        CRegister::C4,
        CRegister::C5,
        CRegister::CC,
        CRegister::DD,
    ];
    for i in 0..8 {
        assert_eq!(gp[i].index(), i);
        assert_eq!(cap[i].index(), i);
        assert_eq!(GpRegister::from_index(i as u8), Some(gp[i]));
        assert_eq!(CRegister::from_index(i as u8), Some(cap[i]));
    }
    assert_eq!(GpRegister::from_index(8), None);
    assert_eq!(CRegister::from_index(255), None);
}
