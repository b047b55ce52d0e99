use zkasm_codegen::imms::{Imm20, Imm32, Imm5, Inst, UImm5};

#[test]
fn imm20_and_imm12() {
    assert!(Inst::imm_max() == (i32::MAX - 2048) as i64);
    assert!(Inst::imm_min() == i32::MIN as i64 - 2048);
}

fn check_split(v: i64) {
    let (imm20, imm12) = Inst::split_imm(v as u64).expect("value in range");
    assert_eq!(imm20 * 4096 + imm12, v);
    assert!(imm12 >= -2048 && imm12 <= 2047);
    assert!(imm20 >= -(1 << 19) && imm20 < (1 << 19));
}

#[test]
fn split_imm_covers_the_range() {
    for v in [
        Inst::imm_min(),
        Inst::imm_min() + 1,
        -4096 - 2048,
        -4097,
        -2049,
        -2048,
        -1,
        0,
        1,
        2047,
        2048,
        4095,
        4096,
        Inst::imm_max() - 1,
        Inst::imm_max(),
    ] {
        check_split(v);
    }
}

#[test]
fn split_imm_exact_values() {
    assert_eq!(Inst::split_imm(2048), Some((1, -2048)));
    assert_eq!(Inst::split_imm(2047), Some((0, 2047)));
    assert_eq!(Inst::split_imm((-2049i64) as u64), Some((-1, 2047)));
    assert_eq!(Inst::split_imm((-2048i64) as u64), Some((0, -2048)));
    assert_eq!(Inst::split_imm(0), Some((0, 0)));
    assert_eq!(Inst::split_imm(Inst::imm_max() as u64), Some(((1 << 19) - 1, 2047)));
    assert_eq!(Inst::split_imm(Inst::imm_min() as u64), Some((-(1 << 19), -2048)));
}

#[test]
fn split_imm_rejects_outside_range() {
    assert_eq!(Inst::split_imm((Inst::imm_max() + 1) as u64), None);
    assert_eq!(Inst::split_imm((Inst::imm_min() - 1) as u64), None);
    assert_eq!(Inst::split_imm(u64::MAX / 2), None);
    assert_eq!(Inst::split_imm(i64::MIN as u64), None);
}

#[test]
fn generate_imm_hands_over_the_upper_part() {
    let r = Inst::generate_imm(4096 * 3 + 5, |imm20: Option<Imm20>| imm20.map(|i| i.bits));
    assert_eq!(r, Some(Some(3)));
    let r = Inst::generate_imm(100, |imm20: Option<Imm20>| imm20.map(|i| i.bits));
    assert_eq!(r, Some(None));
    let r = Inst::generate_imm((-4096i64) as u64, |imm20: Option<Imm20>| imm20.map(|i| i.bits));
    assert_eq!(r, Some(Some(0xf_ffff)));
    let r = Inst::generate_imm(u64::MAX / 2, |imm20: Option<Imm20>| imm20.map(|i| i.bits));
    assert_eq!(r, None);
}

#[test]
fn imm20_keeps_low_bits() {
    assert_eq!(Imm20::from_bits(-1).bits, 0xf_ffff);
    assert_eq!(Imm20::from_bits(0x12_3456).bits, 0x2_3456);
    assert_eq!(Imm20::from_bits(-1).as_u32(), 0xf_ffff);
    assert_eq!(Imm20 { bits: -1 }.as_u32(), 0xf_ffff);
}

#[test]
fn imm32_from_u64() {
    assert_eq!(Imm32::maybe_from_u64(0).map(|i| i.bits), Some(0));
    assert_eq!(Imm32::maybe_from_u64(5).map(|i| i.bits), Some(5));
    assert_eq!(Imm32::maybe_from_u64(0x7fff_ffff).map(|i| i.bits), Some(i32::MAX));
    assert_eq!(Imm32::maybe_from_u64(0x8000_0000).map(|i| i.bits), None);
    assert_eq!(Imm32::maybe_from_u64(0x1_0000_0000).map(|i| i.bits), None);
    assert_eq!(
        Imm32::maybe_from_u64(0x7fff_ffff_8000_0000).map(|i| i.bits),
        Some(i32::MIN)
    );
    assert_eq!(Imm32::maybe_from_u64(0x7fff_ffff_ffff_ffff).map(|i| i.bits), Some(-1));
    assert_eq!(Imm32::maybe_from_u64(u64::MAX).map(|i| i.bits), None);
}

#[test]
fn uimm5_bounds() {
    for v in 0u8..32 {
        assert_eq!(UImm5::maybe_from_u8(v).map(|i| i.bits()), Some(v as u32));
    }
    assert!(UImm5::maybe_from_u8(32).is_none());
    assert!(UImm5::maybe_from_u8(255).is_none());
}

#[test]
fn imm5_bounds() {
    for v in -16i8..=15 {
        assert!(Imm5::maybe_from_i8(v).is_some());
    }
    assert!(Imm5::maybe_from_i8(16).is_none());
    assert!(Imm5::maybe_from_i8(-17).is_none());
    assert!(Imm5::maybe_from_i8(i8::MIN).is_none());
    assert!(Imm5::maybe_from_i8(i8::MAX).is_none());
}

#[test]
fn imm5_bits_round_trip() {
    for b in 0u8..32 {
        assert_eq!(Imm5::from_bits(b).bits(), b);
    }
    assert_eq!(Imm5::from_bits(0x1f), Imm5::maybe_from_i8(-1).unwrap());
    assert_eq!(Imm5::from_bits(0x10), Imm5::maybe_from_i8(-16).unwrap());
    assert_eq!(Imm5::maybe_from_i8(-1).unwrap().bits(), 0x1f);
    assert_eq!(Imm5::maybe_from_i8(15).unwrap().bits(), 15);
}
