//! Immediate operands of the instruction set.
use vstd::prelude::*;

verus! {

/// A signed 32-bit immediate.
#[derive(Copy, Clone, Debug, Default)]
pub struct Imm32 {
    pub bits: i32,
}

/// The unsigned 64-bit values that the encoder takes as a 32-bit immediate:
/// those below `2^31`, and those whose bits `31..=62` are all set and whose top
/// bit is clear (the encoder tests bits `31..` against `0xffff_ffff`, so the
/// sign extension of a negative 32-bit value, whose top bit is set, is not
/// among them).
pub open spec fn imm32_fits(val: u64) -> bool {
    val < 0x8000_0000 || (0x7fff_ffff_8000_0000 <= val && val < 0x8000_0000_0000_0000)
}

/// The low 32 bits of `val`, read as a two's-complement number.
pub open spec fn low32_signed(val: u64) -> int {
    let lo = val as int % 0x1_0000_0000;
    if lo >= 0x8000_0000 {
        lo - 0x1_0000_0000
    } else {
        lo
    }
}

impl Imm32 {
    /// The 32-bit immediate whose extension is `val`, if there is one.
    pub fn maybe_from_u64(val: u64) -> (r: Option<Imm32>)
        ensures
            r.is_some() <==> imm32_fits(val),
            r.is_some() ==> r.unwrap().bits as int == low32_signed(val),
    {
        let sign_bit: u64 = 1u64 << 31u64;
        let hi31: u64 = val >> 31u64;
        let hi32: u64 = val >> 32u64;
        let lo: u64 = val & 0xffff_ffffu64;
        assert(hi31 == val / 0x8000_0000) by (bit_vector)
            requires
                hi31 == val >> 31u64,
        ;
        assert(hi32 == val / 0x1_0000_0000) by (bit_vector)
            requires
                hi32 == val >> 32u64,
        ;
        assert(lo == val % 0x1_0000_0000) by (bit_vector)
            requires
                lo == val & 0xffff_ffffu64,
        ;
        assert(sign_bit == 0x8000_0000) by (bit_vector)
            requires
                sign_bit == 1u64 << 31u64,
        ;
        assert((val & sign_bit) != 0 <==> (val & 0xffff_ffffu64) >= 0x8000_0000) by (bit_vector)
            requires
                sign_bit == 0x8000_0000u64,
        ;
        if val == 0 {
            Some(Imm32 { bits: 0 })
        } else if (val & sign_bit) != 0 && hi31 == 0xffff_ffffu64 {
            Some(Imm32 { bits: (lo as i64 - 0x1_0000_0000i64) as i32 })
        } else if (val & sign_bit) == 0 && hi32 == 0 {
            Some(Imm32 { bits: lo as i32 })
        } else {
            None
        }
    }
}

/// A 20-bit immediate, held as its bit pattern.
#[derive(Clone, Copy, Default)]
pub struct Imm20 {
    /// The immediate bits.
    pub bits: i32,
}

impl Imm20 {
    /// Keeps the low 20 bits of `bits`.
    pub fn from_bits(bits: i32) -> (r: Self)
        ensures
            r.bits == bits & 0xf_ffff,
            0 <= r.bits < 0x10_0000,
    {
        let b = bits & 0xf_ffffi32;
        assert(0 <= b < 0x10_0000) by (bit_vector)
            requires
                b == bits & 0xf_ffffi32,
        ;
        Self { bits: b }
    }

    /// The low 20 bits of the pattern, as an unsigned number.
    pub fn as_u32(&self) -> (r: u32)
        ensures
            r == (self.bits as u32) & 0xf_ffff,
    {
        (self.bits as u32) & 0xf_ffffu32
    }
}

/// An unsigned 5-bit immediate.
#[derive(Clone, Copy, Debug, PartialEq)]
pub struct UImm5 {
    value: u8,
}

impl UImm5 {
    pub closed spec fn view(&self) -> u8 {
        self.value
    }

    /// Every `UImm5` holds a value below `32`.
    #[verifier::type_invariant]
    pub closed spec fn inv(&self) -> bool {
        self.value < 32
    }

    /// Create an unsigned 5-bit immediate from u8.
    pub fn maybe_from_u8(value: u8) -> (r: Option<UImm5>)
        ensures
            r.is_some() <==> value < 32,
            r.is_some() ==> r.unwrap().view() == value,
    {
        if value < 32 {
            Some(UImm5 { value })
        } else {
            None
        }
    }

    /// Bits for encoding.
    pub fn bits(&self) -> (r: u32)
        ensures
            r == self.view() as u32,
            r < 32,
    {
        proof {
            use_type_invariant(self);
        }
        self.value as u32
    }
}

/// The value that a 5-bit two's-complement pattern stands for.
pub open spec fn sign_extend5(b: int) -> int {
    if b >= 16 {
        b - 32
    } else {
        b
    }
}

/// The 5-bit two's-complement pattern of a value.
pub open spec fn pattern5(v: int) -> int {
    v % 32
}

/// A signed 5-bit immediate.
#[derive(Clone, Copy, Debug, PartialEq)]
pub struct Imm5 {
    value: i8,
}

impl Imm5 {
    pub closed spec fn view(&self) -> i8 {
        self.value
    }

    /// Every `Imm5` holds a value in `[-16, 15]`.
    #[verifier::type_invariant]
    pub closed spec fn inv(&self) -> bool {
        -16 <= self.value <= 15
    }

    /// Create an signed 5-bit immediate from an i8.
    pub fn maybe_from_i8(value: i8) -> (r: Option<Imm5>)
        ensures
            r.is_some() <==> -16 <= value <= 15,
            r.is_some() ==> r.unwrap().view() == value,
    {
        if value >= -16 && value <= 15 {
            Some(Imm5 { value })
        } else {
            None
        }
    }

    /// Reads a 5-bit two's-complement pattern.
    pub fn from_bits(value: u8) -> (r: Imm5)
        requires
            value < 32,
        ensures
            r.view() as int == sign_extend5(value as int),
    {
        let signed: i8 = if value >= 16 {
            (value as i8) - 32
        } else {
            value as i8
        };
        Imm5 { value: signed }
    }

    /// Bits for encoding.
    pub fn bits(&self) -> (r: u8)
        ensures
            r as int == pattern5(self.view() as int),
    {
        proof {
            use_type_invariant(self);
        }
        if self.value < 0 {
            (self.value + 32) as u8
        } else {
            self.value as u8
        }
    }
}

/// Reading a 5-bit pattern and encoding the result gives the pattern back.
pub proof fn lemma_imm5_bits_round_trip(b: int)
    requires
        0 <= b < 32,
    ensures
        pattern5(sign_extend5(b)) == b,
        -16 <= sign_extend5(b) <= 15,
{
}

/// Encoding a value in `[-16, 15]` and reading the pattern gives the value back.
pub proof fn lemma_imm5_value_round_trip(v: int)
    requires
        -16 <= v <= 15,
    ensures
        sign_extend5(pattern5(v)) == v,
        0 <= pattern5(v) < 32,
{
}

/// The smallest value that an imm20/imm12 pair can form.
pub open spec fn imm_min_spec() -> int {
    -(0x8_0000 * 4096) - 2048
}

/// The largest value that an imm20/imm12 pair can form.
pub open spec fn imm_max_spec() -> int {
    (0x7_ffff * 4096) + 2047int
}

/// `(imm20, imm12)` splits `v`: `v == imm20 * 4096 + imm12`, with `imm12` a
/// signed 12-bit value and `imm20` a signed 20-bit value.
pub open spec fn is_imm_split(v: int, imm20: int, imm12: int) -> bool {
    &&& imm20 * 4096 + imm12 == v
    &&& -2048 <= imm12 <= 2047
    &&& -0x8_0000 <= imm20 <= 0x7_ffff
}

/// The instruction set, as far as immediates are concerned.
pub struct Inst;

impl Inst {
    /// The smallest value that an imm20/imm12 pair can form.
    pub fn imm_min() -> (r: i64)
        ensures
            r == imm_min_spec(),
            r == i32::MIN as i64 - 2048,
    {
        let imm20_max: i64 = (1i64 << 19u64) << 12u64;
        let imm12_max: i64 = 1i64 << 11u64;
        assert(imm20_max == 0x8000_0000) by (bit_vector)
            requires
                imm20_max == (1i64 << 19u64) << 12u64,
        ;
        assert(imm12_max == 2048) by (bit_vector)
            requires
                imm12_max == 1i64 << 11u64,
        ;
        -imm20_max - imm12_max
    }

    /// The largest value that an imm20/imm12 pair can form.
    pub fn imm_max() -> (r: i64)
        ensures
            r == imm_max_spec(),
            r == i32::MAX as i64 - 2048,
    {
        let top: i64 = 1i64 << 19u64;
        let low: i64 = 1i64 << 11u64;
        assert(top == 0x8_0000 && low == 2048) by (bit_vector)
            requires
                top == 1i64 << 19u64,
                low == 1i64 << 11u64,
        ;
        let top_max: i64 = top - 1;
        let imm20_max: i64 = top_max << 12u64;
        assert(imm20_max == 0x7fff_f000) by (bit_vector)
            requires
                top_max == 0x7_ffffi64,
                imm20_max == top_max << 12u64,
        ;
        let imm12_max: i64 = low - 1;
        imm20_max + imm12_max
    }

    /// Splits `value`, read as a signed number, into an imm20 and an imm12
    /// part, or returns `None` when it lies outside `[imm_min(), imm_max()]`.
    pub fn split_imm(value: u64) -> (r: Option<(i64, i64)>)
        ensures
            r.is_some() <==> imm_min_spec() <= value as i64 <= imm_max_spec(),
            r.is_some() ==> is_imm_split(value as i64 as int, r.unwrap().0 as int, r.unwrap().1 as int),
    {
        let value = value as i64;
        if !(value >= Self::imm_min() && value <= Self::imm_max()) {
            return None;
        }
        let (imm20, imm12) = if value > 0 {
            let v = value as u64;
            let mut imm20: i64 = (v / 4096) as i64;
            let mut imm12: i64 = (v % 4096) as i64;
            if imm12 >= 2048 {
                imm12 -= 4096;
                imm20 += 1;
            }
            (imm20, imm12)
        } else {
            let value_abs: u64 = (-value) as u64;
            let mut imm20: i64 = -((value_abs / 4096) as i64);
            let mut imm12: i64 = -((value_abs % 4096) as i64);
            if imm12 < -2048 {
                imm12 += 4096;
                imm20 -= 1;
            }
            (imm20, imm12)
        };
        Some((imm20, imm12))
    }

    /// An imm20 immediate and an imm12 immediate can generate a 32-bit
    /// immediate. Hands `handle_imm` the imm20 part when one is needed (`None`
    /// when the imm12 part alone forms the value) and returns what it gives,
    /// or `None` when `value` lies outside `[imm_min(), imm_max()]`.
    pub fn generate_imm<R, F: Fn(Option<Imm20>) -> R>(value: u64, handle_imm: F) -> (r: Option<R>)
        requires
            forall|x: Option<Imm20>| handle_imm.requires((x,)),
        ensures
            r.is_some() <==> imm_min_spec() <= value as i64 <= imm_max_spec(),
            r.is_some() ==> exists|imm20: int, imm12: int|
                #![trigger is_imm_split(value as i64 as int, imm20, imm12)]
                is_imm_split(value as i64 as int, imm20, imm12) && handle_imm.ensures(
                    (
                        if imm20 != 0 {
                            Some(Imm20 { bits: (imm20 as i32) & 0xf_ffff })
                        } else {
                            None
                        },
                    ),
                    r.unwrap(),
                ),
    {
        match Self::split_imm(value) {
            None => None,
            Some((imm20, imm12)) => {
                let upper = if imm20 != 0 {
                    Some(Imm20::from_bits(imm20 as i32))
                } else {
                    None
                };
                let out = handle_imm(upper);
                assert(is_imm_split(value as i64 as int, imm20 as int, imm12 as int));
                Some(out)
            },
        }
    }
}

/// The imm20/imm12 split of a value is unique.
pub proof fn lemma_imm_split_unique(v: int, a20: int, a12: int, b20: int, b12: int)
    requires
        is_imm_split(v, a20, a12),
        is_imm_split(v, b20, b12),
    ensures
        a20 == b20 && a12 == b12,
{
}

/// Every value in `[imm_min(), imm_max()]` has an imm20/imm12 split, and no
/// value outside it has one.
pub proof fn lemma_imm_split_exists(v: int)
    ensures
        (imm_min_spec() <= v <= imm_max_spec()) <==> exists|imm20: int, imm12: int|
            #![trigger is_imm_split(v, imm20, imm12)]
            is_imm_split(v, imm20, imm12),
{
    if imm_min_spec() <= v <= imm_max_spec() {
        let q = (v + 2048) / 4096;
        let r = (v + 2048) % 4096;
        assert(is_imm_split(v, q, r - 2048));
    }
}

} // verus!
