//! Bit-level helpers shared by the CPU and the bus.
use vstd::prelude::*;

verus! {

/// Bit `i` of `x`.
pub open spec fn bit(x: u32, i: u32) -> bool {
    (x >> i) & 1u32 == 1u32
}

/// `x` with bit `i` forced to `v`.
pub open spec fn with_bit(x: u32, i: u32, v: bool) -> u32 {
    if v {
        x | (1u32 << i)
    } else {
        x & !(1u32 << i)
    }
}

/// The two's-complement value of a 32-bit word.
pub open spec fn signed(x: u32) -> int {
    if x < 0x8000_0000 {
        x as int
    } else {
        x - 0x1_0000_0000
    }
}

/// Whether an integer fits a signed 32-bit word.
pub open spec fn fits_i32(v: int) -> bool {
    -0x8000_0000 <= v <= 0x7FFF_FFFF
}

/// Right rotation of a word by `n` places.
pub open spec fn ror(x: u32, n: u32) -> u32 {
    if n % 32 == 0 {
        x
    } else {
        (x >> (n % 32)) | (x << ((32 - n % 32) as u32))
    }
}

/// Arithmetic (sign-filling) right shift of a word by `n < 32` places.
pub open spec fn asr(x: u32, n: u32) -> u32 {
    if bit(x, 31) {
        (x >> n) | !(0xFFFF_FFFFu32 >> n)
    } else {
        x >> n
    }
}

/// Setting a bit makes it read back as the value written and leaves every
/// other bit as it was.
pub proof fn lemma_with_bit(x: u32, i: u32, v: bool)
    requires
        i < 32,
    ensures
        bit(with_bit(x, i, v), i) == v,
        forall|j: u32| j < 32 && j != i ==> bit(#[trigger] with_bit(x, i, v), j) == bit(x, j),
{
    lemma_with_bit_bv(x, i, v);
}

proof fn lemma_with_bit_bv(x: u32, i: u32, v: bool)
    by (bit_vector)
    requires
        i < 32,
    ensures
        bit(with_bit(x, i, v), i) == v,
        forall|j: u32| j < 32 && j != i ==> bit(#[trigger] with_bit(x, i, v), j) == bit(x, j),
{
}

/// Merging `v` into `o` under `mask` takes each bit from `v` where the
/// mask is set and from `o` elsewhere.
pub proof fn lemma_merge_bits(o: u32, v: u32, mask: u32)
    by (bit_vector)
    ensures
        forall|j: u32| j < 32 ==> #[trigger] bit((o & !mask) | (v & mask), j) == if bit(mask, j) { bit(v, j) } else { bit(o, j) },
{
}

/// The bits of the field masks of the status registers: the top byte and
/// the low byte.
pub proof fn lemma_field_mask_bits(mask: u32, f: bool, c: bool)
    by (bit_vector)
    requires
        mask == (if f { 0xFF00_0000u32 } else { 0u32 }) | (if c { 0x0000_00FFu32 } else { 0u32 }),
    ensures
        forall|j: u32| j < 32 ==> #[trigger] bit(mask, j) == ((24 <= j && f) || (j < 8 && c)),
{
}

/// The ways of reading single bits of a word agree.
pub proof fn lemma_word_bits(x: u32)
    by (bit_vector)
    ensures
        (x & 1u32 != 0) == bit(x, 0),
        (x >> 31u32 != 0) == bit(x, 31),
        (x & 0x8000_0000u32 != 0) == bit(x, 31),
        (asr(x, 31) != 0) == bit(x, 31),
        forall|i: u32| i < 32 ==> (#[trigger] bit(x, i)) == ((x >> i) & 1u32 != 0),
        forall|i: u32| i < 32 ==> (#[trigger] bit(x, i)) == (x & (1u32 << i) != 0),
        forall|n: u32| #[trigger] (n & 31u32) == n % 32,
        x & !1u32 <= x,
        (x & !1u32) == x || (x & !1u32) + 1 == x,
        x & 0x3FFu32 == x & 0x3FEu32 || x & 0x3FFu32 == (x & 0x3FEu32) + 1,
        x >> 28u32 < 16,
{
}

/// Testing a bit with a one-bit mask is reading it.
pub proof fn lemma_mask_bit(x: u32, i: u32)
    requires
        i < 32,
    ensures
        (x & (1u32 << i) != 0) == bit(x, i),
{
    lemma_word_bits(x);
}

/// Rotation of a word by `n` places, `n` taken modulo 32.
pub fn ror32(x: u32, n: u32) -> (r: u32)
    ensures
        r == ror(x, n),
{
    let k = n % 32;
    if k == 0 {
        x
    } else {
        (x >> k) | (x << (32 - k))
    }
}

/// Arithmetic right shift of a word by `n < 32` places.
pub fn asr32(x: u32, n: u32) -> (r: u32)
    requires
        n < 32,
    ensures
        r == asr(x, n),
{
    if (x >> 31u32) & 1 == 1 {
        (x >> n) | !(0xFFFF_FFFFu32 >> n)
    } else {
        x >> n
    }
}

/// A masked word is at most the mask.
pub broadcast proof fn lemma_and_le(x: u32, m: u32)
    ensures
        #[trigger] (x & m) <= m,
{
    assert((x & m) <= m) by (bit_vector);
}

/// A masked halfword is at most the mask.
pub broadcast proof fn lemma_and_le16(x: u16, m: u16)
    ensures
        #[trigger] (x & m) <= m,
{
    assert((x & m) <= m) by (bit_vector);
}

/// A byte sign-extended to a word.
pub open spec fn sext8(b: u8) -> u32 {
    if b & 0x80u8 != 0 { (b as u32) | 0xFFFF_FF00u32 } else { b as u32 }
}

/// A halfword sign-extended to a word.
pub open spec fn sext16(h: u16) -> u32 {
    if h & 0x8000u16 != 0 { (h as u32) | 0xFFFF_0000u32 } else { h as u32 }
}

/// Sign extension keeps the signed value of the byte.
pub proof fn lemma_sext8(b: u8)
    ensures
        signed(sext8(b)) == if b < 0x80 { b as int } else { b - 0x100 },
{
    assert((b & 0x80u8 != 0) == (b >= 0x80) && (b >= 0x80 ==> (b as u32) | 0xFFFF_FF00u32 == b + 0xFFFF_FF00u32))
        by (bit_vector);
}

/// Sign extension keeps the signed value of the halfword.
pub proof fn lemma_sext16(h: u16)
    ensures
        signed(sext16(h)) == if h < 0x8000 { h as int } else { h - 0x1_0000 },
{
    assert((h & 0x8000u16 != 0) == (h >= 0x8000) && (h >= 0x8000 ==> (h as u32) | 0xFFFF_0000u32 == h + 0xFFFF_0000u32))
        by (bit_vector);
}

/// A byte sign-extended to a word.
pub fn sign_extend8(b: u8) -> (r: u32)
    ensures
        r == sext8(b),
{
    if b & 0x80 != 0 { (b as u32) | 0xFFFF_FF00 } else { b as u32 }
}

/// A halfword sign-extended to a word.
pub fn sign_extend16(h: u16) -> (r: u32)
    ensures
        r == sext16(h),
{
    if h & 0x8000 != 0 { (h as u32) | 0xFFFF_0000 } else { h as u32 }
}

/// The number of set bits among the low `n` bits of `x`.
pub open spec fn popcount(x: u32, n: nat) -> nat
    decreases n,
{
    if n == 0 {
        0
    } else {
        popcount(x, (n - 1) as nat) + if bit(x, (n - 1) as u32) { 1nat } else { 0nat }
    }
}

/// The number of set bits of a word.
pub fn count_ones(x: u32) -> (r: u32)
    ensures
        r == popcount(x, 32),
{
    let mut n: u32 = 0;
    let mut i: u32 = 0;
    while i < 32
        invariant
            i <= 32,
            n == popcount(x, i as nat),
            n <= i,
        decreases 32 - i,
    {
        assert(((x >> i) & 1 == 1) == bit(x, i));
        if (x >> i) & 1 == 1 {
            n = n + 1;
        }
        i = i + 1;
    }
    n
}

} // verus!
