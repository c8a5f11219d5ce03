//! ARM7TDMI register file, status registers and the shared ALU / shifter.
use vstd::prelude::*;
use crate::bits::{bit, with_bit, lemma_with_bit, lemma_mask_bit, lemma_word_bits, signed, fits_i32, ror, asr, ror32, asr32};
use crate::mem_map::{MemView, mem_read16, mem_read32};
use crate::memory::{Bus, BusView};
use crate::cpu::arm::arm_step;
use crate::cpu::thumb::thumb_step;

verus! {

/// ARM7TDMI operating modes.
#[derive(Debug, Clone, Copy, PartialEq, Eq, Structural)]
pub enum Mode {
    User,
    Fiq,
    Irq,
    Supervisor,
    Abort,
    Undefined,
    System,
}

/// The mode that five mode bits select; unknown encodings fall back to User.
pub open spec fn mode_of_bits(bits: u8) -> Mode {
    let b = bits & 0x1Fu8;
    if b == 0x10 {
        Mode::User
    } else if b == 0x11 {
        Mode::Fiq
    } else if b == 0x12 {
        Mode::Irq
    } else if b == 0x13 {
        Mode::Supervisor
    } else if b == 0x17 {
        Mode::Abort
    } else if b == 0x1B {
        Mode::Undefined
    } else if b == 0x1F {
        Mode::System
    } else {
        Mode::User
    }
}

/// The CPSR encoding of a mode.
pub open spec fn mode_bits(m: Mode) -> u32 {
    match m {
        Mode::User => 0x10,
        Mode::Fiq => 0x11,
        Mode::Irq => 0x12,
        Mode::Supervisor => 0x13,
        Mode::Abort => 0x17,
        Mode::Undefined => 0x1B,
        Mode::System => 0x1F,
    }
}

/// Which bank of saved registers a mode uses (User and System share one).
pub open spec fn bank_of(m: Mode) -> int {
    match m {
        Mode::User | Mode::System => 0,
        Mode::Fiq => 1,
        Mode::Irq => 2,
        Mode::Supervisor => 3,
        Mode::Abort => 4,
        Mode::Undefined => 5,
    }
}

impl Mode {
    /// The mode that the low five bits select (User for unknown encodings).
    pub fn from_bits(bits: u8) -> (r: Mode)
        ensures
            r == mode_of_bits(bits),
    {
        let b = bits & 0x1F;
        if b == 0x10 {
            Mode::User
        } else if b == 0x11 {
            Mode::Fiq
        } else if b == 0x12 {
            Mode::Irq
        } else if b == 0x13 {
            Mode::Supervisor
        } else if b == 0x17 {
            Mode::Abort
        } else if b == 0x1B {
            Mode::Undefined
        } else if b == 0x1F {
            Mode::System
        } else {
            Mode::User
        }
    }

    /// Index into banked register arrays.
    pub fn bank_index(self) -> (r: usize)
        ensures
            r == bank_of(self),
            r < 6,
    {
        match self {
            Mode::User | Mode::System => 0,
            Mode::Fiq => 1,
            Mode::Irq => 2,
            Mode::Supervisor => 3,
            Mode::Abort => 4,
            Mode::Undefined => 5,
        }
    }

    /// The CPSR encoding of this mode.
    pub fn bits(self) -> (r: u32)
        ensures
            r == mode_bits(self),
    {
        match self {
            Mode::User => 0x10,
            Mode::Fiq => 0x11,
            Mode::Irq => 0x12,
            Mode::Supervisor => 0x13,
            Mode::Abort => 0x17,
            Mode::Undefined => 0x1B,
            Mode::System => 0x1F,
        }
    }
}

/// Decoding the encoding of a mode gives the mode back.
pub proof fn lemma_mode_bits_roundtrip(m: Mode)
    ensures
        mode_of_bits(mode_bits(m) as u8) == m,
        mode_bits(m) < 0x20,
{
    assert(0x10u8 & 0x1F == 0x10 && 0x11u8 & 0x1F == 0x11 && 0x12u8 & 0x1F == 0x12 && 0x13u8 & 0x1F == 0x13
        && 0x17u8 & 0x1F == 0x17 && 0x1Bu8 & 0x1F == 0x1B && 0x1Fu8 & 0x1F == 0x1F) by (bit_vector);
}

// Flag positions in a program status register.
pub open spec fn flag_n(p: u32) -> bool { bit(p, 31) }
pub open spec fn flag_z(p: u32) -> bool { bit(p, 30) }
pub open spec fn flag_c(p: u32) -> bool { bit(p, 29) }
pub open spec fn flag_v(p: u32) -> bool { bit(p, 28) }
pub open spec fn flag_i(p: u32) -> bool { bit(p, 7) }
pub open spec fn flag_f(p: u32) -> bool { bit(p, 6) }
pub open spec fn flag_t(p: u32) -> bool { bit(p, 5) }

/// The mode field of a program status register.
pub open spec fn psr_mode(p: u32) -> Mode {
    mode_of_bits((p & 0x1F) as u8)
}

/// A status word with its mode field replaced.
pub open spec fn psr_with_mode(p: u32, m: Mode) -> u32 {
    (p & !0x1Fu32) | mode_bits(m)
}

/// A status word with N and Z set from a result.
pub open spec fn psr_with_nz(p: u32, val: u32) -> u32 {
    with_bit(with_bit(p, 31, bit(val, 31)), 30, val == 0)
}

/// CPSR / SPSR flags.
pub struct Psr(pub u32);

impl Psr {
    pub fn n(&self) -> (r: bool)
        ensures r == flag_n(self.0),
    {
        proof { lemma_mask_bit(self.0, 31); }
        self.0 & (1u32 << 31u32) != 0
    }

    pub fn z(&self) -> (r: bool)
        ensures r == flag_z(self.0),
    {
        proof { lemma_mask_bit(self.0, 30); }
        self.0 & (1u32 << 30u32) != 0
    }

    pub fn c(&self) -> (r: bool)
        ensures r == flag_c(self.0),
    {
        proof { lemma_mask_bit(self.0, 29); }
        self.0 & (1u32 << 29u32) != 0
    }

    pub fn v(&self) -> (r: bool)
        ensures r == flag_v(self.0),
    {
        proof { lemma_mask_bit(self.0, 28); }
        self.0 & (1u32 << 28u32) != 0
    }

    /// IRQ disable.
    pub fn i(&self) -> (r: bool)
        ensures r == flag_i(self.0),
    {
        proof { lemma_mask_bit(self.0, 7); }
        self.0 & (1u32 << 7u32) != 0
    }

    /// FIQ disable.
    pub fn f(&self) -> (r: bool)
        ensures r == flag_f(self.0),
    {
        proof { lemma_mask_bit(self.0, 6); }
        self.0 & (1u32 << 6u32) != 0
    }

    /// Thumb state.
    pub fn t(&self) -> (r: bool)
        ensures r == flag_t(self.0),
    {
        proof { lemma_mask_bit(self.0, 5); }
        self.0 & (1u32 << 5u32) != 0
    }

    /// The mode the mode field selects.
    pub fn mode(&self) -> (r: Mode)
        ensures r == psr_mode(self.0),
    {
        Mode::from_bits((self.0 & 0x1F) as u8)
    }

    pub fn set_n(&mut self, v: bool)
        ensures final(self).0 == with_bit(old(self).0, 31, v),
    {
        self.set_bit(31, v);
    }

    pub fn set_z(&mut self, v: bool)
        ensures final(self).0 == with_bit(old(self).0, 30, v),
    {
        self.set_bit(30, v);
    }

    pub fn set_c(&mut self, v: bool)
        ensures final(self).0 == with_bit(old(self).0, 29, v),
    {
        self.set_bit(29, v);
    }

    pub fn set_v(&mut self, v: bool)
        ensures final(self).0 == with_bit(old(self).0, 28, v),
    {
        self.set_bit(28, v);
    }

    pub fn set_i(&mut self, v: bool)
        ensures final(self).0 == with_bit(old(self).0, 7, v),
    {
        self.set_bit(7, v);
    }

    pub fn set_t(&mut self, v: bool)
        ensures final(self).0 == with_bit(old(self).0, 5, v),
    {
        self.set_bit(5, v);
    }

    fn set_bit(&mut self, bit: u32, v: bool)
        requires bit < 32,
        ensures final(self).0 == with_bit(old(self).0, bit, v),
    {
        if v {
            self.0 = self.0 | (1u32 << bit);
        } else {
            self.0 = self.0 & !(1u32 << bit);
        }
    }

    /// Replace the mode field.
    pub fn set_mode(&mut self, mode: Mode)
        ensures final(self).0 == psr_with_mode(old(self).0, mode),
    {
        self.0 = (self.0 & !0x1Fu32) | mode.bits();
    }

    /// Set N and Z from a result.
    pub fn set_nz(&mut self, val: u32)
        ensures final(self).0 == psr_with_nz(old(self).0, val),
    {
        proof { lemma_word_bits(val); }
        self.set_n(val & 0x8000_0000 != 0);
        self.set_z(val == 0);
    }
}

/// Setting the mode field makes it read back as that mode and keeps the
/// flag and control bits above it.
pub proof fn lemma_psr_with_mode(p: u32, m: Mode)
    ensures
        psr_mode(psr_with_mode(p, m)) == m,
        forall|j: u32| 5 <= j < 32 ==> bit(#[trigger] psr_with_mode(p, m), j) == bit(p, j),
{
    lemma_mode_bits_roundtrip(m);
    lemma_low_field(p, mode_bits(m));
}

proof fn lemma_low_field(p: u32, b: u32)
    by (bit_vector)
    requires
        b < 0x20,
    ensures
        ((((p & !0x1Fu32) | b) & 0x1F) as u8) == (b as u8),
        forall|j: u32| 5 <= j < 32 ==> bit(#[trigger] ((p & !0x1Fu32) | b), j) == bit(p, j),
{
}


/// The word that an integer leaves in a 32-bit register.
pub open spec fn wrap32(v: int) -> u32 {
    (v % 0x1_0000_0000) as u32
}

/// A status word with C and V replaced.
pub open spec fn psr_with_cv(p: u32, c: bool, v: bool) -> u32 {
    with_bit(with_bit(p, 29, c), 28, v)
}

/// Whether condition field `cond` passes under status word `p`.
pub open spec fn cond_holds(p: u32, cond: u32) -> bool {
    let (n, z, c, v) = (flag_n(p), flag_z(p), flag_c(p), flag_v(p));
    if cond == 0x0 { z }
    else if cond == 0x1 { !z }
    else if cond == 0x2 { c }
    else if cond == 0x3 { !c }
    else if cond == 0x4 { n }
    else if cond == 0x5 { !n }
    else if cond == 0x6 { v }
    else if cond == 0x7 { !v }
    else if cond == 0x8 { c && !z }
    else if cond == 0x9 { !c || z }
    else if cond == 0xA { n == v }
    else if cond == 0xB { n != v }
    else if cond == 0xC { !z && n == v }
    else if cond == 0xD { z || n != v }
    else { true }
}

/// The barrel shifter: shift type (LSL, LSR, ASR, ROR), operand, amount and
/// carry in give the shifted value and the carry out.
#[verifier::opaque]
pub open spec fn shifter(shift_type: u32, x: u32, amount: u32, carry_in: bool) -> (u32, bool) {
    if amount == 0 {
        (x, carry_in)
    } else if shift_type == 0 {
        if amount >= 32 {
            (0, amount == 32 && bit(x, 0))
        } else {
            (x << amount, bit(x, (32 - amount) as u32))
        }
    } else if shift_type == 1 {
        if amount >= 32 {
            (0, amount == 32 && bit(x, 31))
        } else {
            (x >> amount, bit(x, (amount - 1) as u32))
        }
    } else if shift_type == 2 {
        if amount >= 32 {
            (asr(x, 31), bit(x, 31))
        } else {
            (asr(x, amount), bit(x, (amount - 1) as u32))
        }
    } else {
        let a = amount % 32;
        if a == 0 {
            ((x >> 1) | (if carry_in { 0x8000_0000u32 } else { 0u32 }), bit(x, 0))
        } else {
            (ror(x, a), bit(ror(x, a), 31))
        }
    }
}

/// The value an ALU opcode computes (for the compare opcodes, the value that
/// sets the flags).
pub open spec fn alu_value(opcode: u32, op1: u32, op2: u32, carry: bool) -> u32 {
    let c: int = if carry { 1 } else { 0 };
    if opcode == 0x0 || opcode == 0x8 { op1 & op2 }
    else if opcode == 0x1 || opcode == 0x9 { op1 ^ op2 }
    else if opcode == 0x2 || opcode == 0xA { wrap32(op1 - op2) }
    else if opcode == 0x3 { wrap32(op2 - op1) }
    else if opcode == 0x4 || opcode == 0xB { wrap32(op1 + op2) }
    else if opcode == 0x5 { wrap32(op1 + op2 + c) }
    else if opcode == 0x6 { wrap32(op1 - op2 - (1 - c)) }
    else if opcode == 0x7 { wrap32(op2 - op1 - (1 - c)) }
    else if opcode == 0xC { op1 | op2 }
    else if opcode == 0xD { op2 }
    else if opcode == 0xE { op1 & !op2 }
    else { !op2 }
}

/// What `alu_op` returns: nothing for the compare/test opcodes.
pub open spec fn alu_result(opcode: u32, op1: u32, op2: u32, carry: bool) -> Option<u32> {
    if 0x8 <= opcode <= 0xB { None } else { Some(alu_value(opcode, op1, op2, carry)) }
}

/// The status word after an ALU operation. C is the unsigned carry (or
/// not-borrow) and V the signed overflow of the exact integer result.
#[verifier::opaque]
pub open spec fn alu_psr(p: u32, opcode: u32, op1: u32, op2: u32, set_flags: bool, carry: bool) -> u32 {
    let c: int = if carry { 1 } else { 0 };
    let q = psr_with_nz(p, alu_value(opcode, op1, op2, carry));
    if !set_flags {
        p
    } else if opcode == 0x2 || opcode == 0xA {
        psr_with_cv(q, op1 >= op2, !fits_i32(signed(op1) - signed(op2)))
    } else if opcode == 0x3 {
        psr_with_cv(q, op2 >= op1, !fits_i32(signed(op2) - signed(op1)))
    } else if opcode == 0x4 || opcode == 0xB {
        psr_with_cv(q, op1 + op2 > 0xFFFF_FFFF, !fits_i32(signed(op1) + signed(op2)))
    } else if opcode == 0x5 {
        psr_with_cv(q, op1 + op2 + c > 0xFFFF_FFFF, !fits_i32(signed(op1) + signed(op2) + c))
    } else if opcode == 0x6 {
        psr_with_cv(q, op1 - op2 - (1 - c) >= 0, !fits_i32(signed(op1) - signed(op2) - (1 - c)))
    } else {
        q
    }
}

/// The overflow test used on additions: operands of equal sign, result of
/// the other sign.
proof fn lemma_add_overflow(a: u32, b: u32, c: u32, r: u32)
    requires
        c <= 1,
        r == a + b + c || r == a + b + c - 0x1_0000_0000,
    ensures
        ((!(a ^ b) & (a ^ r)) >> 31u32 != 0) == !fits_i32(signed(a) + signed(b) + c),
{
    assert(((!(a ^ b) & (a ^ r)) >> 31u32 != 0) == !fits_i32(signed(a) + signed(b) + c)) by (bit_vector)
        requires
            c <= 1,
            r == a + b + c || r == a + b + c - 0x1_0000_0000,
    ;
}

/// The overflow test used on subtractions: operands of different sign,
/// result of the subtrahend's sign.
pub(crate) proof fn lemma_sub_overflow(a: u32, b: u32, c: u32, r: u32)
    requires
        c <= 1,
        r == a - b - c || r == a - b - c + 0x1_0000_0000,
    ensures
        (((a ^ b) & (a ^ r)) >> 31u32 != 0) == !fits_i32(signed(a) - signed(b) - c),
{
    assert((((a ^ b) & (a ^ r)) >> 31u32 != 0) == !fits_i32(signed(a) - signed(b) - c)) by (bit_vector)
        requires
            c <= 1,
            r == a - b - c || r == a - b - c + 0x1_0000_0000,
    ;
}


/// Each condition code reads the status flags N (bit 31), Z (bit 30),
/// C (bit 29) and V (bit 28): EQ holds when Z is set, CS when C is set, MI
/// when N is set, VS when V is set, HI when C is set and Z clear, GE when N
/// equals V, GT when GE holds and Z is clear, AL always; every odd code
/// (NE, CC, PL, VC, LS, LT, LE) holds exactly when the even code before it
/// fails.
pub proof fn lemma_condition_codes(p: u32)
    ensures
        cond_holds(p, 0x0) == bit(p, 30),
        cond_holds(p, 0x2) == bit(p, 29),
        cond_holds(p, 0x4) == bit(p, 31),
        cond_holds(p, 0x6) == bit(p, 28),
        cond_holds(p, 0x8) == (cond_holds(p, 0x2) && !cond_holds(p, 0x0)),
        cond_holds(p, 0xA) == (cond_holds(p, 0x4) == cond_holds(p, 0x6)),
        cond_holds(p, 0xC) == (cond_holds(p, 0xA) && !cond_holds(p, 0x0)),
        cond_holds(p, 0xE),
        forall|k: u32| k < 14 && k % 2 == 0 ==> cond_holds(p, (k + 1) as u32) == !#[trigger] cond_holds(p, k),
{
    assert forall|k: u32| k < 14 && k % 2 == 0 implies cond_holds(p, (k + 1) as u32) == !#[trigger] cond_holds(p, k) by {
        assert(k == 0 || k == 2 || k == 4 || k == 6 || k == 8 || k == 10 || k == 12);
    }
}

/// The barrel shifter by an amount `n` with 1 <= n < 32 carries out the
/// last bit shifted out: bit 32 - n of the operand for LSL, bit n - 1 for
/// LSR and ASR. LSL and LSR fill with zeros; ASR keeps the operand's bits
/// above the shift and fills the top `n` bits with copies of bit 31; ROR
/// rotates and carries out bit 31 of its result.
pub proof fn lemma_shift_by_register_width(x: u32, n: u32, carry_in: bool)
    requires
        1 <= n < 32,
    ensures
        shifter(0, x, n, carry_in) == (x << n, bit(x, (32 - n) as u32)),
        shifter(1, x, n, carry_in) == (x >> n, bit(x, (n - 1) as u32)),
        shifter(2, x, n, carry_in).1 == bit(x, (n - 1) as u32),
        shifter(2, x, n, carry_in).0 & (0xFFFF_FFFFu32 >> n) == x >> n,
        shifter(2, x, n, carry_in).0 >> ((32 - n) as u32)
            == if bit(x, 31) { 0xFFFF_FFFFu32 >> ((32 - n) as u32) } else { 0u32 },
        shifter(3, x, n, carry_in).0 == (x >> n) | (x << ((32 - n) as u32)),
        shifter(3, x, n, carry_in).1 == bit(shifter(3, x, n, carry_in).0, 31),
{
    reveal(shifter);
    let r = asr(x, n);
    assert(r & (0xFFFF_FFFFu32 >> n) == x >> n
        && r >> ((32 - n) as u32) == if (x >> 31u32) & 1u32 == 1u32 { 0xFFFF_FFFFu32 >> ((32 - n) as u32) } else { 0u32 })
        by (bit_vector)
        requires
            1 <= n < 32,
            r == if (x >> 31u32) & 1u32 == 1u32 { (x >> n) | !(0xFFFF_FFFFu32 >> n) } else { x >> n };
    assert(n % 32 == n);
}

/// Shifts by 0 pass operand and carry through. By 32 or more, LSL and LSR
/// give 0 (carrying out bit 0 or bit 31 at exactly 32, nothing beyond) and
/// ASR gives what ASR by 31 gives (every bit a copy of bit 31), carrying
/// out bit 31. ROR by a non-zero multiple of 32 rotates right by one
/// through the carry (RRX).
pub proof fn lemma_shift_wide(x: u32, n: u32, t: u32, carry_in: bool)
    requires
        t < 4,
    ensures
        shifter(t, x, 0, carry_in) == (x, carry_in),
        n >= 32 ==> shifter(0, x, n, carry_in) == (0u32, n == 32 && bit(x, 0)),
        n >= 32 ==> shifter(1, x, n, carry_in) == (0u32, n == 32 && bit(x, 31)),
        n >= 32 ==> shifter(2, x, n, carry_in) == (shifter(2, x, 31, carry_in).0, bit(x, 31)),
        n != 0 && n % 32 == 0 ==> shifter(3, x, n, carry_in)
            == ((x >> 1u32) | (if carry_in { 0x8000_0000u32 } else { 0u32 }), bit(x, 0)),
{
    reveal(shifter);
}

/// Setting the flags of a status word: N, Z, C and V read back as given
/// and every lower bit stays.
pub(crate) proof fn lemma_nzcv(p: u32, val: u32, cb: bool, vb: bool)
    ensures
        ({
            let q = psr_with_cv(psr_with_nz(p, val), cb, vb);
            &&& bit(q, 31) == bit(val, 31)
            &&& bit(q, 30) == (val == 0)
            &&& bit(q, 29) == cb
            &&& bit(q, 28) == vb
            &&& forall|j: u32| j < 28 ==> #[trigger] bit(q, j) == bit(p, j)
        }),
        ({
            let q = psr_with_nz(p, val);
            &&& bit(q, 31) == bit(val, 31)
            &&& bit(q, 30) == (val == 0)
            &&& forall|j: u32| j < 30 ==> #[trigger] bit(q, j) == bit(p, j)
        }),
{
    let q1 = with_bit(p, 31, bit(val, 31));
    let q2 = with_bit(q1, 30, val == 0);
    let q3 = with_bit(q2, 29, cb);
    lemma_with_bit(p, 31, bit(val, 31));
    lemma_with_bit(q1, 30, val == 0);
    lemma_with_bit(q2, 29, cb);
    lemma_with_bit(q3, 28, vb);
}

/// An integer in [-2^32, 2^33) wraps to itself, or one 2^32 away.
pub(crate) proof fn lemma_wrap32_near(v: int)
    requires
        -0x1_0000_0000 <= v < 0x2_0000_0000,
    ensures
        wrap32(v) == v || wrap32(v) == v + 0x1_0000_0000 || wrap32(v) == v - 0x1_0000_0000,
        0 <= v < 0x1_0000_0000 ==> wrap32(v) == v,
{
}

/// The values the ALU computes, modulo 2^32: AND, EOR, ORR, BIC, MOV and
/// MVN are the bitwise operations; SUB gives the `r` with r + op2 = op1,
/// RSB the `r` with r + op1 = op2, ADD op1 + op2; ADC is ADD, plus one when
/// the carry in is set; SBC and RSC are SUB and RSB when the carry in is
/// set and one less when it is clear; TST, TEQ, CMP and CMN compute what
/// AND, EOR, SUB and ADD do and write nothing back.
pub proof fn lemma_alu_values(a: u32, b: u32, carry: bool)
    ensures
        alu_value(0x0, a, b, carry) == a & b,
        alu_value(0x1, a, b, carry) == a ^ b,
        (alu_value(0x2, a, b, carry) + b) % 0x1_0000_0000 == a,
        (alu_value(0x3, a, b, carry) + a) % 0x1_0000_0000 == b,
        alu_value(0x4, a, b, carry) == (a + b) % 0x1_0000_0000,
        alu_value(0x5, a, b, false) == alu_value(0x4, a, b, carry),
        alu_value(0x5, a, b, true) == (alu_value(0x4, a, b, carry) + 1) % 0x1_0000_0000,
        alu_value(0x6, a, b, true) == alu_value(0x2, a, b, carry),
        (alu_value(0x6, a, b, false) + 1) % 0x1_0000_0000 == alu_value(0x2, a, b, carry),
        alu_value(0x7, a, b, true) == alu_value(0x3, a, b, carry),
        (alu_value(0x7, a, b, false) + 1) % 0x1_0000_0000 == alu_value(0x3, a, b, carry),
        alu_value(0xC, a, b, carry) == a | b,
        alu_value(0xD, a, b, carry) == b,
        alu_value(0xE, a, b, carry) == a & !b,
        alu_value(0xF, a, b, carry) == !b,
        alu_value(0x8, a, b, carry) == alu_value(0x0, a, b, carry) && alu_result(0x8, a, b, carry) is None,
        alu_value(0x9, a, b, carry) == alu_value(0x1, a, b, carry) && alu_result(0x9, a, b, carry) is None,
        alu_value(0xA, a, b, carry) == alu_value(0x2, a, b, carry) && alu_result(0xA, a, b, carry) is None,
        alu_value(0xB, a, b, carry) == alu_value(0x4, a, b, carry) && alu_result(0xB, a, b, carry) is None,
        forall|op: u32| op < 0x8 || 0xB < op ==> #[trigger] alu_result(op, a, b, carry) == Some(alu_value(op, a, b, carry)),
{
    lemma_wrap32_near(a - b);
    lemma_wrap32_near(b - a);
    lemma_wrap32_near(a + b);
    lemma_wrap32_near(a + b + 1);
    lemma_wrap32_near(a - b - 1);
    lemma_wrap32_near(b - a - 1);
}

/// The flags the ALU sets. Without S the status word is unchanged. With S,
/// N is bit 31 of the value and Z whether it is 0; C is the unsigned carry
/// out of ADD, ADC and CMN, and "no borrow" for SUB, CMP, RSB and SBC (SBC
/// borrows one more when the carry in is clear); V is the signed overflow:
/// for additions, operands of one sign and a result of the other, for
/// subtractions, operands of different signs and a result of the
/// subtrahend's sign. The logical opcodes and RSC leave C and V as they
/// were, and bits 27..0 never change.
pub proof fn lemma_alu_flags(p: u32, opcode: u32, a: u32, b: u32, carry: bool)
    requires
        opcode < 16,
    ensures
        alu_psr(p, opcode, a, b, false, carry) == p,
        ({
            let q = alu_psr(p, opcode, a, b, true, carry);
            let r = alu_value(opcode, a, b, carry);
            let cin: int = if carry { 1 } else { 0 };
            &&& bit(q, 31) == bit(r, 31)
            &&& bit(q, 30) == (r == 0)
            &&& forall|j: u32| j < 28 ==> #[trigger] bit(q, j) == bit(p, j)
            &&& (opcode == 0x2 || opcode == 0xA) ==> bit(q, 29) == (a >= b)
                && bit(q, 28) == (((a ^ b) & (a ^ r)) >> 31u32 != 0)
            &&& opcode == 0x3 ==> bit(q, 29) == (b >= a) && bit(q, 28) == (((b ^ a) & (b ^ r)) >> 31u32 != 0)
            &&& (opcode == 0x4 || opcode == 0xB) ==> bit(q, 29) == (a + b >= 0x1_0000_0000)
                && bit(q, 28) == ((!(a ^ b) & (a ^ r)) >> 31u32 != 0)
            &&& opcode == 0x5 ==> bit(q, 29) == (a + b + cin >= 0x1_0000_0000)
                && bit(q, 28) == ((!(a ^ b) & (a ^ r)) >> 31u32 != 0)
            &&& opcode == 0x6 ==> bit(q, 29) == (a >= b + 1 - cin) && bit(q, 28) == (((a ^ b) & (a ^ r)) >> 31u32 != 0)
            &&& !(0x2 <= opcode <= 0x6 || opcode == 0xA || opcode == 0xB)
                ==> bit(q, 29) == bit(p, 29) && bit(q, 28) == bit(p, 28)
        }),
{
    reveal(alu_psr);
    let c: int = if carry { 1 } else { 0 };
    let r = alu_value(opcode, a, b, carry);
    lemma_nzcv(p, r, true, true);
    if opcode == 0x2 || opcode == 0xA {
        lemma_wrap32_near(a - b);
        lemma_sub_overflow(a, b, 0, r);
        lemma_nzcv(p, r, a >= b, !fits_i32(signed(a) - signed(b)));
    } else if opcode == 0x3 {
        lemma_wrap32_near(b - a);
        lemma_sub_overflow(b, a, 0, r);
        lemma_nzcv(p, r, b >= a, !fits_i32(signed(b) - signed(a)));
    } else if opcode == 0x4 || opcode == 0xB {
        lemma_wrap32_near(a + b);
        lemma_add_overflow(a, b, 0, r);
        lemma_nzcv(p, r, a + b > 0xFFFF_FFFF, !fits_i32(signed(a) + signed(b)));
    } else if opcode == 0x5 {
        lemma_wrap32_near(a + b + c);
        lemma_add_overflow(a, b, c as u32, r);
        lemma_nzcv(p, r, a + b + c > 0xFFFF_FFFF, !fits_i32(signed(a) + signed(b) + c));
    } else if opcode == 0x6 {
        lemma_wrap32_near(a - b - (1 - c));
        lemma_sub_overflow(a, b, (1 - c) as u32, r);
        lemma_nzcv(p, r, a - b - (1 - c) >= 0, !fits_i32(signed(a) - signed(b) - (1 - c)));
    }
}

/// The register file seen as sequences.
#[verifier::ext_equal]
pub ghost struct CpuView {
    pub regs: Seq<u32>,
    pub cpsr: u32,
    pub spsr: Seq<u32>,
    pub banked_r13: Seq<u32>,
    pub banked_r14: Seq<u32>,
    pub fiq_r8_r12: Seq<u32>,
    pub usr_r8_r12: Seq<u32>,
    pub pipeline: Seq<u32>,
    pub pipeline_valid: bool,
}

impl CpuView {
    pub open spec fn with_reg(self, i: int, v: u32) -> CpuView {
        CpuView { regs: self.regs.update(i, v), ..self }
    }

    pub open spec fn with_cpsr(self, p: u32) -> CpuView {
        CpuView { cpsr: p, ..self }
    }

    pub open spec fn mode(self) -> Mode {
        psr_mode(self.cpsr)
    }
}

/// `regs` with r8-r12 replaced by `five`.
pub open spec fn splice_r8_r12(regs: Seq<u32>, five: Seq<u32>) -> Seq<u32> {
    regs.subrange(0, 8) + five + regs.subrange(13, 16)
}

/// The register file after a switch to `new_mode`: the old mode's r13/r14
/// (and r8-r12 when leaving or entering FIQ) are banked, the new mode's are
/// restored, the old CPSR goes to the new mode's SPSR.
#[verifier::opaque]
pub open spec fn switched_mode(s: CpuView, new_mode: Mode) -> CpuView {
    let old_mode = psr_mode(s.cpsr);
    if old_mode == new_mode {
        s
    } else {
        let nb = bank_of(new_mode);
        let ob = bank_of(old_mode);
        let r13 = s.banked_r13.update(ob, s.regs[13]);
        let r14 = s.banked_r14.update(ob, s.regs[14]);
        let regs = s.regs.update(13, r13[nb]).update(14, r14[nb]);
        let hi = regs.subrange(8, 13);
        let regs2 = if old_mode == Mode::Fiq {
            splice_r8_r12(regs, s.usr_r8_r12)
        } else if new_mode == Mode::Fiq {
            splice_r8_r12(regs, s.fiq_r8_r12)
        } else {
            regs
        };
        let fiq = if old_mode == Mode::Fiq { hi } else { s.fiq_r8_r12 };
        let usr = if old_mode != Mode::Fiq && new_mode == Mode::Fiq { hi } else { s.usr_r8_r12 };
        CpuView {
            regs: regs2,
            cpsr: psr_with_mode(s.cpsr, new_mode),
            spsr: s.spsr.update(nb, s.cpsr),
            banked_r13: r13,
            banked_r14: r14,
            fiq_r8_r12: fiq,
            usr_r8_r12: usr,
            ..s
        }
    }
}

pub struct Cpu {
    /// General purpose registers r0-r15
    /// r13 = SP, r14 = LR, r15 = PC
    pub regs: [u32; 16],
    /// Current Program Status Register
    pub cpsr: Psr,
    /// Saved PSRs for each mode (indexed by Mode::bank_index)
    pub spsr: [u32; 6],
    /// Banked registers: r13, r14 for each mode
    pub banked_r13: [u32; 6],
    pub banked_r14: [u32; 6],
    /// FIQ has extra banked registers r8-r12
    pub fiq_r8_r12: [u32; 5],
    pub usr_r8_r12: [u32; 5],
    /// Pipeline state: prefetch buffer
    pub pipeline: [u32; 2],
    pub pipeline_valid: bool,
}

impl View for Cpu {
    type V = CpuView;

    open spec fn view(&self) -> CpuView {
        CpuView {
            regs: self.regs@,
            cpsr: self.cpsr.0,
            spsr: self.spsr@,
            banked_r13: self.banked_r13@,
            banked_r14: self.banked_r14@,
            fiq_r8_r12: self.fiq_r8_r12@,
            usr_r8_r12: self.usr_r8_r12@,
            pipeline: self.pipeline@,
            pipeline_valid: self.pipeline_valid,
        }
    }
}

/// The CPSR at reset: Supervisor mode, IRQ and FIQ disabled, ARM state.
pub open spec fn reset_cpsr() -> u32 {
    0xD3
}

impl Cpu {
    /// The CPU at reset: Supervisor mode, IRQ and FIQ disabled, ARM state.
    pub fn new() -> (cpu: Self)
        ensures
            cpu.regs@ == Seq::new(16, |i: int| 0u32).update(13, 0x0300_7FE0u32),
            cpu.cpsr.0 == reset_cpsr(),
            psr_mode(cpu.cpsr.0) == Mode::Supervisor,
            flag_i(cpu.cpsr.0) && flag_f(cpu.cpsr.0) && !flag_t(cpu.cpsr.0),
            cpu.spsr@ == Seq::new(6, |i: int| 0u32),
            cpu.banked_r13@ == seq![0x0300_7F00u32, 0, 0x0300_7FA0, 0x0300_7FE0, 0, 0],
            cpu.banked_r14@ == Seq::new(6, |i: int| 0u32),
            cpu.fiq_r8_r12@ == Seq::new(5, |i: int| 0u32),
            cpu.usr_r8_r12@ == Seq::new(5, |i: int| 0u32),
            cpu.pipeline@ == seq![0u32, 0],
            !cpu.pipeline_valid,
    {
        let mut cpu = Cpu {
            regs: [0; 16],
            cpsr: Psr(Mode::Supervisor.bits() | (1u32 << 7u32) | (1u32 << 6u32)),
            spsr: [0; 6],
            banked_r13: [0; 6],
            banked_r14: [0; 6],
            fiq_r8_r12: [0; 5],
            usr_r8_r12: [0; 5],
            pipeline: [0; 2],
            pipeline_valid: false,
        };
        cpu.banked_r13[Mode::Irq.bank_index()] = 0x0300_7FA0;
        cpu.banked_r13[Mode::Supervisor.bank_index()] = 0x0300_7FE0;
        cpu.banked_r13[Mode::User.bank_index()] = 0x0300_7F00;
        cpu.regs[13] = 0x0300_7FE0;
        proof {
            let p = reset_cpsr();
            assert(0x13u32 | (1u32 << 7u32) | (1u32 << 6u32) == 0xD3 && (((0xD3u32 & 0x1F) as u8) & 0x1Fu8) == 0x13u8
                && bit(0xD3u32, 7) && bit(0xD3u32, 6) && !bit(0xD3u32, 5)) by (bit_vector);
            assert(cpu.regs@ =~= Seq::new(16, |i: int| 0u32).update(13, 0x0300_7FE0u32));
            assert(cpu.spsr@ =~= Seq::new(6, |i: int| 0u32));
            assert(cpu.banked_r13@ =~= seq![0x0300_7F00u32, 0, 0x0300_7FA0, 0x0300_7FE0, 0, 0]);
            assert(cpu.banked_r14@ =~= Seq::new(6, |i: int| 0u32));
            assert(cpu.fiq_r8_r12@ =~= Seq::new(5, |i: int| 0u32));
            assert(cpu.usr_r8_r12@ =~= Seq::new(5, |i: int| 0u32));
            assert(cpu.pipeline@ =~= seq![0u32, 0]);
        }
        cpu
    }

    /// Get current PC.
    pub fn pc(&self) -> (r: u32)
        ensures r == self.regs@[15],
    {
        self.regs[15]
    }

    /// Enter `new_mode`, banking the registers of the mode left.
    pub fn switch_mode(&mut self, new_mode: Mode)
        ensures
            final(self)@ == switched_mode(old(self)@, new_mode),
    {
        reveal(switched_mode);
        let old_mode = self.cpsr.mode();
        if old_mode == new_mode {
            return;
        }
        let nb = new_mode.bank_index();
        let ob = old_mode.bank_index();
        // Save current CPSR to new mode's SPSR
        self.spsr[nb] = self.cpsr.0;
        // Bank r13, r14
        self.banked_r13[ob] = self.regs[13];
        self.banked_r14[ob] = self.regs[14];
        self.regs[13] = self.banked_r13[nb];
        self.regs[14] = self.banked_r14[nb];
        let ghost mid = self.regs@;
        // FIQ banking of r8-r12
        if old_mode == Mode::Fiq {
            self.fiq_r8_r12[0] = self.regs[8];
            self.fiq_r8_r12[1] = self.regs[9];
            self.fiq_r8_r12[2] = self.regs[10];
            self.fiq_r8_r12[3] = self.regs[11];
            self.fiq_r8_r12[4] = self.regs[12];
            self.regs[8] = self.usr_r8_r12[0];
            self.regs[9] = self.usr_r8_r12[1];
            self.regs[10] = self.usr_r8_r12[2];
            self.regs[11] = self.usr_r8_r12[3];
            self.regs[12] = self.usr_r8_r12[4];
            assert(self.fiq_r8_r12@ =~= mid.subrange(8, 13));
            assert(self.regs@ =~= splice_r8_r12(mid, self.usr_r8_r12@));
        } else if new_mode == Mode::Fiq {
            self.usr_r8_r12[0] = self.regs[8];
            self.usr_r8_r12[1] = self.regs[9];
            self.usr_r8_r12[2] = self.regs[10];
            self.usr_r8_r12[3] = self.regs[11];
            self.usr_r8_r12[4] = self.regs[12];
            self.regs[8] = self.fiq_r8_r12[0];
            self.regs[9] = self.fiq_r8_r12[1];
            self.regs[10] = self.fiq_r8_r12[2];
            self.regs[11] = self.fiq_r8_r12[3];
            self.regs[12] = self.fiq_r8_r12[4];
            assert(self.usr_r8_r12@ =~= mid.subrange(8, 13));
            assert(self.regs@ =~= splice_r8_r12(mid, self.fiq_r8_r12@));
        }
        self.cpsr.set_mode(new_mode);
    }

    /// Check ARM condition codes.
    pub fn check_condition(&self, cond: u32) -> (r: bool)
        requires
            cond < 16,
        ensures
            r == cond_holds(self.cpsr.0, cond),
    {
        let z = self.cpsr.z();
        let c = self.cpsr.c();
        let n = self.cpsr.n();
        let v = self.cpsr.v();
        match cond {
            0x0 => z,
            0x1 => !z,
            0x2 => c,
            0x3 => !c,
            0x4 => n,
            0x5 => !n,
            0x6 => v,
            0x7 => !v,
            0x8 => c && !z,
            0x9 => !c || z,
            0xA => n == v,
            0xB => n != v,
            0xC => !z && (n == v),
            0xD => z || (n != v),
            _ => true,
        }
    }

    /// The barrel shifter used by data processing and transfers.
    pub fn barrel_shift(&self, shift_type: u32, operand: u32, amount: u32, carry_in: bool) -> (r: (u32, bool))
        requires
            shift_type < 4,
        ensures
            r == shifter(shift_type, operand, amount, carry_in),
    {
        reveal(shifter);
        proof { lemma_word_bits(operand); }
        if amount == 0 {
            return (operand, carry_in);
        }
        if shift_type == 0 {
            // LSL
            if amount >= 32 {
                let carry = if amount == 32 { operand & 1 != 0 } else { false };
                (0, carry)
            } else {
                let carry = (operand >> (32 - amount)) & 1 != 0;
                (operand << amount, carry)
            }
        } else if shift_type == 1 {
            // LSR
            if amount >= 32 {
                let carry = if amount == 32 { operand >> 31u32 != 0 } else { false };
                (0, carry)
            } else {
                let carry = (operand >> (amount - 1)) & 1 != 0;
                (operand >> amount, carry)
            }
        } else if shift_type == 2 {
            // ASR
            if amount >= 32 {
                let sign = asr32(operand, 31);
                (sign, sign != 0)
            } else {
                let carry = (operand >> (amount - 1)) & 1 != 0;
                (asr32(operand, amount), carry)
            }
        } else {
            // ROR
            let a = amount & 31;
            if a == 0 {
                // RRX (rotate right extended)
                let carry = operand & 1 != 0;
                let result = (operand >> 1u32) | (if carry_in { 0x8000_0000u32 } else { 0u32 });
                (result, carry)
            } else {
                let result = ror32(operand, a);
                let carry = result >> 31u32 != 0;
                proof { lemma_word_bits(result); }
                (result, carry)
            }
        }
    }

    /// ALU operation helper (shared by ARM and Thumb).
    pub fn alu_op(&mut self, opcode: u32, rd: usize, op1: u32, op2: u32, set_flags: bool, carry: bool) -> (r: Option<u32>)
        requires
            opcode < 16,
        ensures
            r == alu_result(opcode, op1, op2, carry),
            final(self)@ == old(self)@.with_cpsr(alu_psr(old(self).cpsr.0, opcode, op1, op2, set_flags, carry)),
    {
        reveal(alu_psr);
        let result = alu_compute(opcode, op1, op2, carry);
        if set_flags {
            self.cpsr.set_nz(result);
            if opcode == 0x2 || opcode == 0xA {
                // SUB / CMP
                self.set_sub_flags(op1, op2, 0, result);
            } else if opcode == 0x3 {
                // RSB
                self.set_sub_flags(op2, op1, 0, result);
            } else if opcode == 0x4 || opcode == 0xB {
                // ADD / CMN
                self.set_add_flags(op1, op2, 0, result);
            } else if opcode == 0x5 {
                // ADC
                self.set_add_flags(op1, op2, if carry { 1 } else { 0 }, result);
            } else if opcode == 0x6 {
                // SBC: carry is "no borrow"
                self.set_sub_flags(op1, op2, if carry { 0 } else { 1 }, result);
            }
        }
        if 0x8 <= opcode && opcode <= 0xB {
            None
        } else {
            Some(result)
        }
    }

    /// C and V of `a + b + c`, given its wrapped result.
    fn set_add_flags(&mut self, a: u32, b: u32, c: u32, result: u32)
        requires
            c <= 1,
            result == wrap32(a + b + c),
        ensures
            final(self)@ == old(self)@.with_cpsr(
                psr_with_cv(old(self).cpsr.0, a + b + c > 0xFFFF_FFFF, !fits_i32(signed(a) + signed(b) + c)),
            ),
    {
        self.cpsr.set_c((a as u64 + b as u64 + c as u64) > 0xFFFF_FFFF);
        proof { lemma_add_overflow(a, b, c, result); }
        self.cpsr.set_v((!(a ^ b) & (a ^ result)) >> 31u32 != 0);
    }

    /// C (not-borrow) and V of `a - b - c`, given its wrapped result.
    fn set_sub_flags(&mut self, a: u32, b: u32, c: u32, result: u32)
        requires
            c <= 1,
            result == wrap32(a - b - c),
        ensures
            final(self)@ == old(self)@.with_cpsr(
                psr_with_cv(old(self).cpsr.0, a - b - c >= 0, !fits_i32(signed(a) - signed(b) - c)),
            ),
    {
        self.cpsr.set_c(a as u64 >= b as u64 + c as u64);
        proof { lemma_sub_overflow(a, b, c, result); }
        self.cpsr.set_v(((a ^ b) & (a ^ result)) >> 31u32 != 0);
    }
}

/// The value an ALU opcode computes.
#[verifier::spinoff_prover]
#[verifier::rlimit(30)]
fn alu_compute(opcode: u32, op1: u32, op2: u32, carry: bool) -> (r: u32)
    requires
        opcode < 16,
    ensures
        r == alu_value(opcode, op1, op2, carry),
{
    let c: u32 = if carry { 1 } else { 0 };
    let nc: u32 = 1 - c;
    match opcode {
        0x0 | 0x8 => op1 & op2,
        0x1 | 0x9 => op1 ^ op2,
        0x2 | 0xA => op1.wrapping_sub(op2),
        0x3 => op2.wrapping_sub(op1),
        0x4 | 0xB => op1.wrapping_add(op2),
        0x5 => op1.wrapping_add(op2).wrapping_add(c),
        0x6 => op1.wrapping_sub(op2).wrapping_sub(nc),
        0x7 => op2.wrapping_sub(op1).wrapping_sub(nc),
        0xC => op1 | op2,
        0xD => op2,
        0xE => op1 & !op2,
        _ => !op2,
    }
}

/// The prefetch buffer refilled from the (aligned) program counter, which
/// then points two instructions ahead.
#[verifier::opaque]
pub open spec fn filled(c: CpuView, m: BusView) -> CpuView {
    if flag_t(c.cpsr) {
        let pc = c.regs[15] & !1u32;
        CpuView {
            pipeline: seq![mem_read16(m.mem, pc) as u32, mem_read16(m.mem, wrap32(pc + 2)) as u32],
            regs: c.regs.update(15, wrap32(pc + 4)),
            pipeline_valid: true,
            ..c
        }
    } else {
        let pc = c.regs[15] & !3u32;
        CpuView {
            pipeline: seq![mem_read32(m.mem, pc), mem_read32(m.mem, wrap32(pc + 4))],
            regs: c.regs.update(15, wrap32(pc + 8)),
            pipeline_valid: true,
            ..c
        }
    }
}

/// IRQ entry: IRQ mode with the return address in r14, IRQs disabled,
/// ARM state, the IRQ vector in r15 and the pipeline to be refilled.
pub open spec fn irq_entered(c: CpuView) -> CpuView {
    let ret = wrap32(c.regs[15] - (if flag_t(c.cpsr) { 2int } else { 4int }));
    let s = switched_mode(c, Mode::Irq);
    CpuView {
        regs: s.regs.update(14, wrap32(ret + 4)).update(15, 0x18u32),
        cpsr: with_bit(with_bit(s.cpsr, 7, true), 5, false),
        pipeline_valid: false,
        ..s
    }
}

/// The state the BIOS would leave: ROM entry point, System mode, ARM
/// state, stacks set up, pipeline to be refilled.
pub open spec fn bios_skipped(c: CpuView) -> CpuView {
    CpuView {
        regs: c.regs.update(15, 0x0800_0000u32).update(13, 0x0300_7F00u32),
        cpsr: 0x1F,
        banked_r13: c.banked_r13.update(2, 0x0300_7FA0u32).update(3, 0x0300_7FE0u32),
        pipeline_valid: false,
        ..c
    }
}

/// One CPU step: take a pending, enabled IRQ (IME set, IE & IF non-zero,
/// CPSR I clear); while halted, wake on a pending IRQ and spend one cycle;
/// otherwise refill the pipeline if needed and execute one ARM or Thumb
/// instruction.
pub open spec fn cpu_step(c: CpuView, m: BusView) -> (CpuView, BusView, u32) {
    let pending = m.mem.ime && (m.mem.ie & m.mem.irf) != 0;
    let c1 = if pending && !flag_i(c.cpsr) { irq_entered(c) } else { c };
    if m.mem.halt {
        (c1, if pending { BusView { mem: MemView { halt: false, ..m.mem }, ..m } } else { m }, 1)
    } else {
        let c2 = if !c1.pipeline_valid { filled(c1, m) } else { c1 };
        if flag_t(c2.cpsr) { thumb_step(c2, m) } else { arm_step(c2, m) }
    }
}

impl CpuView {
    /// Every register array has its hardware length.
    pub open spec fn wf(self) -> bool {
        &&& self.regs.len() == 16
        &&& self.spsr.len() == 6
        &&& self.banked_r13.len() == 6
        &&& self.banked_r14.len() == 6
        &&& self.fiq_r8_r12.len() == 5
        &&& self.usr_r8_r12.len() == 5
    }
}

/// Switching to another mode and back again gives every visible register
/// its old value and restores the mode, keeping the flag and control bits.
pub proof fn lemma_switch_mode_back(s: CpuView, other: Mode)
    requires
        s.wf(),
        psr_mode(s.cpsr) != other,
    ensures
        ({
            let t = switched_mode(switched_mode(s, other), psr_mode(s.cpsr));
            &&& t.regs == s.regs
            &&& psr_mode(t.cpsr) == psr_mode(s.cpsr)
            &&& forall|j: u32| 5 <= j < 32 ==> bit(#[trigger] t.cpsr, j) == bit(s.cpsr, j)
        }),
{
    reveal(switched_mode);
    let a = psr_mode(s.cpsr);
    let m = switched_mode(s, other);
    lemma_psr_with_mode(s.cpsr, other);
    lemma_psr_with_mode(m.cpsr, a);
    let t = switched_mode(m, a);
    assert(t.regs =~= s.regs);
}

/// Taking an interrupt enters IRQ mode in ARM state with IRQs disabled,
/// jumps to the IRQ vector with the return address in r14, keeps r0-r7
/// and the FIQ-disable bit, and saves the interrupted CPSR in the IRQ SPSR.
pub proof fn lemma_irq_entry(c: CpuView)
    requires
        c.wf(),
    ensures
        ({
            let d = irq_entered(c);
            &&& d.mode() == Mode::Irq
            &&& flag_i(d.cpsr)
            &&& !flag_t(d.cpsr)
            &&& flag_f(d.cpsr) == flag_f(c.cpsr)
            &&& d.regs[15] == 0x18
            &&& d.regs[14] == wrap32(c.regs[15] - (if flag_t(c.cpsr) { 2int } else { 4int }) + 4)
            &&& forall|i: int| 0 <= i < 8 ==> #[trigger] d.regs[i] == c.regs[i]
            &&& !d.pipeline_valid
            &&& c.mode() != Mode::Irq ==> d.spsr[bank_of(Mode::Irq)] == c.cpsr
        }),
{
    reveal(switched_mode);
    let s = switched_mode(c, Mode::Irq);
    lemma_psr_with_mode(c.cpsr, Mode::Irq);
    lemma_with_bit(s.cpsr, 7, true);
    lemma_with_bit(with_bit(s.cpsr, 7, true), 5, false);
    let d = irq_entered(c);
    assert(bit(with_bit(with_bit(s.cpsr, 7, true), 5, false), 6) == bit(with_bit(s.cpsr, 7, true), 6));
    assert(bit(with_bit(s.cpsr, 7, true), 6) == bit(s.cpsr, 6));
    lemma_low_bits_kept(s.cpsr);
}

/// Setting I and clearing T leaves the mode field alone.
proof fn lemma_low_bits_kept(x: u32)
    by (bit_vector)
    ensures
        with_bit(with_bit(x, 7, true), 5, false) & 0x1F == x & 0x1F,
        with_bit(x, 7, true) & 0x1F == x & 0x1F,
        8u32 & !3u32 == 8u32,
{
}

/// SWI enters Supervisor mode in ARM state with IRQs disabled and jumps to
/// the SWI vector, address 8, refilling the pipeline from there (so r15
/// then reads 16). The return address, the instruction after the SWI (r15
/// - 4 in ARM state, r15 - 2 in Thumb state), goes to r14; r0-r7 and the
/// FIQ-disable bit are kept, and the interrupted CPSR is saved in the
/// Supervisor SPSR. Three cycles.
pub proof fn lemma_software_interrupt(c: CpuView, m: BusView)
    requires
        c.wf(),
    ensures
        ({
            let a = crate::cpu::arm::arm_swi(c, m);
            let t = crate::cpu::thumb::thumb_swi(c, m);
            let entered = |d: CpuView, ret: int| {
                &&& d.mode() == Mode::Supervisor
                &&& bit(d.cpsr, 7)
                &&& !bit(d.cpsr, 5)
                &&& bit(d.cpsr, 6) == bit(c.cpsr, 6)
                &&& d.regs.len() == 16
                &&& d.regs[15] == 16
                &&& d.regs[14] == ((c.regs[15] - ret) % 0x1_0000_0000) as u32
                &&& forall|i: int| 0 <= i < 8 ==> #[trigger] d.regs[i] == c.regs[i]
                &&& d.pipeline == seq![mem_read32(m.mem, 8), mem_read32(m.mem, 12)]
                &&& d.pipeline_valid
                &&& c.mode() != Mode::Supervisor ==> d.spsr[bank_of(Mode::Supervisor)] == c.cpsr
            };
            &&& a.1 == 3 && t.1 == 3
            &&& !bit(c.cpsr, 5) ==> entered(a.0, 4)
            &&& entered(t.0, 2)
        }),
{
    reveal(switched_mode);
    reveal(filled);
    let s = switched_mode(c, Mode::Supervisor);
    lemma_psr_with_mode(c.cpsr, Mode::Supervisor);
    lemma_with_bit(s.cpsr, 7, true);
    lemma_with_bit(with_bit(s.cpsr, 7, true), 5, false);
    lemma_low_bits_kept(s.cpsr);
    assert(bit(with_bit(with_bit(s.cpsr, 7, true), 5, false), 6) == bit(with_bit(s.cpsr, 7, true), 6));
    assert(bit(with_bit(s.cpsr, 7, true), 6) == bit(s.cpsr, 6));
    assert(bit(with_bit(s.cpsr, 7, true), 5) == bit(s.cpsr, 5));
}

impl Cpu {
    /// Run one instruction (or one halted cycle); returns the cycles spent.
    pub fn step(&mut self, bus: &mut Bus) -> (r: u32)
        requires
            old(bus).wf(),
        ensures
            final(bus).wf(),
            (final(self)@, final(bus)@, r) == cpu_step(old(self)@, old(bus)@),
    {
        // Check for pending interrupts
        if bus.ime && (bus.ie & bus.irf) != 0 && !self.cpsr.i() {
            self.handle_irq(bus);
        }
        if bus.halt {
            // CPU is halted
            if bus.ime && (bus.ie & bus.irf) != 0 {
                bus.halt = false;
            }
            return 1;
        }
        if !self.pipeline_valid {
            self.fill_pipeline(bus);
        }
        if self.cpsr.t() {
            self.execute_thumb(bus)
        } else {
            self.execute_arm(bus)
        }
    }

    /// Skip BIOS initialization - set up state as if BIOS ran.
    pub fn skip_bios(&mut self, _bus: &mut Bus)
        ensures
            final(self)@ == bios_skipped(old(self)@),
            *final(_bus) == *old(_bus),
    {
        self.regs[15] = 0x0800_0000; // ROM entry point
        self.cpsr = Psr(Mode::System.bits()); // System mode, ARM state
        self.regs[13] = 0x0300_7F00;
        self.banked_r13[Mode::Irq.bank_index()] = 0x0300_7FA0;
        self.banked_r13[Mode::Supervisor.bank_index()] = 0x0300_7FE0;
        self.pipeline_valid = false;
        assert(final(self).regs@ =~= old(self).regs@.update(15, 0x0800_0000u32).update(13, 0x0300_7F00u32));
    }

    fn fill_pipeline(&mut self, bus: &Bus)
        requires
            bus.wf(),
        ensures
            final(self)@ == filled(old(self)@, bus@),
    {
        reveal(filled);
        if self.cpsr.t() {
            let pc = self.regs[15] & !1u32;
            self.pipeline[0] = bus.read16(pc) as u32;
            self.pipeline[1] = bus.read16(pc.wrapping_add(2)) as u32;
            self.regs[15] = pc.wrapping_add(4);
        } else {
            let pc = self.regs[15] & !3u32;
            self.pipeline[0] = bus.read32(pc);
            self.pipeline[1] = bus.read32(pc.wrapping_add(4));
            self.regs[15] = pc.wrapping_add(8);
        }
        self.pipeline_valid = true;
        assert(final(self)@.pipeline =~= filled(old(self)@, bus@).pipeline);
        assert(final(self)@.regs =~= filled(old(self)@, bus@).regs);
    }

    /// Flush the pipeline.
    pub fn flush_pipeline(&mut self, bus: &Bus)
        requires
            bus.wf(),
        ensures
            final(self)@ == filled(old(self)@, bus@),
    {
        reveal(filled);
        self.pipeline_valid = false;
        self.fill_pipeline(bus);
    }

    fn handle_irq(&mut self, _bus: &mut Bus)
        ensures
            final(self)@ == irq_entered(old(self)@),
            *final(_bus) == *old(_bus),
    {
        reveal(switched_mode);
        let return_addr = self.regs[15].wrapping_sub(if self.cpsr.t() { 2 } else { 4 });
        self.switch_mode(Mode::Irq);
        self.regs[14] = return_addr.wrapping_add(4);
        self.cpsr.set_i(true);
        self.cpsr.set_t(false);
        self.regs[15] = 0x18; // IRQ vector
        self.pipeline_valid = false;
        assert(final(self)@.regs =~= irq_entered(old(self)@).regs);
    }
}

} // verus!
