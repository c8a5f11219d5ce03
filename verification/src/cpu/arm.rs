//! The ARM (32-bit) instruction set.
use vstd::prelude::*;
use crate::bits::{lemma_word_bits, bit, with_bit, signed, ror, asr, ror32, asr32, sext8, sext16, sign_extend8, sign_extend16,
    popcount, count_ones, lemma_and_le};
use crate::cpu::arm7tdmi::{
    Cpu, CpuView, Mode, psr_mode, bank_of, mode_of_bits, flag_c, cond_holds, shifter, alu_psr, alu_result, alu_value,
    wrap32, switched_mode, filled, psr_with_nz,
};
use crate::mem_map::{mem_read8, mem_read16, mem_read32};
use crate::memory::{Bus, BusView, bus_write8, bus_write16, bus_write32};

verus! {

broadcast use lemma_and_le;

/// Register `i` of the register file.
pub open spec fn reg(c: CpuView, i: u32) -> u32 {
    c.regs[i as int]
}

/// The second operand of a data-processing instruction and the shifter's
/// carry out.
#[verifier::opaque]
pub open spec fn dp_operand2(c: CpuView, instr: u32) -> (u32, bool) {
    let cf = flag_c(c.cpsr);
    if instr & (1u32 << 25u32) != 0 {
        // Immediate operand
        let imm = instr & 0xFFu32;
        let rotate = (instr >> 8u32) & 0xFu32;
        if rotate == 0 {
            (imm, cf)
        } else {
            let r = ror(imm, (rotate * 2) as u32);
            (r, bit(r, 31))
        }
    } else {
        // Register operand with shift
        let rm_val = reg(c, instr & 0xFu32);
        let shift_type = (instr >> 5u32) & 3u32;
        if instr & (1u32 << 4u32) != 0 {
            // Register-specified shift
            let rs = (instr >> 8u32) & 0xFu32;
            shifter(shift_type, rm_val, reg(c, rs) & 0xFFu32, cf)
        } else {
            // Immediate shift; amount 0 encodes LSL #0, LSR #32, ASR #32, RRX
            let amount = (instr >> 7u32) & 0x1Fu32;
            if amount == 0 {
                if shift_type == 0 {
                    (rm_val, cf)
                } else if shift_type == 1 {
                    (0, bit(rm_val, 31))
                } else if shift_type == 2 {
                    (asr(rm_val, 31), bit(rm_val, 31))
                } else {
                    ((rm_val >> 1u32) | (if cf { 0x8000_0000u32 } else { 0u32 }), bit(rm_val, 0))
                }
            } else {
                shifter(shift_type, rm_val, amount, cf)
            }
        }
    }
}

/// Whether an ALU opcode is a logical one (its C flag comes from the shifter).
pub open spec fn is_logical(opcode: u32) -> bool {
    opcode == 0x0 || opcode == 0x1 || opcode == 0x8 || opcode == 0x9 || opcode == 0xC || opcode == 0xD
        || opcode == 0xE || opcode == 0xF
}

/// Data processing: ALU operation, flags, and a write to r15 that (with S)
/// restores the CPSR from the SPSR and refills the pipeline.
pub open spec fn arm_dp(c: CpuView, m: BusView, instr: u32) -> (CpuView, u32) {
    let opcode = (instr >> 21u32) & 0xFu32;
    let set_flags = instr & (1u32 << 20u32) != 0;
    let rn = (instr >> 16u32) & 0xFu32;
    let rd = (instr >> 12u32) & 0xFu32;
    let op1 = reg(c, rn);
    let (op2, carry) = dp_operand2(c, instr);
    let old_carry = flag_c(c.cpsr);
    let p1 = if set_flags && is_logical(opcode) { with_bit(c.cpsr, 29, carry) } else { c.cpsr };
    let c2 = c.with_cpsr(alu_psr(p1, opcode, op1, op2, set_flags, old_carry));
    match alu_result(opcode, op1, op2, old_carry) {
        Some(result) => {
            let c3 = c2.with_reg(rd as int, result);
            if rd == 15 {
                let c4 = if set_flags { c3.with_cpsr(c3.spsr[bank_of(psr_mode(c3.cpsr))]) } else { c3 };
                (filled(c4, m), 3)
            } else {
                (c3, 1)
            }
        },
        None => (c2, 1),
    }
}

/// The signed byte offset of a branch: the 24-bit field, sign-extended,
/// times four.
pub open spec fn branch_offset(instr: u32) -> int {
    let f = instr & 0x00FF_FFFFu32;
    4 * (if f >= 0x80_0000 { f - 0x100_0000 } else { f as int })
}

/// Branch / branch with link.
pub open spec fn arm_branch(c: CpuView, m: BusView, instr: u32) -> (CpuView, u32) {
    let link = instr & (1u32 << 24u32) != 0;
    let c1 = if link { c.with_reg(14, wrap32(c.regs[15] - 4)) } else { c };
    (filled(c1.with_reg(15, wrap32(c.regs[15] + branch_offset(instr))), m), 3)
}

/// A jump that selects the instruction set from bit 0 of the target.
pub open spec fn jump_exchange(c: CpuView, m: BusView, addr: u32) -> CpuView {
    if addr & 1u32 != 0 {
        filled(c.with_cpsr(with_bit(c.cpsr, 5, true)).with_reg(15, addr & !1u32), m)
    } else {
        filled(c.with_cpsr(with_bit(c.cpsr, 5, false)).with_reg(15, addr & !3u32), m)
    }
}

/// Branch and exchange.
pub open spec fn arm_bx(c: CpuView, m: BusView, instr: u32) -> (CpuView, u32) {
    (jump_exchange(c, m, reg(c, instr & 0xFu32)), 3)
}

/// `base` moved up or down by `offset`.
pub open spec fn offset_addr(base: u32, offset: u32, up: bool) -> u32 {
    if up { wrap32(base + offset) } else { wrap32(base - offset) }
}

/// Pre/post indexing: the final base register after a transfer.
pub open spec fn with_writeback(c: CpuView, rn: u32, base: u32, offset: u32, addr: u32, pre: bool, up: bool, wb: bool) -> CpuView {
    if !pre {
        c.with_reg(rn as int, offset_addr(base, offset, up))
    } else if wb {
        c.with_reg(rn as int, addr)
    } else {
        c
    }
}

/// The offset of LDR / STR: a 12-bit immediate or a shifted register.
pub open spec fn single_offset(c: CpuView, instr: u32) -> u32 {
    if instr & (1u32 << 25u32) != 0 {
        shifter((instr >> 5u32) & 3u32, reg(c, instr & 0xFu32), (instr >> 7u32) & 0x1Fu32, flag_c(c.cpsr)).0
    } else {
        instr & 0xFFFu32
    }
}

/// LDR / STR (word or byte); misaligned word loads rotate.
pub open spec fn arm_single(c: CpuView, m: BusView, instr: u32) -> (CpuView, BusView, u32) {
    let pre = instr & (1u32 << 24u32) != 0;
    let up = instr & (1u32 << 23u32) != 0;
    let byte = instr & (1u32 << 22u32) != 0;
    let wb = instr & (1u32 << 21u32) != 0;
    let load = instr & (1u32 << 20u32) != 0;
    let rn = (instr >> 16u32) & 0xFu32;
    let rd = (instr >> 12u32) & 0xFu32;
    let base = reg(c, rn);
    let offset = single_offset(c, instr);
    let addr = if pre { offset_addr(base, offset, up) } else { base };
    if load {
        let val = if byte { mem_read8(m.mem, addr) as u32 } else { ror(mem_read32(m.mem, addr), ((addr & 3u32) * 8) as u32) };
        let c1 = c.with_reg(rd as int, val);
        let c2 = if rd == 15 { filled(c1, m) } else { c1 };
        (with_writeback(c2, rn, base, offset, addr, pre, up, wb), m, 3)
    } else {
        let val = reg(c, rd);
        let m1 = if byte { bus_write8(m, addr, val as u8) } else { bus_write32(m, addr, val) };
        (with_writeback(c, rn, base, offset, addr, pre, up, wb), m1, 2)
    }
}

/// The data part of LDRH / STRH (op 1), LDRSB (op 2), LDRSH (op 3).
pub open spec fn halfword_data(c: CpuView, m: BusView, op: u32, load: bool, rd: u32, addr: u32) -> (CpuView, BusView) {
    if op == 1 {
        if load {
            (c.with_reg(rd as int, mem_read16(m.mem, addr) as u32), m)
        } else {
            (c, bus_write16(m, addr, reg(c, rd) as u16))
        }
    } else if op == 2 {
        (c.with_reg(rd as int, sext8(mem_read8(m.mem, addr))), m)
    } else if op == 3 {
        (c.with_reg(rd as int, sext16(mem_read16(m.mem, addr))), m)
    } else {
        (c, m)
    }
}

/// The offset of the halfword transfers: a split 8-bit immediate or a register.
pub open spec fn halfword_offset(c: CpuView, instr: u32) -> u32 {
    if instr & (1u32 << 22u32) != 0 { ((instr >> 4u32) & 0xF0u32) | (instr & 0xFu32) } else { reg(c, instr & 0xFu32) }
}

/// LDRH / STRH / LDRSB / LDRSH.
pub open spec fn arm_halfword(c: CpuView, m: BusView, instr: u32) -> (CpuView, BusView, u32) {
    let pre = instr & (1u32 << 24u32) != 0;
    let up = instr & (1u32 << 23u32) != 0;
    let wb = instr & (1u32 << 21u32) != 0;
    let load = instr & (1u32 << 20u32) != 0;
    let rn = (instr >> 16u32) & 0xFu32;
    let rd = (instr >> 12u32) & 0xFu32;
    let op = (instr >> 5u32) & 3u32;
    let base = reg(c, rn);
    let offset = halfword_offset(c, instr);
    let addr = if pre { offset_addr(base, offset, up) } else { base };
    let (c1, m1) = halfword_data(c, m, op, load, rd, addr);
    (with_writeback(c1, rn, base, offset, addr, pre, up, wb), m1, if load { 3 } else { 2 })
}

/// The registers of a list, from `i` up to (not including) `end`,
/// transferred at ascending addresses from `cur`; `n` counts the transfers.
#[verifier::opaque]
pub open spec fn block_regs(c: CpuView, m: BusView, list: u32, load: bool, i: int, end: int, cur: u32, n: u32) -> (CpuView, BusView, u32)
    decreases end - i,
{
    if i >= end || i < 0 || i >= 16 {
        (c, m, n)
    } else if list & (1u32 << (i as u32)) == 0 {
        block_regs(c, m, list, load, i + 1, end, cur, n)
    } else if load {
        block_regs(c.with_reg(i, mem_read32(m.mem, cur)), m, list, load, i + 1, end, wrap32(cur + 4), (n + 1) as u32)
    } else {
        block_regs(c, bus_write32(m, cur, c.regs[i]), list, load, i + 1, end, wrap32(cur + 4), (n + 1) as u32)
    }
}

/// One step of a block transfer.
pub(crate) proof fn lemma_block_unfold(c: CpuView, m: BusView, list: u32, load: bool, i: int, end: int, cur: u32, n: u32)
    requires
        0 <= i < end <= 16,
    ensures
        block_regs(c, m, list, load, i, end, cur, n) == if list & (1u32 << (i as u32)) == 0 {
            block_regs(c, m, list, load, i + 1, end, cur, n)
        } else if load {
            block_regs(c.with_reg(i, mem_read32(m.mem, cur)), m, list, load, i + 1, end, wrap32(cur + 4), (n + 1) as u32)
        } else {
            block_regs(c, bus_write32(m, cur, c.regs[i]), list, load, i + 1, end, wrap32(cur + 4), (n + 1) as u32)
        },
{
    reveal(block_regs);
}

/// The address of the first transfer of LDM / STM.
pub open spec fn block_first(addr: u32, up: bool, pre: bool) -> u32 {
    if up && pre { wrap32(addr + 4) } else if up { addr } else if pre { addr } else { wrap32(addr + 4) }
}

/// LDM / STM.
pub open spec fn arm_block(c: CpuView, m: BusView, instr: u32) -> (CpuView, BusView, u32) {
    let pre = instr & (1u32 << 24u32) != 0;
    let up = instr & (1u32 << 23u32) != 0;
    let wb = instr & (1u32 << 21u32) != 0;
    let load = instr & (1u32 << 20u32) != 0;
    let rn = (instr >> 16u32) & 0xFu32;
    let list = instr & 0xFFFFu32;
    let count = popcount(list, 32);
    let base = reg(c, rn);
    let down_start = wrap32(base - count * 4);
    let addr = if up { base } else { down_start };
    let end_addr = if up { wrap32(base + count * 4) } else { base };
    let current = block_first(addr, up, pre);
    let (c1, m1, n) = block_regs(c, m, list, load, 0, 16, current, 0);
    let c2 = if wb { c1.with_reg(rn as int, if up { end_addr } else { down_start }) } else { c1 };
    if load && list & (1u32 << 15u32) != 0 {
        (filled(c2, m1), m1, (n + 3) as u32)
    } else {
        (c2, m1, (n + 2) as u32)
    }
}

/// MUL / MLA.
pub open spec fn arm_mul(c: CpuView, instr: u32) -> (CpuView, u32) {
    let accumulate = instr & (1u32 << 21u32) != 0;
    let set_flags = instr & (1u32 << 20u32) != 0;
    let rd = (instr >> 16u32) & 0xFu32;
    let rn = (instr >> 12u32) & 0xFu32;
    let rs = (instr >> 8u32) & 0xFu32;
    let rm = instr & 0xFu32;
    let prod = reg(c, rm) * reg(c, rs);
    let result = wrap32(if accumulate { prod + reg(c, rn) } else { prod });
    let c1 = c.with_reg(rd as int, result);
    let c2 = if set_flags { c1.with_cpsr(psr_with_nz(c1.cpsr, result)) } else { c1 };
    (c2, if accumulate { 3 } else { 2 })
}

/// The 64-bit result of UMULL / UMLAL / SMULL / SMLAL.
pub open spec fn mull_value(c: CpuView, instr: u32) -> int {
    let signed_mul = instr & (1u32 << 22u32) != 0;
    let accumulate = instr & (1u32 << 21u32) != 0;
    let rd_hi = (instr >> 16u32) & 0xFu32;
    let rd_lo = (instr >> 12u32) & 0xFu32;
    let rs = (instr >> 8u32) & 0xFu32;
    let rm = instr & 0xFu32;
    let prod: int = if signed_mul {
        (signed(reg(c, rm)) * signed(reg(c, rs))) % 0x1_0000_0000_0000_0000
    } else {
        reg(c, rm) * reg(c, rs)
    };
    if accumulate {
        (prod + reg(c, rd_hi) * 0x1_0000_0000 + reg(c, rd_lo)) % 0x1_0000_0000_0000_0000
    } else {
        prod
    }
}

/// UMULL / UMLAL / SMULL / SMLAL: low word to RdLo, then high word to RdHi.
pub open spec fn arm_mull(c: CpuView, instr: u32) -> (CpuView, u32) {
    let accumulate = instr & (1u32 << 21u32) != 0;
    let set_flags = instr & (1u32 << 20u32) != 0;
    let rd_hi = (instr >> 16u32) & 0xFu32;
    let rd_lo = (instr >> 12u32) & 0xFu32;
    let r = mull_value(c, instr);
    let c1 = c.with_reg(rd_lo as int, (r % 0x1_0000_0000) as u32).with_reg(rd_hi as int, (r / 0x1_0000_0000) as u32);
    let c2 = if set_flags {
        c1.with_cpsr(with_bit(with_bit(c1.cpsr, 31, r >= 0x8000_0000_0000_0000), 30, r == 0))
    } else {
        c1
    };
    (c2, if accumulate { 4 } else { 3 })
}

/// SWP / SWPB.
pub open spec fn arm_swap(c: CpuView, m: BusView, instr: u32) -> (CpuView, BusView, u32) {
    let byte = instr & (1u32 << 22u32) != 0;
    let rn = (instr >> 16u32) & 0xFu32;
    let rd = (instr >> 12u32) & 0xFu32;
    let rm = instr & 0xFu32;
    let addr = reg(c, rn);
    if byte {
        (c.with_reg(rd as int, mem_read8(m.mem, addr) as u32), bus_write8(m, addr, reg(c, rm) as u8), 4)
    } else {
        (c.with_reg(rd as int, mem_read32(m.mem, addr)), bus_write32(m, addr, reg(c, rm)), 4)
    }
}

/// The field mask of MSR: flags (bit 19) and control (bit 16) bytes.
pub open spec fn msr_mask(instr: u32) -> u32 {
    (if instr & (1u32 << 19u32) != 0 { 0xFF00_0000u32 } else { 0u32 })
        | (if instr & (1u32 << 16u32) != 0 { 0x0000_00FFu32 } else { 0u32 })
}

/// MRS / MSR.
pub open spec fn arm_psr(c: CpuView, instr: u32) -> (CpuView, u32) {
    let use_spsr = instr & (1u32 << 22u32) != 0;
    let is_msr = instr & (1u32 << 21u32) != 0;
    let bank = bank_of(psr_mode(c.cpsr));
    if is_msr {
        let val = if instr & (1u32 << 25u32) != 0 {
            ror(instr & 0xFFu32, (((instr >> 8u32) & 0xFu32) * 2) as u32)
        } else {
            reg(c, instr & 0xFu32)
        };
        let mask = msr_mask(instr);
        if use_spsr {
            (CpuView { spsr: c.spsr.update(bank, (c.spsr[bank] & !mask) | (val & mask)), ..c }, 1)
        } else {
            let new_cpsr = (c.cpsr & !mask) | (val & mask);
            let new_mode = mode_of_bits((new_cpsr & 0x1Fu32) as u8);
            let c1 = if mask & 0xFFu32 != 0 && psr_mode(c.cpsr) != new_mode { switched_mode(c, new_mode) } else { c };
            (c1.with_cpsr(new_cpsr), 1)
        }
    } else {
        let rd = (instr >> 12u32) & 0xFu32;
        (c.with_reg(rd as int, if use_spsr { c.spsr[bank] } else { c.cpsr }), 1)
    }
}

/// SWI: Supervisor mode, return address in r14, IRQs disabled, jump to the
/// SWI vector.
pub open spec fn arm_swi(c: CpuView, m: BusView) -> (CpuView, u32) {
    let s = switched_mode(c, Mode::Supervisor);
    let s1 = s.with_reg(14, wrap32(s.regs[15] - 4));
    (filled(s1.with_cpsr(with_bit(s1.cpsr, 7, true)).with_reg(15, 8), m), 3)
}

/// Widen a result that leaves memory untouched.
pub open spec fn keep_mem(r: (CpuView, u32), m: BusView) -> (CpuView, BusView, u32) {
    (r.0, m, r.1)
}

/// Decode an ARM instruction whose condition passed, and execute it.
pub open spec fn arm_dispatch(c: CpuView, m: BusView, instr: u32) -> (CpuView, BusView, u32) {
    let b = (instr >> 20u32) & 0xFFu32;
    let b74 = (instr >> 4u32) & 0xFu32;
    let top = b >> 5u32;
    if top == 0 {
        if b == 0x12 && b74 == 1 {
            keep_mem(arm_bx(c, m, instr), m)
        } else if (b74 & 9u32) == 9 && (b & 0x1Cu32) == 0 {
            if b & 8u32 != 0 { keep_mem(arm_mull(c, instr), m) } else { keep_mem(arm_mul(c, instr), m) }
        } else if (b74 & 9u32) == 9 && (b & 2u32) == 0 {
            if b & 0x10u32 != 0 { arm_swap(c, m, instr) } else { arm_halfword(c, m, instr) }
        } else if (b74 & 9u32) == 9 {
            arm_halfword(c, m, instr)
        } else if b & 0x19u32 == 0x10 && b74 == 0 {
            keep_mem(arm_psr(c, instr), m)
        } else {
            keep_mem(arm_dp(c, m, instr), m)
        }
    } else if top == 1 {
        if b & 0x1Bu32 == 0x12 { keep_mem(arm_psr(c, instr), m) } else { keep_mem(arm_dp(c, m, instr), m) }
    } else if top == 2 || top == 3 {
        if top == 3 && b74 & 1u32 != 0 { (c, m, 1) } else { arm_single(c, m, instr) }
    } else if top == 4 {
        arm_block(c, m, instr)
    } else if top == 5 {
        keep_mem(arm_branch(c, m, instr), m)
    } else if top == 7 {
        if (instr >> 24u32) & 0xFu32 == 0xF { keep_mem(arm_swi(c, m), m) } else { (c, m, 1) }
    } else {
        (c, m, 1)
    }
}

/// One ARM step: take the instruction from the prefetch buffer, fetch the
/// next word, advance r15, and execute if the condition passes (a skipped
/// instruction costs one cycle).
pub open spec fn arm_step(c: CpuView, m: BusView) -> (CpuView, BusView, u32) {
    let instr = c.pipeline[0];
    let c1 = CpuView {
        pipeline: seq![c.pipeline[1], mem_read32(m.mem, c.regs[15])],
        regs: c.regs.update(15, wrap32(c.regs[15] + 4)),
        ..c
    };
    if !cond_holds(c1.cpsr, instr >> 28u32) {
        (c1, m, 1)
    } else {
        arm_dispatch(c1, m, instr)
    }
}

impl Cpu {
    fn arm_operand2(&self, instr: u32) -> (r: (u32, bool))
        ensures
            r == dp_operand2(self@, instr),
    {
        reveal(dp_operand2);
        if instr & (1u32 << 25u32) != 0 {
            // Immediate operand
            let imm = instr & 0xFF;
            let rotate = (instr >> 8u32) & 0xF;
            if rotate == 0 {
                (imm, self.cpsr.c())
            } else {
                let result = ror32(imm, rotate * 2);
                proof { lemma_word_bits(result); }
                (result, result >> 31u32 != 0)
            }
        } else {
            // Register operand with shift
            let rm = (instr & 0xF) as usize;
            let rm_val = self.regs[rm];
            proof { lemma_word_bits(rm_val); }
            let shift_type = (instr >> 5u32) & 3;
            if instr & (1u32 << 4u32) != 0 {
                // Register-specified shift
                let rs = ((instr >> 8u32) & 0xF) as usize;
                let shift_amount = self.regs[rs] & 0xFF;
                self.barrel_shift(shift_type, rm_val, shift_amount, self.cpsr.c())
            } else {
                // Immediate shift
                let shift_amount = (instr >> 7u32) & 0x1F;
                if shift_amount == 0 {
                    if shift_type == 0 {
                        (rm_val, self.cpsr.c()) // LSL #0 = no shift
                    } else if shift_type == 1 {
                        (0, rm_val >> 31u32 != 0) // LSR #0 = LSR #32
                    } else if shift_type == 2 {
                        let sign = asr32(rm_val, 31);
                        (sign, sign != 0)
                    } else {
                        // RRX
                        let carry = rm_val & 1 != 0;
                        let result = (rm_val >> 1u32) | (if self.cpsr.c() { 0x8000_0000u32 } else { 0u32 });
                        (result, carry)
                    }
                } else {
                    self.barrel_shift(shift_type, rm_val, shift_amount, self.cpsr.c())
                }
            }
        }
    }

    fn arm_data_processing(&mut self, instr: u32, bus: &Bus) -> (r: u32)
        requires
            bus.wf(),
        ensures
            (final(self)@, r) == arm_dp(old(self)@, bus@, instr),
    {
        let opcode = (instr >> 21u32) & 0xF;
        let set_flags = instr & (1u32 << 20u32) != 0;
        let rn = ((instr >> 16u32) & 0xF) as usize;
        let rd = ((instr >> 12u32) & 0xF) as usize;
        let op1 = self.regs[rn];
        let (op2, carry) = self.arm_operand2(instr);
        // For logical ops, the carry from the shifter is used
        let old_carry = self.cpsr.c();
        if set_flags && (opcode == 0x0 || opcode == 0x1 || opcode == 0x8 || opcode == 0x9 || opcode == 0xC
            || opcode == 0xD || opcode == 0xE || opcode == 0xF) {
            self.cpsr.set_c(carry);
        }
        match self.alu_op(opcode, rd, op1, op2, set_flags, old_carry) {
            Some(result) => {
                self.regs[rd] = result;
                if rd == 15 {
                    if set_flags {
                        // Restore CPSR from SPSR
                        let bank = self.cpsr.mode().bank_index();
                        self.cpsr.0 = self.spsr[bank];
                    }
                    self.flush_pipeline(bus);
                    return 3;
                }
                1
            },
            None => 1,
        }
    }

    fn arm_branch(&mut self, instr: u32, bus: &Bus) -> (r: u32)
        requires
            bus.wf(),
        ensures
            (final(self)@, r) == arm_branch(old(self)@, bus@, instr),
    {
        let link = instr & (1u32 << 24u32) != 0;
        // Sign-extend the 24-bit field and shift left 2
        let offset = asr32(instr << 8u32, 6);
        proof { lemma_branch_offset(instr, self.regs@[15]); }
        let pc = self.regs[15];
        if link {
            self.regs[14] = pc.wrapping_sub(4);
        }
        self.regs[15] = pc.wrapping_add(offset);
        self.flush_pipeline(bus);
        3
    }

    pub(crate) fn jump_exchange(&mut self, addr: u32, bus: &Bus)
        requires
            bus.wf(),
        ensures
            final(self)@ == jump_exchange(old(self)@, bus@, addr),
    {
        if addr & 1 != 0 {
            self.cpsr.set_t(true);
            self.regs[15] = addr & !1u32;
        } else {
            self.cpsr.set_t(false);
            self.regs[15] = addr & !3u32;
        }
        self.flush_pipeline(bus);
    }

    fn arm_bx(&mut self, instr: u32, bus: &Bus) -> (r: u32)
        requires
            bus.wf(),
        ensures
            (final(self)@, r) == arm_bx(old(self)@, bus@, instr),
    {
        let rm = (instr & 0xF) as usize;
        let addr = self.regs[rm];
        self.jump_exchange(addr, bus);
        3
    }

    fn arm_multiply(&mut self, instr: u32) -> (r: u32)
        ensures
            (final(self)@, r) == arm_mul(old(self)@, instr),
    {
        let accumulate = instr & (1u32 << 21u32) != 0;
        let set_flags = instr & (1u32 << 20u32) != 0;
        let rd = ((instr >> 16u32) & 0xF) as usize;
        let rn = ((instr >> 12u32) & 0xF) as usize;
        let rs = ((instr >> 8u32) & 0xF) as usize;
        let rm = (instr & 0xF) as usize;
        let mut result = self.regs[rm].wrapping_mul(self.regs[rs]);
        if accumulate {
            result = result.wrapping_add(self.regs[rn]);
        }
        proof { lemma_wrap_mul_add(self.regs@[rm as int], self.regs@[rs as int], self.regs@[rn as int]); }
        self.regs[rd] = result;
        if set_flags {
            self.cpsr.set_nz(result);
        }
        if accumulate { 3 } else { 2 }
    }

    /// Execute one ARM instruction, return cycles.
    pub fn execute_arm(&mut self, bus: &mut Bus) -> (r: u32)
        requires
            old(bus).wf(),
        ensures
            final(bus).wf(),
            (final(self)@, final(bus)@, r) == arm_step(old(self)@, old(bus)@),
    {
        // Fetch from pipeline
        let instr = self.pipeline[0];
        self.pipeline[0] = self.pipeline[1];
        self.pipeline[1] = bus.read32(self.regs[15]);
        self.regs[15] = self.regs[15].wrapping_add(4);
        assert(self.pipeline@ =~= seq![old(self).pipeline@[1], mem_read32(old(bus).mem(), old(self).regs@[15])]);
        // Check condition
        let cond = instr >> 28u32;
        proof { lemma_word_bits(instr); }
        if !self.check_condition(cond) {
            return 1; // 1S cycle for skipped instruction
        }
        self.arm_dispatch(instr, bus)
    }

    fn arm_dispatch(&mut self, instr: u32, bus: &mut Bus) -> (r: u32)
        requires
            old(bus).wf(),
        ensures
            final(bus).wf(),
            (final(self)@, final(bus)@, r) == arm_dispatch(old(self)@, old(bus)@, instr),
    {
        // Decode by bits [27:20] and [7:4]
        let bits_27_20 = (instr >> 20u32) & 0xFF;
        let bits_7_4 = (instr >> 4u32) & 0xF;
        let top = bits_27_20 >> 5u32;
        if top == 0b000 {
            if bits_27_20 == 0b00010010 && bits_7_4 == 0b0001 {
                // BX
                self.arm_bx(instr, bus)
            } else if (bits_7_4 & 0b1001) == 0b1001 && (bits_27_20 & 0b11100) == 0 {
                // Multiply / Multiply Long
                if bits_27_20 & 0b1000 != 0 {
                    self.arm_multiply_long(instr)
                } else {
                    self.arm_multiply(instr)
                }
            } else if (bits_7_4 & 0b1001) == 0b1001 && (bits_27_20 & 0b10) == 0 {
                // Single data swap
                if bits_27_20 & 0b10000 != 0 {
                    self.arm_swap(instr, bus)
                } else {
                    self.arm_halfword_transfer(instr, bus)
                }
            } else if (bits_7_4 & 0b1001) == 0b1001 {
                self.arm_halfword_transfer(instr, bus)
            } else if bits_27_20 & 0b11001 == 0b10000 && bits_7_4 == 0 {
                // MRS / MSR (register)
                self.arm_psr_transfer(instr)
            } else {
                // Data processing (register shift or immediate shift)
                self.arm_data_processing(instr, bus)
            }
        } else if top == 0b001 {
            if bits_27_20 & 0b11011 == 0b10010 {
                // MSR immediate
                self.arm_psr_transfer(instr)
            } else {
                // Data processing immediate
                self.arm_data_processing(instr, bus)
            }
        } else if top == 0b010 || top == 0b011 {
            if top == 0b011 && bits_7_4 & 1 != 0 {
                // Undefined
                1
            } else {
                // Single data transfer (LDR/STR)
                self.arm_single_transfer(instr, bus)
            }
        } else if top == 0b100 {
            // Block data transfer (LDM/STM)
            self.arm_block_transfer(instr, bus)
        } else if top == 0b101 {
            // Branch / Branch with Link
            self.arm_branch(instr, bus)
        } else if top == 0b111 {
            if (instr >> 24u32) & 0xF == 0xF {
                // SWI
                self.arm_swi(instr, bus)
            } else {
                1 // Coprocessor / undefined
            }
        } else {
            1
        }
    }

    fn arm_multiply_long(&mut self, instr: u32) -> (r: u32)
        ensures
            (final(self)@, r) == arm_mull(old(self)@, instr),
    {
        let signed_mul = instr & (1u32 << 22u32) != 0;
        let accumulate = instr & (1u32 << 21u32) != 0;
        let set_flags = instr & (1u32 << 20u32) != 0;
        let rd_hi = ((instr >> 16u32) & 0xF) as usize;
        let rd_lo = ((instr >> 12u32) & 0xF) as usize;
        let rs = ((instr >> 8u32) & 0xF) as usize;
        let rm = (instr & 0xF) as usize;
        let a = self.regs[rm];
        let b = self.regs[rs];
        let mut result: u64 = if signed_mul {
            let x = sign_extend64(a);
            let y = sign_extend64(b);
            proof { lemma_signed_product(a, b, x as int, y as int); }
            x.wrapping_mul(y)
        } else {
            assert((a as int) * (b as int) <= 0xFFFF_FFFE_0000_0001) by (nonlinear_arith)
                requires a <= 0xFFFF_FFFFu32, b <= 0xFFFF_FFFFu32;
            assert((a as int) * (b as int) >= 0) by (nonlinear_arith);
            (a as u64) * (b as u64)
        };
        let hi = self.regs[rd_hi];
        let lo = self.regs[rd_lo];
        proof { lemma_split64(result, hi, lo); }
        if accumulate {
            result = result.wrapping_add(((hi as u64) << 32u64) | lo as u64);
        }
        assert(result as int == mull_value(old(self)@, instr));
        proof { lemma_split64(result, hi, lo); }
        self.regs[rd_lo] = result as u32;
        self.regs[rd_hi] = (result >> 32u64) as u32;
        if set_flags {
            self.cpsr.set_n((result >> 63u64) != 0);
            self.cpsr.set_z(result == 0);
        }
        if accumulate { 4 } else { 3 }
    }

    fn arm_psr_transfer(&mut self, instr: u32) -> (r: u32)
        ensures
            (final(self)@, r) == arm_psr(old(self)@, instr),
    {
        let use_spsr = instr & (1u32 << 22u32) != 0;
        let is_msr = instr & (1u32 << 21u32) != 0;
        if is_msr {
            // MSR - write to PSR
            let val = if instr & (1u32 << 25u32) != 0 {
                let imm = instr & 0xFF;
                let rotate = (instr >> 8u32) & 0xF;
                ror32(imm, rotate * 2)
            } else {
                self.regs[(instr & 0xF) as usize]
            };
            let mask = (if instr & (1u32 << 19u32) != 0 { 0xFF00_0000u32 } else { 0u32 })
                | (if instr & (1u32 << 16u32) != 0 { 0x0000_00FFu32 } else { 0u32 });
            if use_spsr {
                let bank = self.cpsr.mode().bank_index();
                self.spsr[bank] = (self.spsr[bank] & !mask) | (val & mask);
            } else {
                let new_cpsr = (self.cpsr.0 & !mask) | (val & mask);
                if mask & 0xFF != 0 {
                    let new_mode = Mode::from_bits((new_cpsr & 0x1F) as u8);
                    if self.cpsr.mode() != new_mode {
                        self.switch_mode(new_mode);
                    }
                }
                self.cpsr.0 = new_cpsr;
            }
        } else {
            // MRS - read from PSR
            let rd = ((instr >> 12u32) & 0xF) as usize;
            self.regs[rd] = if use_spsr {
                self.spsr[self.cpsr.mode().bank_index()]
            } else {
                self.cpsr.0
            };
        }
        1
    }

    fn arm_swi(&mut self, _instr: u32, bus: &Bus) -> (r: u32)
        requires
            bus.wf(),
        ensures
            (final(self)@, r) == arm_swi(old(self)@, bus@),
    {
        self.switch_mode(Mode::Supervisor);
        self.regs[14] = self.regs[15].wrapping_sub(4);
        self.cpsr.set_i(true);
        self.regs[15] = 0x08; // SWI vector
        self.flush_pipeline(bus);
        3
    }
}

impl Cpu {
    fn single_offset(&self, instr: u32) -> (r: u32)
        ensures
            r == single_offset(self@, instr),
    {
        if instr & (1u32 << 25u32) != 0 {
            // Register offset with shift
            let rm = (instr & 0xF) as usize;
            let shift_type = (instr >> 5u32) & 3;
            let shift_amount = (instr >> 7u32) & 0x1F;
            let (result, _) = self.barrel_shift(shift_type, self.regs[rm], shift_amount, self.cpsr.c());
            result
        } else {
            // Immediate offset
            instr & 0xFFF
        }
    }

    fn write_back(&mut self, rn: usize, base: u32, offset: u32, addr: u32, pre: bool, up: bool, writeback: bool)
        requires
            rn < 16,
        ensures
            final(self)@ == with_writeback(old(self)@, rn as u32, base, offset, addr, pre, up, writeback),
    {
        if !pre {
            let final_addr = if up { base.wrapping_add(offset) } else { base.wrapping_sub(offset) };
            self.regs[rn] = final_addr;
        } else if writeback {
            self.regs[rn] = addr;
        }
    }

    #[verifier::spinoff_prover]
    #[verifier::rlimit(40)]
    fn arm_single_transfer(&mut self, instr: u32, bus: &mut Bus) -> (r: u32)
        requires
            old(bus).wf(),
        ensures
            final(bus).wf(),
            (final(self)@, final(bus)@, r) == arm_single(old(self)@, old(bus)@, instr),
    {
        let pre = instr & (1u32 << 24u32) != 0;
        let up = instr & (1u32 << 23u32) != 0;
        let byte = instr & (1u32 << 22u32) != 0;
        let writeback = instr & (1u32 << 21u32) != 0;
        let load = instr & (1u32 << 20u32) != 0;
        let rn = ((instr >> 16u32) & 0xF) as usize;
        let rd = ((instr >> 12u32) & 0xF) as usize;
        let base = self.regs[rn];
        let offset = self.single_offset(instr);
        let addr = if pre {
            if up { base.wrapping_add(offset) } else { base.wrapping_sub(offset) }
        } else {
            base
        };
        if load {
            let val = if byte {
                bus.read8(addr) as u32
            } else {
                let val = bus.read32(addr);
                // Misaligned reads rotate
                let rotate = (addr & 3) * 8;
                ror32(val, rotate)
            };
            self.regs[rd] = val;
            if rd == 15 {
                self.flush_pipeline(bus);
            }
        } else {
            let val = self.regs[rd];
            if byte {
                bus.write8(addr, val as u8);
            } else {
                bus.write32(addr, val);
            }
        }
        // Post-index or writeback
        self.write_back(rn, base, offset, addr, pre, up, writeback);
        if load { 3 } else { 2 }
    }

    fn halfword_data(&mut self, bus: &mut Bus, op: u32, load: bool, rd: usize, addr: u32)
        requires
            old(bus).wf(),
            rd < 16,
        ensures
            final(bus).wf(),
            (final(self)@, final(bus)@) == halfword_data(old(self)@, old(bus)@, op, load, rd as u32, addr),
    {
        if op == 1 {
            // LDRH / STRH (unsigned halfword)
            if load {
                self.regs[rd] = bus.read16(addr) as u32;
            } else {
                bus.write16(addr, self.regs[rd] as u16);
            }
        } else if op == 2 {
            // LDRSB (signed byte)
            self.regs[rd] = sign_extend8(bus.read8(addr));
        } else if op == 3 {
            // LDRSH (signed halfword)
            self.regs[rd] = sign_extend16(bus.read16(addr));
        }
    }

    fn halfword_offset(&self, instr: u32, imm_offset: bool) -> (r: u32)
        requires
            imm_offset == (instr & (1u32 << 22u32) != 0),
        ensures
            r == halfword_offset(self@, instr),
    {
        if imm_offset {
            ((instr >> 4u32) & 0xF0) | (instr & 0xF)
        } else {
            self.regs[(instr & 0xF) as usize]
        }
    }

    fn arm_halfword_transfer(&mut self, instr: u32, bus: &mut Bus) -> (r: u32)
        requires
            old(bus).wf(),
        ensures
            final(bus).wf(),
            (final(self)@, final(bus)@, r) == arm_halfword(old(self)@, old(bus)@, instr),
    {
        let pre = instr & (1u32 << 24u32) != 0;
        let up = instr & (1u32 << 23u32) != 0;
        let imm_offset = instr & (1u32 << 22u32) != 0;
        let writeback = instr & (1u32 << 21u32) != 0;
        let load = instr & (1u32 << 20u32) != 0;
        let rn = ((instr >> 16u32) & 0xF) as usize;
        let rd = ((instr >> 12u32) & 0xF) as usize;
        let op = (instr >> 5u32) & 3;
        let base = self.regs[rn];
        let offset = self.halfword_offset(instr, imm_offset);
        let addr = if pre {
            if up { base.wrapping_add(offset) } else { base.wrapping_sub(offset) }
        } else {
            base
        };
        self.halfword_data(bus, op, load, rd, addr);
        self.write_back(rn, base, offset, addr, pre, up, writeback);
        if load { 3 } else { 2 }
    }

    fn arm_swap(&mut self, instr: u32, bus: &mut Bus) -> (r: u32)
        requires
            old(bus).wf(),
        ensures
            final(bus).wf(),
            (final(self)@, final(bus)@, r) == arm_swap(old(self)@, old(bus)@, instr),
    {
        let byte = instr & (1u32 << 22u32) != 0;
        let rn = ((instr >> 16u32) & 0xF) as usize;
        let rd = ((instr >> 12u32) & 0xF) as usize;
        let rm = (instr & 0xF) as usize;
        let addr = self.regs[rn];
        if byte {
            let tmp = bus.read8(addr);
            bus.write8(addr, self.regs[rm] as u8);
            self.regs[rd] = tmp as u32;
        } else {
            let tmp = bus.read32(addr);
            bus.write32(addr, self.regs[rm]);
            self.regs[rd] = tmp;
        }
        4
    }

    /// Transfer the listed registers among r0..r(end-1) at ascending
    /// addresses from `start`; returns the number transferred.
    pub(crate) fn transfer_block(&mut self, bus: &mut Bus, reg_list: u32, load: bool, start: u32, end: u32) -> (r: (u32, u32))
        requires
            old(bus).wf(),
            end <= 16,
        ensures
            final(bus).wf(),
            (final(self)@, final(bus)@, r.0) == block_regs(old(self)@, old(bus)@, reg_list, load, 0, end as int, start, 0),
            r.0 <= end,
            r.1 == wrap32(start + r.0 * 4),
    {
        reveal(block_regs);
        let mut current = start;
        let mut cycles = 0u32;
        let ghost target = block_regs(self@, bus@, reg_list, load, 0, end as int, current, 0);
        let mut i: u32 = 0;
        while i < end
            invariant
                i <= end <= 16,
                cycles <= i,
                current == wrap32(start + cycles * 4),
                block_regs(self@, bus@, reg_list, load, i as int, end as int, current, cycles) == target,
                bus.wf(),
            decreases end - i,
        {
            proof { lemma_block_unfold(self@, bus@, reg_list, load, i as int, end as int, current, cycles); }
            if reg_list & (1u32 << i) != 0 {
                if load {
                    self.regs[i as usize] = bus.read32(current);
                } else {
                    let val = self.regs[i as usize];
                    bus.write32(current, val);
                }
                current = current.wrapping_add(4);
                cycles = cycles + 1;
            }
            i = i + 1;
        }
        (cycles, current)
    }

    fn arm_block_transfer(&mut self, instr: u32, bus: &mut Bus) -> (r: u32)
        requires
            old(bus).wf(),
        ensures
            final(bus).wf(),
            (final(self)@, final(bus)@, r) == arm_block(old(self)@, old(bus)@, instr),
    {
        let pre = instr & (1u32 << 24u32) != 0;
        let up = instr & (1u32 << 23u32) != 0;
        let writeback = instr & (1u32 << 21u32) != 0;
        let load = instr & (1u32 << 20u32) != 0;
        let rn = ((instr >> 16u32) & 0xF) as usize;
        let reg_list = instr & 0xFFFF;
        let count = count_ones(reg_list);
        assert(popcount(reg_list, 32) <= 32) by { lemma_popcount_le(reg_list, 32); }
        let base = self.regs[rn];
        let down_start = base.wrapping_sub(count * 4);
        let addr = if up { base } else { down_start };
        let end_addr = if up { base.wrapping_add(count * 4) } else { base };
        let current = first_block_addr(addr, up, pre);
        let (cycles, _) = self.transfer_block(bus, reg_list, load, current, 16);
        if writeback {
            self.regs[rn] = if up { end_addr } else { down_start };
        }
        if load && reg_list & (1u32 << 15u32) != 0 {
            self.flush_pipeline(bus);
            return cycles + 3;
        }
        cycles + 2
    }
}

fn first_block_addr(addr: u32, up: bool, pre: bool) -> (r: u32)
    ensures
        r == block_first(addr, up, pre),
{
    if up && pre {
        addr.wrapping_add(4)
    } else if up {
        addr
    } else if pre {
        addr
    } else {
        addr.wrapping_add(4)
    }
}

/// A word sign-extended to 64 bits.
fn sign_extend64(x: u32) -> (r: u64)
    ensures
        r as int == if x < 0x8000_0000 { x as int } else { x + 0xFFFF_FFFF_0000_0000 },
{
    assert((x >= 0x8000_0000 ==> (x as u64) | 0xFFFF_FFFF_0000_0000u64 == x + 0xFFFF_FFFF_0000_0000u64)
        && (x & 0x8000_0000u32 != 0) == (x >= 0x8000_0000)) by (bit_vector);
    if x & 0x8000_0000 != 0 { (x as u64) | 0xFFFF_FFFF_0000_0000 } else { x as u64 }
}

/// The product of sign-extended words, modulo 2^64, is the signed product.
proof fn lemma_signed_product(a: u32, b: u32, x: int, y: int)
    requires
        x == if a < 0x8000_0000 { a as int } else { a + 0xFFFF_FFFF_0000_0000 },
        y == if b < 0x8000_0000 { b as int } else { b + 0xFFFF_FFFF_0000_0000 },
    ensures
        (x * y) % 0x1_0000_0000_0000_0000 == (signed(a) * signed(b)) % 0x1_0000_0000_0000_0000,
{
    let m: int = 0x1_0000_0000_0000_0000;
    let ka: int = if a < 0x8000_0000 { 0 } else { 1 };
    let kb: int = if b < 0x8000_0000 { 0 } else { 1 };
    assert(x == m * ka + signed(a));
    assert(y == m * kb + signed(b));
    vstd::arithmetic::div_mod::lemma_mod_multiples_vanish(ka, signed(a), m);
    vstd::arithmetic::div_mod::lemma_mod_multiples_vanish(kb, signed(b), m);
    vstd::arithmetic::div_mod::lemma_mul_mod_noop_general(x, y, m);
    vstd::arithmetic::div_mod::lemma_mul_mod_noop_general(signed(a), signed(b), m);
}

/// Splitting a 64-bit value into words and joining them back.
proof fn lemma_split64(r: u64, h: u32, l: u32)
    by (bit_vector)
    ensures
        (r as u32) as int == r % 0x1_0000_0000,
        ((r >> 32u64) as u32) as int == r / 0x1_0000_0000,
        (((h as u64) << 32u64) | (l as u64)) as int == h * 0x1_0000_0000 + l,
        ((r >> 63u64) != 0) == (r >= 0x8000_0000_0000_0000),
{
}

/// A word has at most as many set bits as the bits counted.
proof fn lemma_popcount_le(x: u32, n: nat)
    ensures
        popcount(x, n) <= n,
    decreases n,
{
    if n > 0 {
        lemma_popcount_le(x, (n - 1) as nat);
    }
}

/// The shifted field of a branch is the signed offset, modulo 2^32.
proof fn lemma_branch_offset(instr: u32, pc: u32)
    ensures
        wrap32(pc + asr(instr << 8u32, 6)) == wrap32(pc + branch_offset(instr)),
{
    let o = asr(instr << 8u32, 6);
    let f = instr & 0x00FF_FFFFu32;
    assert((f < 0x80_0000 ==> o == 4 * f) && (f >= 0x80_0000 ==> o == 4 * f + 0xFC00_0000)) by (bit_vector)
        requires o == asr(instr << 8u32, 6), f == instr & 0x00FF_FFFFu32;
}

/// Wrapping multiply-accumulate is the exact result modulo 2^32.
proof fn lemma_wrap_mul_add(a: u32, b: u32, n: u32)
    ensures
        vstd::wrapping::u32_specs::wrapping_mul(a, b) == wrap32(a * b),
        vstd::wrapping::u32_specs::wrapping_add(vstd::wrapping::u32_specs::wrapping_mul(a, b), n) == wrap32(a * b + n),
{
    let p = a * b;
    assert(a * b >= 0) by (nonlinear_arith);
    let w = vstd::wrapping::u32_specs::wrapping_mul(a, b);
    assert(w as int == p % 0x1_0000_0000);
    assert((w + n) % 0x1_0000_0000 == (p + n) % 0x1_0000_0000) by {
        vstd::arithmetic::div_mod::lemma_add_mod_noop(p, n as int, 0x1_0000_0000);
        vstd::arithmetic::div_mod::lemma_mod_twice(p, 0x1_0000_0000);
        vstd::arithmetic::div_mod::lemma_add_mod_noop(w as int, n as int, 0x1_0000_0000);
    }
}


/// LDRH, LDRSB and LDRSH load into Rd the halfword or byte at the transfer
/// address: LDRH with zeros above it; LDRSB and LDRSH sign-extended, so
/// that Rd read as a signed number is the byte or halfword read as a
/// signed number. STRH stores the low halfword of Rd there. The transfer
/// address is the base register Rn, moved up or down by the offset (the
/// split 8-bit immediate, or Rm) when pre-indexed; post-indexed transfers,
/// and pre-indexed ones with write-back, leave the moved address in Rn (a
/// loaded Rd that is Rn is overwritten by it).
pub proof fn lemma_halfword_transfers(c: CpuView, m: BusView, instr: u32)
    requires
        c.regs.len() == 16,
    ensures
        ({
            let rn = (instr >> 16u32) & 0xFu32;
            let rd = (instr >> 12u32) & 0xFu32;
            let base = c.regs[rn as int];
            let off = if instr & (1u32 << 22u32) != 0 { ((instr >> 4u32) & 0xF0u32) | (instr & 0xFu32) }
                else { c.regs[(instr & 0xFu32) as int] };
            let moved = if instr & (1u32 << 23u32) != 0 { ((base + off) % 0x1_0000_0000) as u32 }
                else { ((base - off) % 0x1_0000_0000) as u32 };
            let pre = instr & (1u32 << 24u32) != 0;
            let addr = if pre { moved } else { base };
            let load = instr & (1u32 << 20u32) != 0;
            let op = (instr >> 5u32) & 3u32;
            let r = arm_halfword(c, m, instr);
            let v = r.0.regs[rd as int];
            let h = mem_read16(m.mem, addr);
            let b = mem_read8(m.mem, addr);
            &&& r.2 == if load { 3u32 } else { 2u32 }
            &&& (!pre || instr & (1u32 << 21u32) != 0) ==> r.0.regs[rn as int] == moved
            &&& rd != rn && load && op == 1 ==> v == h as u32 && r.1 == m
            &&& rd != rn && op == 2 ==> signed(v) == (if b < 0x80 { b as int } else { b - 0x100 }) && r.1 == m
            &&& rd != rn && op == 3 ==> signed(v) == (if h < 0x8000 { h as int } else { h - 0x1_0000 }) && r.1 == m
            &&& !load && op == 1 ==> r.1 == bus_write16(m, addr, c.regs[rd as int] as u16)
        }),
{
    let b = mem_read8(m.mem, arm_halfword_addr(c, instr));
    let h = mem_read16(m.mem, arm_halfword_addr(c, instr));
    crate::bits::lemma_sext8(b);
    crate::bits::lemma_sext16(h);
}

/// The transfer address of a halfword transfer: Rn, moved by the offset
/// when pre-indexed.
spec fn arm_halfword_addr(c: CpuView, instr: u32) -> u32 {
    let base = reg(c, (instr >> 16u32) & 0xFu32);
    if instr & (1u32 << 24u32) != 0 { offset_addr(base, halfword_offset(c, instr), instr & (1u32 << 23u32) != 0) } else { base }
}

/// The second operand of data processing. An immediate operand is the
/// 8-bit field rotated right by twice the 4-bit rotate field, carrying out
/// its bit 31 when rotated and the C flag otherwise. A register operand Rm
/// goes through the barrel shifter: by the low byte of Rs for a
/// register-specified shift; by the 5-bit field otherwise, where a field of
/// 0 means no shift for LSL and a shift by 32 for LSR, ASR and ROR (ROR by
/// 32 being RRX).
pub proof fn lemma_dp_operand2(c: CpuView, instr: u32)
    requires
        c.regs.len() == 16,
    ensures
        ({
            let cf = bit(c.cpsr, 29);
            let imm = instr & 0xFFu32;
            let rot = 2 * ((instr >> 8u32) & 0xFu32);
            let rm = c.regs[(instr & 0xFu32) as int];
            let st = (instr >> 5u32) & 3u32;
            let amount = (instr >> 7u32) & 0x1Fu32;
            let op2 = dp_operand2(c, instr);
            &&& instr & (1u32 << 25u32) != 0 && rot == 0 ==> op2 == (imm, cf)
            &&& instr & (1u32 << 25u32) != 0 && rot != 0 ==> op2.0 == (imm >> rot) | (imm << ((32 - rot) as u32))
                && op2.1 == bit(op2.0, 31)
            &&& instr & (1u32 << 25u32) == 0 && instr & (1u32 << 4u32) != 0
                ==> op2 == shifter(st, rm, c.regs[((instr >> 8u32) & 0xFu32) as int] & 0xFFu32, cf)
            &&& instr & (1u32 << 25u32) == 0 && instr & (1u32 << 4u32) == 0
                ==> op2 == shifter(st, rm, if amount == 0 && st != 0 { 32u32 } else { amount }, cf)
        }),
{
    reveal(dp_operand2);
    reveal(shifter);
    lemma_and_le(instr >> 8u32, 0xFu32);
    let rot = 2 * ((instr >> 8u32) & 0xFu32);
    assert(rot % 32 == rot);
}

/// LDR, LDRB, STR and STRB. The transfer address is Rn, moved up or down
/// by the offset (the 12-bit immediate, or Rm shifted by the immediate
/// amount) when pre-indexed; post-indexed transfers, and pre-indexed ones
/// with write-back, leave the moved address in Rn (a loaded Rd that is Rn
/// is overwritten by it). LDRB loads the byte with zeros above it; LDR
/// loads the word holding the address, rotated right so that the addressed
/// byte is its lowest. STR and STRB store Rd's word or low byte.
pub proof fn lemma_single_transfers(c: CpuView, m: BusView, instr: u32)
    requires
        c.regs.len() == 16,
    ensures
        ({
            let rn = (instr >> 16u32) & 0xFu32;
            let rd = (instr >> 12u32) & 0xFu32;
            let base = c.regs[rn as int];
            let off = if instr & (1u32 << 25u32) == 0 { instr & 0xFFFu32 }
                else { shifter((instr >> 5u32) & 3u32, c.regs[(instr & 0xFu32) as int], (instr >> 7u32) & 0x1Fu32, bit(c.cpsr, 29)).0 };
            let moved = if instr & (1u32 << 23u32) != 0 { ((base + off) % 0x1_0000_0000) as u32 }
                else { ((base - off) % 0x1_0000_0000) as u32 };
            let pre = instr & (1u32 << 24u32) != 0;
            let addr = if pre { moved } else { base };
            let load = instr & (1u32 << 20u32) != 0;
            let byte = instr & (1u32 << 22u32) != 0;
            let r = arm_single(c, m, instr);
            let v = r.0.regs[rd as int];
            let w = mem_read32(m.mem, addr);
            let k = 8 * (addr & 3u32);
            &&& r.2 == if load { 3u32 } else { 2u32 }
            &&& rn != 15 && (!pre || instr & (1u32 << 21u32) != 0) ==> r.0.regs[rn as int] == moved
            &&& load ==> r.1 == m
            &&& load && byte && rd != rn && rd != 15 ==> v == mem_read8(m.mem, addr) as u32
            &&& load && !byte && rd != rn && rd != 15 ==> v == if k == 0 { w } else { (w >> k as u32) | (w << (32 - k) as u32) }
            &&& !load && byte ==> r.1 == bus_write8(m, addr, c.regs[rd as int] as u8)
            &&& !load && !byte ==> r.1 == bus_write32(m, addr, c.regs[rd as int])
        }),
{
    let base = reg(c, (instr >> 16u32) & 0xFu32);
    let addr = if instr & (1u32 << 24u32) != 0 { offset_addr(base, single_offset(c, instr), instr & (1u32 << 23u32) != 0) } else { base };
    reveal(filled);
    lemma_and_le(addr, 3u32);
    let n = ((addr & 3u32) * 8) as u32;
    assert(n % 32 == n);
}

/// SWP and SWPB load Rd with the word (or the byte, with zeros above it) at
/// Rn as it was before, and store Rm's word (or low byte) there.
pub proof fn lemma_swap(c: CpuView, m: BusView, instr: u32)
    requires
        c.regs.len() == 16,
    ensures
        ({
            let addr = c.regs[((instr >> 16u32) & 0xFu32) as int];
            let rd = ((instr >> 12u32) & 0xFu32) as int;
            let rm = c.regs[(instr & 0xFu32) as int];
            let r = arm_swap(c, m, instr);
            &&& r.2 == 4
            &&& instr & (1u32 << 22u32) != 0 ==> r.0 == c.with_reg(rd, mem_read8(m.mem, addr) as u32)
                && r.1 == bus_write8(m, addr, rm as u8)
            &&& instr & (1u32 << 22u32) == 0 ==> r.0 == c.with_reg(rd, mem_read32(m.mem, addr))
                && r.1 == bus_write32(m, addr, rm)
        }),
{
}

/// MUL writes Rm * Rs and MLA Rm * Rs + Rn, modulo 2^32, into Rd, setting
/// N and Z from the result when S is set and keeping C, V and the other
/// registers; MUL takes 2 cycles and MLA 3.
pub proof fn lemma_multiply(c: CpuView, instr: u32)
    requires
        c.regs.len() == 16,
    ensures
        ({
            let rd = ((instr >> 16u32) & 0xFu32) as int;
            let p = c.regs[(instr & 0xFu32) as int] * c.regs[((instr >> 8u32) & 0xFu32) as int];
            let acc = instr & (1u32 << 21u32) != 0;
            let r = arm_mul(c, instr);
            let v = r.0.regs[rd];
            let q = r.0.cpsr;
            &&& r.1 == if acc { 3u32 } else { 2u32 }
            &&& r.0.regs == c.regs.update(rd, v)
            &&& v == (p + if acc { c.regs[((instr >> 12u32) & 0xFu32) as int] as int } else { 0 }) % 0x1_0000_0000
            &&& instr & (1u32 << 20u32) == 0 ==> q == c.cpsr
            &&& instr & (1u32 << 20u32) != 0 ==> bit(q, 31) == bit(v, 31) && bit(q, 30) == (v == 0)
                && forall|j: u32| j < 30 ==> #[trigger] bit(q, j) == bit(c.cpsr, j)
        }),
{
    let r = arm_mul(c, instr);
    let rd = ((instr >> 16u32) & 0xFu32) as int;
    crate::cpu::arm7tdmi::lemma_nzcv(c.cpsr, r.0.regs[rd], true, true);
    assert(c.regs.update(rd, r.0.regs[rd]) =~= r.0.regs);
}

/// UMULL, UMLAL, SMULL and SMLAL put into RdHi:RdLo the 64-bit product of
/// Rm and Rs (of their unsigned values, or for the signed forms of their
/// signed values), plus RdHi:RdLo as it was for the accumulating forms,
/// modulo 2^64. With S, N is bit 63 of the result and Z whether it is 0;
/// C and V are kept. They take 3 cycles, 4 when accumulating.
pub proof fn lemma_long_multiply(c: CpuView, instr: u32)
    requires
        c.regs.len() == 16,
        (instr >> 16u32) & 0xFu32 != (instr >> 12u32) & 0xFu32,
    ensures
        ({
            let hi_r = ((instr >> 16u32) & 0xFu32) as int;
            let lo_r = ((instr >> 12u32) & 0xFu32) as int;
            let a = c.regs[(instr & 0xFu32) as int];
            let b = c.regs[((instr >> 8u32) & 0xFu32) as int];
            let p: int = if instr & (1u32 << 22u32) != 0 { signed(a) * signed(b) } else { a * b };
            let acc = instr & (1u32 << 21u32) != 0;
            let total = p + if acc { c.regs[hi_r] * 0x1_0000_0000 + c.regs[lo_r] } else { 0 };
            let r = arm_mull(c, instr);
            let lo = r.0.regs[lo_r];
            let hi = r.0.regs[hi_r];
            let q = r.0.cpsr;
            &&& r.1 == if acc { 4u32 } else { 3u32 }
            &&& r.0.regs == c.regs.update(lo_r, lo).update(hi_r, hi)
            &&& lo + hi * 0x1_0000_0000 == total % 0x1_0000_0000_0000_0000
            &&& instr & (1u32 << 20u32) == 0 ==> q == c.cpsr
            &&& instr & (1u32 << 20u32) != 0 ==> bit(q, 31) == (hi >= 0x8000_0000) && bit(q, 30) == (lo == 0 && hi == 0)
                && forall|j: u32| j < 30 ==> #[trigger] bit(q, j) == bit(c.cpsr, j)
        }),
{
    let hi_r = ((instr >> 16u32) & 0xFu32) as int;
    let lo_r = ((instr >> 12u32) & 0xFu32) as int;
    let a = c.regs[(instr & 0xFu32) as int];
    let b = c.regs[((instr >> 8u32) & 0xFu32) as int];
    let n: int = 0x1_0000_0000_0000_0000;
    let v = mull_value(c, instr);
    assert(0 <= a * b <= 0xFFFF_FFFE_0000_0001) by (nonlinear_arith)
        requires 0 <= a <= 0xFFFF_FFFF, 0 <= b <= 0xFFFF_FFFF;
    let acc_v: int = c.regs[hi_r] * 0x1_0000_0000 + c.regs[lo_r];
    if instr & (1u32 << 21u32) != 0 {
        let p: int = if instr & (1u32 << 22u32) != 0 { signed(a) * signed(b) } else { a * b };
        let pm: int = if instr & (1u32 << 22u32) != 0 { p % n } else { p };
        vstd::arithmetic::div_mod::lemma_add_mod_noop(p, acc_v, n);
        vstd::arithmetic::div_mod::lemma_add_mod_noop(pm, acc_v, n);
        vstd::arithmetic::div_mod::lemma_mod_twice(p, n);
        assert(v == (pm + acc_v) % n);
        assert(v == (p + acc_v) % n);
    } else {
        if instr & (1u32 << 22u32) == 0 {
            vstd::arithmetic::div_mod::lemma_small_mod((a * b) as nat, n as nat);
        }
    }
    assert(0 <= v < n);
    let lo = (v % 0x1_0000_0000) as u32;
    let hi = (v / 0x1_0000_0000) as u32;
    assert(v / 0x1_0000_0000 < 0x1_0000_0000);
    assert(lo + hi * 0x1_0000_0000 == v);
    assert((hi >= 0x8000_0000) == (v >= 0x8000_0000_0000_0000));
    assert((lo == 0 && hi == 0) == (v == 0));
    let r = arm_mull(c, instr);
    assert(r.0.regs =~= c.regs.update(lo_r, lo).update(hi_r, hi));
    let q1 = with_bit(c.cpsr, 31, v >= 0x8000_0000_0000_0000);
    crate::bits::lemma_with_bit(c.cpsr, 31, v >= 0x8000_0000_0000_0000);
    crate::bits::lemma_with_bit(q1, 30, v == 0);
}

/// B and BL jump to the program counter plus the 24-bit field,
/// sign-extended, times four (modulo 2^32), and refill the pipeline from
/// there; BL first puts the address after the branch, r15 - 4, in LR. Three
/// cycles.
pub proof fn lemma_branch(c: CpuView, m: BusView, instr: u32)
    requires
        c.regs.len() == 16,
    ensures
        ({
            let f = (instr & 0xFF_FFFFu32) as int;
            let pc = c.regs[15];
            let target = ((pc + 4 * (if f < 0x80_0000 { f } else { f - 0x100_0000 })) % 0x1_0000_0000) as u32;
            let c1 = if instr & (1u32 << 24u32) != 0 { c.with_reg(14, ((pc - 4) % 0x1_0000_0000) as u32) } else { c };
            arm_branch(c, m, instr) == (filled(c1.with_reg(15, target), m), 3u32)
        }),
{
    assert(0x00FF_FFFFu32 == 0xFF_FFFFu32);
}

/// Data processing with a destination other than r15: the value of the ALU
/// on Rn and the second operand goes to Rd (TST, TEQ, CMP and CMN write no
/// register). Without S the status word is kept. With S, the logical
/// opcodes set N and Z from the value, C from the second operand's carry
/// out and keep V; the arithmetic ones set the flags of the ALU. One cycle.
pub proof fn lemma_data_processing(c: CpuView, m: BusView, instr: u32)
    requires
        c.regs.len() == 16,
        (instr >> 12u32) & 0xFu32 != 15,
    ensures
        ({
            let opcode = (instr >> 21u32) & 0xFu32;
            let rd = ((instr >> 12u32) & 0xFu32) as int;
            let a = c.regs[((instr >> 16u32) & 0xFu32) as int];
            let (b, sc) = dp_operand2(c, instr);
            let cf = bit(c.cpsr, 29);
            let val = alu_value(opcode, a, b, cf);
            let r = arm_dp(c, m, instr);
            let q = r.0.cpsr;
            let logical = opcode <= 1 || 8 <= opcode <= 9 || opcode >= 0xC;
            &&& r.1 == 1
            &&& (8 <= opcode <= 0xB) ==> r.0.regs == c.regs
            &&& !(8 <= opcode <= 0xB) ==> r.0.regs == c.regs.update(rd, val)
            &&& instr & (1u32 << 20u32) == 0 ==> q == c.cpsr
            &&& instr & (1u32 << 20u32) != 0 && logical ==> bit(q, 31) == bit(val, 31)
                && bit(q, 30) == (val == 0) && bit(q, 29) == sc
                && forall|j: u32| j < 29 ==> #[trigger] bit(q, j) == bit(c.cpsr, j)
            &&& instr & (1u32 << 20u32) != 0 && !logical ==> q == alu_psr(c.cpsr, opcode, a, b, true, cf)
        }),
{
    reveal(alu_psr);
    let opcode = (instr >> 21u32) & 0xFu32;
    let a = c.regs[((instr >> 16u32) & 0xFu32) as int];
    let (b, sc) = dp_operand2(c, instr);
    let p0 = c.cpsr;
    lemma_and_le(instr >> 21u32, 0xFu32);
    let cf = flag_c(p0);
    let val = alu_value(opcode, a, b, cf);
    let p1 = with_bit(p0, 29, sc);
    crate::bits::lemma_with_bit(p0, 29, sc);
    crate::cpu::arm7tdmi::lemma_nzcv(p1, val, true, true);
}


/// MRS copies the CPSR, or the SPSR of the current mode, into Rd. MSR
/// writes its value (Rm, or the 8-bit immediate rotated right by twice the
/// rotate field) into the CPSR or the current mode's SPSR, but only in the
/// fields it names: bits 31..24 when the flags field (bit 19) is set, bits
/// 7..0 when the control field (bit 16) is set; every other bit is kept,
/// and a write to an SPSR changes nothing else. One cycle.
pub proof fn lemma_status_transfers(c: CpuView, instr: u32)
    requires
        c.wf(),
    ensures
        ({
            let bank = bank_of(psr_mode(c.cpsr));
            let imm = instr & 0xFFu32;
            let rot = 2 * ((instr >> 8u32) & 0xFu32);
            let val = if instr & (1u32 << 25u32) == 0 { c.regs[(instr & 0xFu32) as int] }
                else if rot == 0 { imm } else { (imm >> rot) | (imm << ((32 - rot) as u32)) };
            let fl = instr & (1u32 << 19u32) != 0;
            let ct = instr & (1u32 << 16u32) != 0;
            let to_spsr = instr & (1u32 << 22u32) != 0;
            let r = arm_psr(c, instr);
            let q = if to_spsr { r.0.spsr[bank] } else { r.0.cpsr };
            let o = if to_spsr { c.spsr[bank] } else { c.cpsr };
            &&& r.1 == 1
            &&& instr & (1u32 << 21u32) == 0 ==> r.0 == c.with_reg(((instr >> 12u32) & 0xFu32) as int, o)
            &&& instr & (1u32 << 21u32) != 0 ==> forall|j: u32| j < 32
                ==> #[trigger] bit(q, j) == if (24 <= j && fl) || (j < 8 && ct) { bit(val, j) } else { bit(o, j) }
            &&& instr & (1u32 << 21u32) != 0 && to_spsr ==> r.0 == (CpuView { spsr: c.spsr.update(bank, q), ..c })
        }),
{
    let fl = instr & (1u32 << 19u32) != 0;
    let ct = instr & (1u32 << 16u32) != 0;
    let bank = bank_of(psr_mode(c.cpsr));
    let mask = msr_mask(instr);
    lemma_and_le(instr >> 8u32, 0xFu32);
    let rot = 2 * ((instr >> 8u32) & 0xFu32);
    assert(rot % 32 == rot);
    let val = if instr & (1u32 << 25u32) != 0 { ror(instr & 0xFFu32, (((instr >> 8u32) & 0xFu32) * 2) as u32) }
        else { reg(c, instr & 0xFu32) };
    crate::bits::lemma_merge_bits(c.cpsr, val, mask);
    crate::bits::lemma_merge_bits(c.spsr[bank], val, mask);
    crate::bits::lemma_field_mask_bits(mask, fl, ct);
    let r = arm_psr(c, instr);
    if instr & (1u32 << 21u32) != 0 && instr & (1u32 << 22u32) != 0 {
        assert(r.0.spsr == c.spsr.update(bank, r.0.spsr[bank]));
    }
}

/// BX jumps to Rm, with bit 0 of Rm choosing the instruction set: when set,
/// Thumb state (CPSR bit 5 set) at Rm with bit 0 cleared; when clear, ARM
/// state at Rm with bits 1 and 0 cleared. No other status bit changes, the
/// pipeline is refilled from the target, and it takes three cycles.
pub proof fn lemma_branch_exchange(c: CpuView, m: BusView, instr: u32)
    requires
        c.regs.len() == 16,
    ensures
        ({
            let t = c.regs[(instr & 0xFu32) as int];
            let q = with_bit(c.cpsr, 5, bit(t, 0));
            &&& bit(q, 5) == bit(t, 0)
            &&& forall|j: u32| j < 32 && j != 5 ==> #[trigger] bit(q, j) == bit(c.cpsr, j)
            &&& arm_bx(c, m, instr) == (filled(c.with_cpsr(q).with_reg(15, if bit(t, 0) { t & !1u32 } else { t & !3u32 }), m), 3u32)
        }),
{
    let t = c.regs[(instr & 0xFu32) as int];
    crate::bits::lemma_with_bit(c.cpsr, 5, bit(t, 0));
    crate::bits::lemma_word_bits(t);
}


/// A block transfer from register `i` up to `end` counts one transfer per
/// listed register; a store changes no register and a load changes only
/// listed registers from `i` on, and leaves the bus alone.
pub(crate) proof fn lemma_block_effects(c: CpuView, m: BusView, list: u32, load: bool, i: int, end: int, cur: u32, n: u32)
    requires
        0 <= i <= end <= 16,
        n <= i,
        c.regs.len() == 16,
    ensures
        ({
            let r = block_regs(c, m, list, load, i, end, cur, n);
            &&& r.2 == n + popcount(list, end as nat) - popcount(list, i as nat)
            &&& !load ==> r.0 == c
            &&& load ==> r.1 == m && r.0.regs.len() == 16 && r.0 == (CpuView { regs: r.0.regs, ..c })
            &&& load ==> forall|j: int| 0 <= j < 16 && !(i <= j < end && bit(list, j as u32))
                ==> #[trigger] r.0.regs[j] == c.regs[j]
        }),
    decreases end - i,
{
    lemma_popcount_le(list, i as nat);
    if i < end {
        lemma_block_unfold(c, m, list, load, i, end, cur, n);
        crate::bits::lemma_mask_bit(list, i as u32);
        assert(popcount(list, (i + 1) as nat) == popcount(list, i as nat) + if bit(list, i as u32) { 1nat } else { 0nat });
        if list & (1u32 << (i as u32)) == 0 {
            lemma_block_effects(c, m, list, load, i + 1, end, cur, n);
        } else if load {
            lemma_block_effects(c.with_reg(i, mem_read32(m.mem, cur)), m, list, load, i + 1, end, wrap32(cur + 4), (n + 1) as u32);
        } else {
            lemma_block_effects(c, bus_write32(m, cur, c.regs[i]), list, load, i + 1, end, wrap32(cur + 4), (n + 1) as u32);
        }
    } else {
        reveal(block_regs);
    }
}

/// A byte-sized list has at most eight registers.
pub(crate) proof fn lemma_popcount_le8(x: u32)
    ensures
        popcount(x, 8) <= 8,
{
    lemma_popcount_le(x, 8);
}

/// The upper 16 bits of a 16-bit register list are clear.
proof fn lemma_list_bits(x: u32)
    by (bit_vector)
    requires
        x < 0x1_0000,
    ensures
        forall|k: u32| 16 <= k < 32 ==> !#[trigger] bit(x, k),
{
}

/// A 16-bit list counts its registers in its low 16 bits.
proof fn lemma_popcount_list(x: u32, n: nat)
    requires
        x < 0x1_0000,
        16 <= n <= 32,
    ensures
        popcount(x, n) == popcount(x, 16),
    decreases n,
{
    if n > 16 {
        lemma_popcount_list(x, (n - 1) as nat);
        lemma_list_bits(x);
        assert(!bit(x, (n - 1) as u32));
    }
}

/// LDM and STM transfer the registers of the 16-bit list (bit k for
/// register k) and take one cycle per listed register plus two, or plus
/// three when LDM loads the PC. STM changes no register but, with
/// write-back, Rn; LDM without the PC leaves the bus alone and changes
/// only listed registers and, with write-back, Rn. With write-back Rn ends
/// moved up (increment) or down (decrement) by four times the number of
/// listed registers, modulo 2^32.
pub proof fn lemma_block_transfers(c: CpuView, m: BusView, instr: u32)
    requires
        c.regs.len() == 16,
    ensures
        ({
            let list = instr & 0xFFFFu32;
            let k = popcount(list, 16);
            let rn = ((instr >> 16u32) & 0xFu32) as int;
            let base = c.regs[rn];
            let up = instr & (1u32 << 23u32) != 0;
            let wb = instr & (1u32 << 21u32) != 0;
            let load = instr & (1u32 << 20u32) != 0;
            let moved = if up { ((base + 4 * k) % 0x1_0000_0000) as u32 } else { ((base - 4 * k) % 0x1_0000_0000) as u32 };
            let pc_load = load && bit(list, 15);
            let r = arm_block(c, m, instr);
            &&& r.2 == k + if pc_load { 3int } else { 2int }
            &&& !load ==> r.0 == if wb { c.with_reg(rn, moved) } else { c }
            &&& load && !pc_load ==> r.1 == m && r.0.cpsr == c.cpsr
            &&& load && !pc_load && wb ==> r.0.regs[rn] == moved
            &&& load && !pc_load ==> forall|j: int| 0 <= j < 16 && !bit(list, j as u32) && !(wb && j == rn)
                ==> #[trigger] r.0.regs[j] == c.regs[j]
        }),
{
    let list = instr & 0xFFFFu32;
    lemma_and_le(instr, 0xFFFFu32);
    lemma_popcount_list(list, 32);
    lemma_popcount_le(list, 16);
    let pre = instr & (1u32 << 24u32) != 0;
    let up = instr & (1u32 << 23u32) != 0;
    let base = reg(c, (instr >> 16u32) & 0xFu32);
    let count = popcount(list, 32);
    let down_start = wrap32(base - count * 4);
    let addr = if up { base } else { down_start };
    let current = block_first(addr, up, pre);
    lemma_block_effects(c, m, list, instr & (1u32 << 20u32) != 0, 0, 16, current, 0);
    crate::bits::lemma_mask_bit(list, 15);
}

} // verus!
