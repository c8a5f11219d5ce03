//! The Thumb (16-bit) instruction set.
use vstd::prelude::*;
use crate::bits::{lemma_word_bits, bit, with_bit, signed, fits_i32, asr, asr32, sext8, sext16, sign_extend8, sign_extend16,
    popcount, count_ones, lemma_and_le, lemma_and_le16};
use crate::cpu::arm7tdmi::{
    Cpu, CpuView, Mode, flag_c, cond_holds, shifter, alu_psr, alu_value, wrap32, switched_mode, filled,
    psr_with_nz, lemma_nzcv, lemma_sub_overflow, lemma_wrap32_near,
};
use crate::cpu::arm::{reg, jump_exchange, block_regs, lemma_block_unfold, lemma_block_effects};
use crate::mem_map::{mem_read8, mem_read16, mem_read32, region, ram_cell, ram_window, outside_ram_block,
    lemma_ram_write32_frame, lemma_read32_after_write32};
use crate::memory::{Bus, BusView, bus_write8, bus_write16, bus_write32, lemma_bus_write32_ram};

verus! {

broadcast use {lemma_and_le, lemma_and_le16};

/// Register named by a 3-bit field at bit `lo` of a Thumb instruction.
pub open spec fn low_reg(c: CpuView, instr: u16, lo: u16) -> u32 {
    c.regs[((instr >> lo) & 7u16) as int]
}

/// The result of an ALU opcode written to `rd`, with its flags.
pub open spec fn alu_to_reg(c: CpuView, opcode: u32, rd: int, op1: u32, op2: u32) -> CpuView {
    let cf = flag_c(c.cpsr);
    c.with_cpsr(alu_psr(c.cpsr, opcode, op1, op2, true, cf)).with_reg(rd, alu_value(opcode, op1, op2, cf))
}

/// Format 1: shift by immediate.
pub open spec fn thumb_shift(c: CpuView, instr: u16) -> (CpuView, u32) {
    let op = ((instr >> 11u16) & 3u16) as u32;
    let offset = ((instr >> 6u16) & 0x1Fu16) as u32;
    let rd = (instr & 7u16) as int;
    let val = low_reg(c, instr, 3);
    let cf = flag_c(c.cpsr);
    let (result, carry) = if offset == 0 {
        if op == 0 { (val, cf) } else if op == 1 { (0u32, bit(val, 31)) } else { (asr(val, 31), bit(val, 31)) }
    } else {
        shifter(op, val, offset, cf)
    };
    (c.with_reg(rd, result).with_cpsr(with_bit(psr_with_nz(c.cpsr, result), 29, carry)), 1)
}

/// Format 2: ADD / SUB with a register or 3-bit immediate.
pub open spec fn thumb_add_sub(c: CpuView, instr: u16) -> (CpuView, u32) {
    let is_sub = instr & (1u16 << 9u16) != 0;
    let is_imm = instr & (1u16 << 10u16) != 0;
    let op2 = if is_imm { ((instr >> 6u16) & 7u16) as u32 } else { low_reg(c, instr, 6) };
    (alu_to_reg(c, if is_sub { 0x2 } else { 0x4 }, (instr & 7u16) as int, low_reg(c, instr, 3), op2), 1)
}

/// The ALU opcode of format 3: MOV, CMP, ADD, SUB.
pub open spec fn imm_opcode(op: u16) -> u32 {
    if op == 0 { 0xD } else if op == 1 { 0xA } else if op == 2 { 0x4 } else { 0x2 }
}

/// Format 3: MOV / CMP / ADD / SUB with an 8-bit immediate.
pub open spec fn thumb_imm_op(c: CpuView, instr: u16) -> (CpuView, u32) {
    let opcode = imm_opcode((instr >> 11u16) & 3u16);
    let rd = ((instr >> 8u16) & 7u16) as int;
    let op1 = low_reg(c, instr, 8);
    let imm = (instr & 0xFFu16) as u32;
    let cf = flag_c(c.cpsr);
    let c1 = c.with_cpsr(alu_psr(c.cpsr, opcode, op1, imm, true, cf));
    if opcode == 0xA { (c1, 1) } else { (c1.with_reg(rd, alu_value(opcode, op1, imm, cf)), 1) }
}

/// A register-specified shift of format 4: N and Z from the result, C
/// from the shifter unless the amount is zero.
pub open spec fn alu_shift(c: CpuView, rd: int, st: u32, a: u32, b: u32) -> CpuView {
    let (result, carry) = shifter(st, a, b & 0xFFu32, flag_c(c.cpsr));
    let p = psr_with_nz(c.cpsr, result);
    c.with_reg(rd, result).with_cpsr(if b & 0xFFu32 != 0 { with_bit(p, 29, carry) } else { p })
}

/// A logical result of format 4 written with N and Z.
pub open spec fn alu_logic(c: CpuView, rd: int, result: u32) -> CpuView {
    c.with_reg(rd, result).with_cpsr(psr_with_nz(c.cpsr, result))
}

/// Format 4: ALU operations between low registers.
pub open spec fn thumb_alu(c: CpuView, instr: u16) -> (CpuView, u32) {
    let op = (instr >> 6u16) & 0xFu16;
    let rd = (instr & 7u16) as int;
    let a = c.regs[rd];
    let b = low_reg(c, instr, 3);
    let cf = flag_c(c.cpsr);
    let c1 = if op == 0x0 {
        alu_logic(c, rd, a & b)
    } else if op == 0x1 {
        alu_logic(c, rd, a ^ b)
    } else if op == 0x2 {
        alu_shift(c, rd, 0, a, b)
    } else if op == 0x3 {
        alu_shift(c, rd, 1, a, b)
    } else if op == 0x4 {
        alu_shift(c, rd, 2, a, b)
    } else if op == 0x5 {
        alu_to_reg(c, 0x5, rd, a, b)
    } else if op == 0x6 {
        alu_to_reg(c, 0x6, rd, a, b)
    } else if op == 0x7 {
        alu_shift(c, rd, 3, a, b)
    } else if op == 0x8 {
        c.with_cpsr(psr_with_nz(c.cpsr, a & b))
    } else if op == 0x9 {
        // NEG: 0 - b
        let result = wrap32(0 - b);
        c.with_reg(rd, result).with_cpsr(
            with_bit(with_bit(psr_with_nz(c.cpsr, result), 29, b == 0), 28, !fits_i32(0 - signed(b))))
    } else if op == 0xA {
        c.with_cpsr(alu_psr(c.cpsr, 0xA, a, b, true, cf))
    } else if op == 0xB {
        c.with_cpsr(alu_psr(c.cpsr, 0xB, a, b, true, cf))
    } else if op == 0xC {
        alu_logic(c, rd, a | b)
    } else if op == 0xD {
        alu_logic(c, rd, wrap32(a * b))
    } else if op == 0xE {
        alu_logic(c, rd, a & !b)
    } else {
        alu_logic(c, rd, !b)
    };
    (c1, 1)
}

/// Format 5: ADD / CMP / MOV on any registers, and BX.
pub open spec fn thumb_hi_reg(c: CpuView, m: BusView, instr: u16) -> (CpuView, u32) {
    let op = (instr >> 8u16) & 3u16;
    let h1 = (instr >> 7u16) & 1u16;
    let h2 = (instr >> 6u16) & 1u16;
    let rs = ((h2 << 3u16) | ((instr >> 3u16) & 7u16)) as int;
    let rd = ((h1 << 3u16) | (instr & 7u16)) as int;
    if op == 0 {
        let c1 = c.with_reg(rd, wrap32(c.regs[rd] + c.regs[rs]));
        if rd == 15 { (filled(c1, m), 3) } else { (c1, 1) }
    } else if op == 1 {
        (c.with_cpsr(alu_psr(c.cpsr, 0xA, c.regs[rd], c.regs[rs], true, flag_c(c.cpsr))), 1)
    } else if op == 2 {
        let c1 = c.with_reg(rd, c.regs[rs]);
        if rd == 15 { (filled(c1, m), 3) } else { (c1, 1) }
    } else {
        (jump_exchange(c, m, c.regs[rs]), 3)
    }
}

/// Format 6: PC-relative load.
pub open spec fn thumb_pc_load(c: CpuView, m: BusView, instr: u16) -> (CpuView, u32) {
    let rd = ((instr >> 8u16) & 7u16) as int;
    let addr = wrap32((c.regs[15] & !2u32) + (instr & 0xFFu16) * 4);
    (c.with_reg(rd, mem_read32(m.mem, addr)), 3)
}

/// Formats 7 and 8: load/store with register offset.
pub open spec fn thumb_ls_reg(c: CpuView, m: BusView, instr: u16) -> (CpuView, BusView, u32) {
    let op = (instr >> 10u16) & 3u16;
    let rd = (instr & 7u16) as int;
    let addr = wrap32(low_reg(c, instr, 3) + low_reg(c, instr, 6));
    let v = c.regs[rd];
    let (c1, m1) = if instr & (1u16 << 9u16) != 0 {
        if op == 0 {
            (c, bus_write16(m, addr, v as u16))
        } else if op == 1 {
            (c.with_reg(rd, sext8(mem_read8(m.mem, addr))), m)
        } else if op == 2 {
            (c.with_reg(rd, mem_read16(m.mem, addr) as u32), m)
        } else {
            (c.with_reg(rd, sext16(mem_read16(m.mem, addr))), m)
        }
    } else {
        if op == 0 {
            (c, bus_write32(m, addr, v))
        } else if op == 1 {
            (c.with_reg(rd, mem_read32(m.mem, addr)), m)
        } else if op == 2 {
            (c, bus_write8(m, addr, v as u8))
        } else {
            (c.with_reg(rd, mem_read8(m.mem, addr) as u32), m)
        }
    };
    (c1, m1, 2)
}

/// Format 9: load/store word or byte with a 5-bit immediate offset.
pub open spec fn thumb_ls_imm(c: CpuView, m: BusView, instr: u16) -> (CpuView, BusView, u32) {
    let byte = instr & (1u16 << 12u16) != 0;
    let load = instr & (1u16 << 11u16) != 0;
    let offset = ((instr >> 6u16) & 0x1Fu16) as int;
    let rd = (instr & 7u16) as int;
    let addr = wrap32(low_reg(c, instr, 3) + if byte { offset } else { offset * 4 });
    if load {
        (c.with_reg(rd, if byte { mem_read8(m.mem, addr) as u32 } else { mem_read32(m.mem, addr) }), m, 2)
    } else if byte {
        (c, bus_write8(m, addr, c.regs[rd] as u8), 2)
    } else {
        (c, bus_write32(m, addr, c.regs[rd]), 2)
    }
}

/// Format 10: load/store halfword with a 5-bit immediate offset.
pub open spec fn thumb_ls_half(c: CpuView, m: BusView, instr: u16) -> (CpuView, BusView, u32) {
    let load = instr & (1u16 << 11u16) != 0;
    let rd = (instr & 7u16) as int;
    let addr = wrap32(low_reg(c, instr, 3) + ((instr >> 6u16) & 0x1Fu16) * 2);
    if load {
        (c.with_reg(rd, mem_read16(m.mem, addr) as u32), m, 2)
    } else {
        (c, bus_write16(m, addr, c.regs[rd] as u16), 2)
    }
}

/// Format 11: SP-relative load/store.
pub open spec fn thumb_ls_sp(c: CpuView, m: BusView, instr: u16) -> (CpuView, BusView, u32) {
    let load = instr & (1u16 << 11u16) != 0;
    let rd = ((instr >> 8u16) & 7u16) as int;
    let addr = wrap32(c.regs[13] + (instr & 0xFFu16) * 4);
    if load {
        (c.with_reg(rd, mem_read32(m.mem, addr)), m, 2)
    } else {
        (c, bus_write32(m, addr, c.regs[rd]), 2)
    }
}

/// Format 12: load address relative to SP or PC.
pub open spec fn thumb_load_address(c: CpuView, instr: u16) -> (CpuView, u32) {
    let sp = instr & (1u16 << 11u16) != 0;
    let rd = ((instr >> 8u16) & 7u16) as int;
    let offset = (instr & 0xFFu16) * 4;
    (c.with_reg(rd, if sp { wrap32(c.regs[13] + offset) } else { wrap32((c.regs[15] & !2u32) + offset) }), 1)
}

/// Format 13: add a signed offset to SP.
pub open spec fn thumb_add_sp(c: CpuView, instr: u16) -> (CpuView, u32) {
    let offset = (instr & 0x7Fu16) * 4;
    if instr & (1u16 << 7u16) != 0 {
        (c.with_reg(13, wrap32(c.regs[13] - offset)), 1)
    } else {
        (c.with_reg(13, wrap32(c.regs[13] + offset)), 1)
    }
}

/// Format 14 POP (optionally PC): ascending loads from SP.
pub open spec fn thumb_pop(c: CpuView, m: BusView, instr: u16) -> (CpuView, BusView, u32) {
    let pc_lr = instr & (1u16 << 8u16) != 0;
    let list = (instr & 0xFFu16) as u32;
    let (c1, m1, n) = block_regs(c, m, list, true, 0, 8, c.regs[13], 0);
    let addr = wrap32(c.regs[13] + n * 4);
    if pc_lr {
        let c2 = filled(c1.with_reg(15, mem_read32(m1.mem, addr) & !1u32), m1);
        (c2.with_reg(13, wrap32(addr + 4)), m1, (n + 4) as u32)
    } else {
        (c1.with_reg(13, addr), m1, (n + 1) as u32)
    }
}

/// Format 14 PUSH (optionally LR): SP lowered by the registers stored,
/// which go to ascending addresses from the new SP.
pub open spec fn thumb_push(c: CpuView, m: BusView, instr: u16) -> (CpuView, BusView, u32) {
    let pc_lr = instr & (1u16 << 8u16) != 0;
    let list = (instr & 0xFFu16) as u32;
    let count = popcount(list, 32) + if pc_lr { 1int } else { 0int };
    let start = wrap32(c.regs[13] - count * 4);
    let c0 = c.with_reg(13, start);
    let (c1, m1, n) = block_regs(c0, m, list, false, 0, 8, start, 0);
    if pc_lr {
        (c1, bus_write32(m1, wrap32(start + n * 4), c1.regs[14]), (n + 2) as u32)
    } else {
        (c1, m1, (n + 1) as u32)
    }
}

/// Format 14: PUSH (optionally LR) / POP (optionally PC).
pub open spec fn thumb_push_pop(c: CpuView, m: BusView, instr: u16) -> (CpuView, BusView, u32) {
    if instr & (1u16 << 11u16) != 0 { thumb_pop(c, m, instr) } else { thumb_push(c, m, instr) }
}

/// Format 15: LDMIA / STMIA with write-back (not for a load that lists
/// the base register).
pub open spec fn thumb_multiple(c: CpuView, m: BusView, instr: u16) -> (CpuView, BusView, u32) {
    let load = instr & (1u16 << 11u16) != 0;
    let rb = ((instr >> 8u16) & 7u16) as int;
    let list = (instr & 0xFFu16) as u32;
    let (c1, m1, n) = block_regs(c, m, list, load, 0, 8, c.regs[rb], 0);
    let c2 = if !load || list & (1u32 << (rb as u32)) == 0 { c1.with_reg(rb, wrap32(c.regs[rb] + n * 4)) } else { c1 };
    (c2, m1, (n + 1) as u32)
}

/// Format 16: conditional branch by a signed 8-bit halfword offset.
pub open spec fn thumb_cond_branch(c: CpuView, m: BusView, instr: u16) -> (CpuView, u32) {
    let cond = ((instr >> 8u16) & 0xFu16) as u32;
    if !cond_holds(c.cpsr, cond) {
        (c, 1)
    } else {
        let f = (instr & 0xFFu16) as int;
        let off = 2 * (if f >= 0x80 { f - 0x100 } else { f });
        (filled(c.with_reg(15, wrap32(c.regs[15] + off)), m), 3)
    }
}

/// Format 17: SWI from Thumb state.
pub open spec fn thumb_swi(c: CpuView, m: BusView) -> (CpuView, u32) {
    let s = switched_mode(c, Mode::Supervisor);
    let s1 = s.with_reg(14, wrap32(s.regs[15] - 2));
    (filled(s1.with_cpsr(with_bit(with_bit(s1.cpsr, 7, true), 5, false)).with_reg(15, 8), m), 3)
}

/// Format 18: unconditional branch by a signed 11-bit halfword offset.
pub open spec fn thumb_branch(c: CpuView, m: BusView, instr: u16) -> (CpuView, u32) {
    let f = (instr & 0x7FFu16) as int;
    let off = 2 * (if f >= 0x400 { f - 0x800 } else { f });
    (filled(c.with_reg(15, wrap32(c.regs[15] + off)), m), 3)
}

/// Format 19: long branch with link, in two halves.
pub open spec fn thumb_long_branch(c: CpuView, m: BusView, instr: u16) -> (CpuView, u32) {
    let f = (instr & 0x7FFu16) as int;
    if instr & (1u16 << 11u16) == 0 {
        let off = 0x1000 * (if f >= 0x400 { f - 0x800 } else { f });
        (c.with_reg(14, wrap32(c.regs[15] + off)), 1)
    } else {
        let target = wrap32(c.regs[14] + f * 2);
        let c1 = c.with_reg(14, wrap32(c.regs[15] - 2) | 1u32).with_reg(15, target & !1u32);
        (filled(c1, m), 3)
    }
}

pub open spec fn keep(r: (CpuView, u32), m: BusView) -> (CpuView, BusView, u32) {
    (r.0, m, r.1)
}

/// Decode a Thumb instruction and execute it.
pub open spec fn thumb_dispatch(c: CpuView, m: BusView, instr: u16) -> (CpuView, BusView, u32) {
    let top = instr >> 13u16;
    if top == 0 {
        if (instr >> 11u16) & 3u16 == 3 { keep(thumb_add_sub(c, instr), m) } else { keep(thumb_shift(c, instr), m) }
    } else if top == 1 {
        keep(thumb_imm_op(c, instr), m)
    } else if top == 2 {
        if instr & (1u16 << 12u16) != 0 {
            thumb_ls_reg(c, m, instr)
        } else if instr & (1u16 << 11u16) != 0 {
            keep(thumb_pc_load(c, m, instr), m)
        } else if (instr >> 10u16) & 3u16 == 0 {
            keep(thumb_alu(c, instr), m)
        } else {
            keep(thumb_hi_reg(c, m, instr), m)
        }
    } else if top == 3 {
        thumb_ls_imm(c, m, instr)
    } else if top == 4 {
        if instr & (1u16 << 12u16) != 0 { thumb_ls_sp(c, m, instr) } else { thumb_ls_half(c, m, instr) }
    } else if top == 5 {
        if instr & (1u16 << 12u16) != 0 {
            if instr & (1u16 << 10u16) != 0 { thumb_push_pop(c, m, instr) } else { keep(thumb_add_sp(c, instr), m) }
        } else {
            keep(thumb_load_address(c, instr), m)
        }
    } else if top == 6 {
        if instr & (1u16 << 12u16) != 0 {
            if (instr >> 8u16) & 0xFu16 == 0xF { keep(thumb_swi(c, m), m) } else { keep(thumb_cond_branch(c, m, instr), m) }
        } else {
            thumb_multiple(c, m, instr)
        }
    } else {
        if instr & (1u16 << 12u16) != 0 { keep(thumb_long_branch(c, m, instr), m) } else { keep(thumb_branch(c, m, instr), m) }
    }
}

/// One Thumb step: take the halfword from the prefetch buffer, fetch the
/// next one, advance r15 and execute.
pub open spec fn thumb_step(c: CpuView, m: BusView) -> (CpuView, BusView, u32) {
    let instr = c.pipeline[0] as u16;
    let c1 = CpuView {
        pipeline: seq![c.pipeline[1], mem_read16(m.mem, c.regs[15]) as u32],
        regs: c.regs.update(15, wrap32(c.regs[15] + 2)),
        ..c
    };
    thumb_dispatch(c1, m, instr)
}

impl Cpu {
    /// Execute one Thumb instruction, return cycles.
    pub fn execute_thumb(&mut self, bus: &mut Bus) -> (r: u32)
        requires
            old(bus).wf(),
        ensures
            final(bus).wf(),
            (final(self)@, final(bus)@, r) == thumb_step(old(self)@, old(bus)@),
    {
        let instr = self.pipeline[0] as u16;
        self.pipeline[0] = self.pipeline[1];
        self.pipeline[1] = bus.read16(self.regs[15]) as u32;
        self.regs[15] = self.regs[15].wrapping_add(2);
        assert(self.pipeline@ =~= seq![old(self).pipeline@[1], mem_read16(old(bus).mem(), old(self).regs@[15]) as u32]);
        self.thumb_dispatch(instr, bus)
    }

    fn thumb_dispatch(&mut self, instr: u16, bus: &mut Bus) -> (r: u32)
        requires
            old(bus).wf(),
        ensures
            final(bus).wf(),
            (final(self)@, final(bus)@, r) == thumb_dispatch(old(self)@, old(bus)@, instr),
    {
        let top = instr >> 13u16;
        if top == 0b000 {
            if (instr >> 11u16) & 3 == 3 {
                // Format 2: ADD/SUB
                self.thumb_add_sub(instr, bus)
            } else {
                // Format 1: Move shifted register
                self.thumb_shift(instr)
            }
        } else if top == 0b001 {
            // Format 3: MOV/CMP/ADD/SUB immediate
            self.thumb_imm_op(instr)
        } else if top == 0b010 {
            if instr & (1u16 << 12u16) != 0 {
                // Format 7/8: Load/store register offset
                self.thumb_load_store_reg(instr, bus)
            } else if instr & (1u16 << 11u16) != 0 {
                // Format 6: PC-relative load
                self.thumb_pc_relative_load(instr, bus)
            } else if (instr >> 10u16) & 3 == 0 {
                // Format 4: ALU operations
                self.thumb_alu(instr, bus)
            } else {
                // Format 5: Hi register operations / BX
                self.thumb_hi_reg_bx(instr, bus)
            }
        } else if top == 0b011 {
            // Format 9: Load/store with immediate offset
            self.thumb_load_store_imm(instr, bus)
        } else if top == 0b100 {
            if instr & (1u16 << 12u16) != 0 {
                // Format 11: SP-relative load/store
                self.thumb_sp_relative_load_store(instr, bus)
            } else {
                // Format 10: Load/store halfword
                self.thumb_load_store_halfword(instr, bus)
            }
        } else if top == 0b101 {
            if instr & (1u16 << 12u16) != 0 {
                // Format 13: Add offset to SP / Format 14: push/pop
                if instr & (1u16 << 10u16) != 0 {
                    self.thumb_push_pop(instr, bus)
                } else {
                    self.thumb_add_sp(instr)
                }
            } else {
                // Format 12: Load address
                self.thumb_load_address(instr)
            }
        } else if top == 0b110 {
            if instr & (1u16 << 12u16) != 0 {
                if (instr >> 8u16) & 0xF == 0xF {
                    // Format 17: SWI
                    self.thumb_swi(bus)
                } else {
                    // Format 16: Conditional branch
                    self.thumb_cond_branch(instr, bus)
                }
            } else {
                // Format 15: Multiple load/store
                self.thumb_multiple_load_store(instr, bus)
            }
        } else {
            if instr & (1u16 << 12u16) != 0 {
                // Format 19: Long branch with link
                self.thumb_long_branch(instr, bus)
            } else {
                // Format 18: Unconditional branch
                self.thumb_branch(instr, bus)
            }
        }
    }

    // Format 1: Shift by immediate
    fn thumb_shift(&mut self, instr: u16) -> (r: u32)
        requires
            (instr >> 11u16) & 3u16 != 3,
        ensures
            (final(self)@, r) == thumb_shift(old(self)@, instr),
    {
        let op = (instr >> 11u16) & 3;
        let offset = ((instr >> 6u16) & 0x1F) as u32;
        let rs = ((instr >> 3u16) & 7) as usize;
        let rd = (instr & 7) as usize;
        let val = self.regs[rs];
        proof { lemma_word_bits(val); }
        let (result, carry) = if offset == 0 {
            if op == 0 {
                (val, self.cpsr.c())
            } else if op == 1 {
                (0, val >> 31u32 != 0)
            } else {
                let s = asr32(val, 31);
                (s, s != 0)
            }
        } else {
            self.barrel_shift(op as u32, val, offset, self.cpsr.c())
        };
        self.regs[rd] = result;
        self.cpsr.set_nz(result);
        self.cpsr.set_c(carry);
        1
    }

    // Format 2: ADD/SUB
    fn thumb_add_sub(&mut self, instr: u16, _bus: &Bus) -> (r: u32)
        ensures
            (final(self)@, r) == thumb_add_sub(old(self)@, instr),
    {
        let is_sub = instr & (1u16 << 9u16) != 0;
        let is_imm = instr & (1u16 << 10u16) != 0;
        let rs = ((instr >> 3u16) & 7) as usize;
        let rd = (instr & 7) as usize;
        let op1 = self.regs[rs];
        let op2 = if is_imm {
            ((instr >> 6u16) & 7) as u32
        } else {
            self.regs[((instr >> 6u16) & 7) as usize]
        };
        let carry = self.cpsr.c();
        let opcode = if is_sub { 0x2 } else { 0x4 }; // SUB or ADD
        if let Some(result) = self.alu_op(opcode, rd, op1, op2, true, carry) {
            self.regs[rd] = result;
        }
        1
    }

    // Format 3: Immediate operations
    fn thumb_imm_op(&mut self, instr: u16) -> (r: u32)
        ensures
            (final(self)@, r) == thumb_imm_op(old(self)@, instr),
    {
        let op = (instr >> 11u16) & 3;
        let rd = ((instr >> 8u16) & 7) as usize;
        let imm = (instr & 0xFF) as u32;
        let op1 = self.regs[rd];
        let carry = self.cpsr.c();
        let opcode = if op == 0 {
            0xD // MOV
        } else if op == 1 {
            0xA // CMP
        } else if op == 2 {
            0x4 // ADD
        } else {
            0x2 // SUB
        };
        if let Some(result) = self.alu_op(opcode, rd, op1, imm, true, carry) {
            self.regs[rd] = result;
        }
        1
    }

    /// A register-specified shift of format 4.
    fn thumb_alu_shift(&mut self, rd: usize, st: u32, a: u32, b: u32)
        requires
            rd < 16,
            st < 4,
        ensures
            final(self)@ == alu_shift(old(self)@, rd as int, st, a, b),
    {
        let carry = self.cpsr.c();
        let (result, c) = self.barrel_shift(st, a, b & 0xFF, carry);
        self.regs[rd] = result;
        self.cpsr.set_nz(result);
        if b & 0xFF != 0 {
            self.cpsr.set_c(c);
        }
    }

    /// A logical result of format 4.
    fn thumb_alu_logic(&mut self, rd: usize, result: u32)
        requires
            rd < 16,
        ensures
            final(self)@ == alu_logic(old(self)@, rd as int, result),
    {
        self.regs[rd] = result;
        self.cpsr.set_nz(self.regs[rd]);
    }

    // Format 4: ALU operations
    fn thumb_alu(&mut self, instr: u16, bus: &Bus) -> (r: u32)
        ensures
            (final(self)@, r) == thumb_alu(old(self)@, instr),
    {
        let op = (instr >> 6u16) & 0xF;
        let rs = ((instr >> 3u16) & 7) as usize;
        let rd = (instr & 7) as usize;
        let a = self.regs[rd];
        let b = self.regs[rs];
        let carry = self.cpsr.c();
        if op == 0x0 {
            self.thumb_alu_logic(rd, a & b); // AND
        } else if op == 0x1 {
            self.thumb_alu_logic(rd, a ^ b); // EOR
        } else if op == 0x2 {
            self.thumb_alu_shift(rd, 0, a, b); // LSL
        } else if op == 0x3 {
            self.thumb_alu_shift(rd, 1, a, b); // LSR
        } else if op == 0x4 {
            self.thumb_alu_shift(rd, 2, a, b); // ASR
        } else if op == 0x5 {
            // ADC
            if let Some(r) = self.alu_op(0x5, rd, a, b, true, carry) {
                self.regs[rd] = r;
            }
        } else if op == 0x6 {
            // SBC
            if let Some(r) = self.alu_op(0x6, rd, a, b, true, carry) {
                self.regs[rd] = r;
            }
        } else if op == 0x7 {
            self.thumb_alu_shift(rd, 3, a, b); // ROR
        } else if op == 0x8 {
            // TST
            self.cpsr.set_nz(a & b);
        } else if op == 0x9 {
            // NEG
            let result = 0u32.wrapping_sub(b);
            self.regs[rd] = result;
            self.cpsr.set_nz(result);
            self.cpsr.set_c(b == 0);
            proof { lemma_neg_overflow(b, result); }
            self.cpsr.set_v((b & result) >> 31u32 != 0);
        } else if op == 0xA {
            // CMP
            self.alu_op(0xA, rd, a, b, true, carry);
        } else if op == 0xB {
            // CMN
            self.alu_op(0xB, rd, a, b, true, carry);
        } else if op == 0xC {
            self.thumb_alu_logic(rd, a | b); // ORR
        } else if op == 0xD {
            // MUL
            proof { lemma_wrap_mul(a, b); }
            self.thumb_alu_logic(rd, a.wrapping_mul(b));
        } else if op == 0xE {
            self.thumb_alu_logic(rd, a & !b); // BIC
        } else {
            self.thumb_alu_logic(rd, !b); // MVN
        }
        let _ = bus;
        1
    }

    // Format 5: Hi register ops / BX
    fn thumb_hi_reg_bx(&mut self, instr: u16, bus: &Bus) -> (r: u32)
        requires
            bus.wf(),
        ensures
            (final(self)@, r) == thumb_hi_reg(old(self)@, bus@, instr),
    {
        let op = (instr >> 8u16) & 3;
        let h1 = (instr >> 7u16) & 1;
        let h2 = (instr >> 6u16) & 1;
        assert(((h2 << 3u16) | ((instr >> 3u16) & 7u16)) < 16 && ((h1 << 3u16) | (instr & 7u16)) < 16) by (bit_vector)
            requires h2 == (instr >> 6u16) & 1u16, h1 == (instr >> 7u16) & 1u16;
        let rs = ((h2 << 3u16) | ((instr >> 3u16) & 7)) as usize;
        let rd = ((h1 << 3u16) | (instr & 7)) as usize;
        if op == 0 {
            // ADD
            self.regs[rd] = self.regs[rd].wrapping_add(self.regs[rs]);
            if rd == 15 {
                self.flush_pipeline(bus);
                return 3;
            }
        } else if op == 1 {
            // CMP
            let carry = self.cpsr.c();
            self.alu_op(0xA, rd, self.regs[rd], self.regs[rs], true, carry);
        } else if op == 2 {
            // MOV
            self.regs[rd] = self.regs[rs];
            if rd == 15 {
                self.flush_pipeline(bus);
                return 3;
            }
        } else {
            // BX
            let addr = self.regs[rs];
            self.jump_exchange(addr, bus);
            return 3;
        }
        1
    }

    // Format 6: PC-relative load
    fn thumb_pc_relative_load(&mut self, instr: u16, bus: &Bus) -> (r: u32)
        requires
            bus.wf(),
        ensures
            (final(self)@, r) == thumb_pc_load(old(self)@, bus@, instr),
    {
        let rd = ((instr >> 8u16) & 7) as usize;
        let offset = (instr & 0xFF) as u32 * 4;
        let addr = (self.regs[15] & !2u32).wrapping_add(offset);
        self.regs[rd] = bus.read32(addr);
        3
    }

    // Format 7/8: Load/store register offset
    fn thumb_load_store_reg(&mut self, instr: u16, bus: &mut Bus) -> (r: u32)
        requires
            old(bus).wf(),
        ensures
            final(bus).wf(),
            (final(self)@, final(bus)@, r) == thumb_ls_reg(old(self)@, old(bus)@, instr),
    {
        let op = (instr >> 10u16) & 3;
        let ro = ((instr >> 6u16) & 7) as usize;
        let rb = ((instr >> 3u16) & 7) as usize;
        let rd = (instr & 7) as usize;
        let addr = self.regs[rb].wrapping_add(self.regs[ro]);
        if instr & (1u16 << 9u16) != 0 {
            // Format 8: sign-extended / halfword
            if op == 0 {
                bus.write16(addr, self.regs[rd] as u16); // STRH
            } else if op == 1 {
                self.regs[rd] = sign_extend8(bus.read8(addr)); // LDSB
            } else if op == 2 {
                self.regs[rd] = bus.read16(addr) as u32; // LDRH
            } else {
                self.regs[rd] = sign_extend16(bus.read16(addr)); // LDSH
            }
        } else {
            // Format 7: word/byte
            if op == 0 {
                bus.write32(addr, self.regs[rd]); // STR
            } else if op == 1 {
                self.regs[rd] = bus.read32(addr); // LDR
            } else if op == 2 {
                bus.write8(addr, self.regs[rd] as u8); // STRB
            } else {
                self.regs[rd] = bus.read8(addr) as u32; // LDRB
            }
        }
        2
    }

    // Format 9: Load/store with immediate offset
    #[verifier::spinoff_prover]
    #[verifier::rlimit(40)]
    fn thumb_load_store_imm(&mut self, instr: u16, bus: &mut Bus) -> (r: u32)
        requires
            old(bus).wf(),
        ensures
            final(bus).wf(),
            (final(self)@, final(bus)@, r) == thumb_ls_imm(old(self)@, old(bus)@, instr),
    {
        let byte = instr & (1u16 << 12u16) != 0;
        let load = instr & (1u16 << 11u16) != 0;
        let offset = ((instr >> 6u16) & 0x1F) as u32;
        let rb = ((instr >> 3u16) & 7) as usize;
        let rd = (instr & 7) as usize;
        let addr = if byte {
            self.regs[rb].wrapping_add(offset)
        } else {
            self.regs[rb].wrapping_add(offset * 4)
        };
        let ghost c = self@;
        let ghost m = bus@;
        assert(addr == wrap32(low_reg(c, instr, 3) + if byte { offset as int } else { offset * 4 }));
        assert(rd as int == (instr & 7u16) as int);
        if load {
            let v: u32 = if byte {
                bus.read8(addr) as u32
            } else {
                bus.read32(addr)
            };
            self.regs[rd] = v;
        } else if byte {
            let v: u8 = self.regs[rd] as u8;
            bus.write8(addr, v);
        } else {
            let v: u32 = self.regs[rd];
            bus.write32(addr, v);
        }
        2
    }

    // Format 10: Load/store halfword
    fn thumb_load_store_halfword(&mut self, instr: u16, bus: &mut Bus) -> (r: u32)
        requires
            old(bus).wf(),
        ensures
            final(bus).wf(),
            (final(self)@, final(bus)@, r) == thumb_ls_half(old(self)@, old(bus)@, instr),
    {
        let load = instr & (1u16 << 11u16) != 0;
        let offset = ((instr >> 6u16) & 0x1F) as u32 * 2;
        let rb = ((instr >> 3u16) & 7) as usize;
        let rd = (instr & 7) as usize;
        let addr = self.regs[rb].wrapping_add(offset);
        if load {
            self.regs[rd] = bus.read16(addr) as u32;
        } else {
            bus.write16(addr, self.regs[rd] as u16);
        }
        2
    }

    // Format 11: SP-relative load/store
    fn thumb_sp_relative_load_store(&mut self, instr: u16, bus: &mut Bus) -> (r: u32)
        requires
            old(bus).wf(),
        ensures
            final(bus).wf(),
            (final(self)@, final(bus)@, r) == thumb_ls_sp(old(self)@, old(bus)@, instr),
    {
        let load = instr & (1u16 << 11u16) != 0;
        let rd = ((instr >> 8u16) & 7) as usize;
        let offset = (instr & 0xFF) as u32 * 4;
        let addr = self.regs[13].wrapping_add(offset);
        if load {
            self.regs[rd] = bus.read32(addr);
        } else {
            bus.write32(addr, self.regs[rd]);
        }
        2
    }

    // Format 12: Load address
    fn thumb_load_address(&mut self, instr: u16) -> (r: u32)
        ensures
            (final(self)@, r) == thumb_load_address(old(self)@, instr),
    {
        let sp = instr & (1u16 << 11u16) != 0;
        let rd = ((instr >> 8u16) & 7) as usize;
        let offset = (instr & 0xFF) as u32 * 4;
        self.regs[rd] = if sp {
            self.regs[13].wrapping_add(offset)
        } else {
            (self.regs[15] & !2u32).wrapping_add(offset)
        };
        1
    }

    // Format 13: Add offset to SP
    fn thumb_add_sp(&mut self, instr: u16) -> (r: u32)
        ensures
            (final(self)@, r) == thumb_add_sp(old(self)@, instr),
    {
        let offset = (instr & 0x7F) as u32 * 4;
        if instr & (1u16 << 7u16) != 0 {
            self.regs[13] = self.regs[13].wrapping_sub(offset);
        } else {
            self.regs[13] = self.regs[13].wrapping_add(offset);
        }
        1
    }
}

impl Cpu {
    // Format 14: Push/Pop
    fn thumb_push_pop(&mut self, instr: u16, bus: &mut Bus) -> (r: u32)
        requires
            old(bus).wf(),
        ensures
            final(bus).wf(),
            (final(self)@, final(bus)@, r) == thumb_push_pop(old(self)@, old(bus)@, instr),
    {
        if instr & (1u16 << 11u16) != 0 {
            self.thumb_pop(instr, bus)
        } else {
            self.thumb_push(instr, bus)
        }
    }

    fn thumb_pop(&mut self, instr: u16, bus: &mut Bus) -> (r: u32)
        requires
            old(bus).wf(),
        ensures
            final(bus).wf(),
            (final(self)@, final(bus)@, r) == thumb_pop(old(self)@, old(bus)@, instr),
    {
        let pc_lr = instr & (1u16 << 8u16) != 0;
        let reg_list = (instr & 0xFF) as u32;
        let sp = self.regs[13];
        let (n, end) = self.transfer_block(bus, reg_list, true, sp, 8);
        let mut addr = end;
        let mut cycles = n;
        if pc_lr {
            self.regs[15] = bus.read32(addr) & !1u32;
            addr = addr.wrapping_add(4);
            self.flush_pipeline(bus);
            cycles = cycles + 3;
        }
        self.regs[13] = addr;
        cycles + 1
    }

    fn thumb_push(&mut self, instr: u16, bus: &mut Bus) -> (r: u32)
        requires
            old(bus).wf(),
        ensures
            final(bus).wf(),
            (final(self)@, final(bus)@, r) == thumb_push(old(self)@, old(bus)@, instr),
    {
        let pc_lr = instr & (1u16 << 8u16) != 0;
        let reg_list = (instr & 0xFF) as u32;
        let ones = count_ones(reg_list);
        assert(popcount(reg_list, 32) <= 32) by { lemma_popcount_le32(reg_list); }
        let count = ones + if pc_lr { 1u32 } else { 0u32 };
        let addr = self.regs[13].wrapping_sub(count * 4);
        self.regs[13] = addr;
        let (n, end) = self.transfer_block(bus, reg_list, false, addr, 8);
        let mut cycles = n;
        if pc_lr {
            bus.write32(end, self.regs[14]);
            cycles = cycles + 1;
        }
        cycles + 1
    }

    // Format 15: Multiple load/store
    fn thumb_multiple_load_store(&mut self, instr: u16, bus: &mut Bus) -> (r: u32)
        requires
            old(bus).wf(),
        ensures
            final(bus).wf(),
            (final(self)@, final(bus)@, r) == thumb_multiple(old(self)@, old(bus)@, instr),
    {
        let load = instr & (1u16 << 11u16) != 0;
        let rb = ((instr >> 8u16) & 7) as usize;
        let reg_list = (instr & 0xFF) as u32;
        let base = self.regs[rb];
        let (cycles, addr) = self.transfer_block(bus, reg_list, load, base, 8);
        // Writeback (always for STMIA, for LDMIA only if rb not in list)
        if !load || (reg_list & (1u32 << rb as u32)) == 0 {
            self.regs[rb] = addr;
        }
        cycles + 1
    }

    // Format 16: Conditional branch
    fn thumb_cond_branch(&mut self, instr: u16, bus: &Bus) -> (r: u32)
        requires
            bus.wf(),
        ensures
            (final(self)@, r) == thumb_cond_branch(old(self)@, bus@, instr),
    {
        let cond = ((instr >> 8u16) & 0xF) as u32;
        if !self.check_condition(cond) {
            return 1;
        }
        let f = (instr & 0xFF) as u8;
        let offset = sign_extend8(f) << 1u32;
        proof { lemma_cond_branch_offset(f, self.regs@[15]); }
        self.regs[15] = self.regs[15].wrapping_add(offset);
        self.flush_pipeline(bus);
        3
    }

    // Format 17: SWI
    fn thumb_swi(&mut self, bus: &Bus) -> (r: u32)
        requires
            bus.wf(),
        ensures
            (final(self)@, r) == thumb_swi(old(self)@, bus@),
    {
        self.switch_mode(Mode::Supervisor);
        self.regs[14] = self.regs[15].wrapping_sub(2);
        self.cpsr.set_i(true);
        self.cpsr.set_t(false);
        self.regs[15] = 0x08;
        self.flush_pipeline(bus);
        3
    }

    // Format 18: Unconditional branch
    fn thumb_branch(&mut self, instr: u16, bus: &Bus) -> (r: u32)
        requires
            bus.wf(),
        ensures
            (final(self)@, r) == thumb_branch(old(self)@, bus@, instr),
    {
        let f = (instr & 0x7FF) as u32;
        let offset = asr32(f << 21u32, 20);
        proof { lemma_branch11_offset(f, self.regs@[15]); }
        self.regs[15] = self.regs[15].wrapping_add(offset);
        self.flush_pipeline(bus);
        3
    }

    // Format 19: Long branch with link
    fn thumb_long_branch(&mut self, instr: u16, bus: &Bus) -> (r: u32)
        requires
            bus.wf(),
        ensures
            (final(self)@, r) == thumb_long_branch(old(self)@, bus@, instr),
    {
        let offset = (instr & 0x7FF) as u32;
        let is_second = instr & (1u16 << 11u16) != 0;
        if !is_second {
            // First instruction: set up high bits of offset in LR
            let hi = asr32(offset << 21u32, 9);
            proof { lemma_long_branch_offset(offset, self.regs@[15]); }
            self.regs[14] = self.regs[15].wrapping_add(hi);
            1
        } else {
            // Second instruction: combine and branch
            let target = self.regs[14].wrapping_add(offset << 1u32);
            assert(offset << 1u32 == offset * 2) by (bit_vector) requires offset <= 0x7FF;
            self.regs[14] = (self.regs[15].wrapping_sub(2)) | 1;
            self.regs[15] = target & !1u32;
            self.flush_pipeline(bus);
            3
        }
    }
}

/// A word has at most 32 set bits.
proof fn lemma_popcount_le32(x: u32)
    ensures
        popcount(x, 32) <= 32,
{
    lemma_popcount_le(x, 32);
}

proof fn lemma_popcount_le(x: u32, n: nat)
    ensures
        popcount(x, n) <= n,
    decreases n,
{
    if n > 0 {
        lemma_popcount_le(x, (n - 1) as nat);
    }
}

/// Set bits of a byte-sized list below `j` never exceed those below `k >= j`.
proof fn lemma_popcount_mono(x: u32, j: nat, k: nat)
    requires
        j <= k,
    ensures
        popcount(x, j) <= popcount(x, k),
        j < k && bit(x, j as u32) ==> popcount(x, j) + 1 <= popcount(x, k),
    decreases k - j,
{
    if j < k {
        lemma_popcount_mono(x, j, (k - 1) as nat);
        if j + 1 == k {
        } else {
            lemma_popcount_mono(x, j + 1, (k - 1) as nat);
        }
    }
}

/// A register list of eight bits counts no bits above bit 7.
proof fn lemma_popcount_byte(x: u32, n: nat)
    requires
        x < 256,
        8 <= n <= 32,
    ensures
        popcount(x, n) == popcount(x, 8),
    decreases n,
{
    if n > 8 {
        lemma_popcount_byte(x, (n - 1) as nat);
        lemma_high_bits_clear(x);
        assert(!bit(x, (n - 1) as u32));
    }
}

proof fn lemma_high_bits_clear(x: u32)
    by (bit_vector)
    requires
        x < 256,
    ensures
        forall|k: u32| 8 <= k < 32 ==> !#[trigger] bit(x, k),
{
}

/// Every transfer word `base + t` stays inside the work-RAM window that
/// `msk` selects, at the word `(base & !3) + t`.
proof fn lemma_ram_word(base: u32, t: u32, msk: u32)
    by (bit_vector)
    requires
        (base >> 24u32 == 2 && msk == 0x3FFFFu32) || (base >> 24u32 == 3 && msk == 0x7FFFu32),
        t % 4 == 0,
        ((base & !3u32) & msk) + t + 4 <= msk + 1,
    ensures
        base + t + 4 <= 0xFFFF_FFFF,
        ((base + t) as u32) & !3u32 == (base & !3u32) + t,
        ((base + t) as u32) >> 24u32 == base >> 24u32,
        ((base & !3u32) + t) as u32 >> 24u32 == base >> 24u32,
        (((base & !3u32) + t + 1) as u32) >> 24u32 == base >> 24u32,
        (((base & !3u32) + t + 2) as u32) >> 24u32 == base >> 24u32,
        (((base & !3u32) + t + 3) as u32) >> 24u32 == base >> 24u32,
        (((base & !3u32) + t) as u32) & msk == ((base & !3u32) & msk) + t,
        (((base & !3u32) + t + 1) as u32) & msk == ((base & !3u32) & msk) + t + 1,
        (((base & !3u32) + t + 2) as u32) & msk == ((base & !3u32) & msk) + t + 2,
        (((base & !3u32) + t + 3) as u32) & msk == ((base & !3u32) & msk) + t + 3,
{
}

/// Storing the listed registers from `i` on at ascending words of a
/// work-RAM window puts each at its position in the list and changes no
/// byte outside those words.
proof fn lemma_block_store(c: CpuView, m: BusView, list: u32, i: int, base: u32, msk: u32)
    requires
        m.mem.wf(),
        c.regs.len() == 16,
        list < 256,
        0 <= i <= 8,
        ram_window(base, msk),
        ((base & !3u32) & msk) + 4 * popcount(list, 8) <= msk + 1,
    ensures
        ({
            let p = popcount(list, i as nat);
            let r = block_regs(c, m, list, false, i, 8, (base + 4 * p) as u32, p as u32);
            &&& r.0 == c
            &&& r.2 == popcount(list, 8)
            &&& r.1.mem.wf()
            &&& forall|j: int| i <= j < 8 && bit(list, j as u32)
                ==> mem_read32(r.1.mem, (base + 4 * popcount(list, j as nat)) as u32) == c.regs[j]
            &&& forall|x: u32| outside_ram_block(x, region(base) as int, ((base & !3u32) & msk) + 4 * p,
                4 * (popcount(list, 8) - p)) ==> #[trigger] mem_read8(r.1.mem, x) == mem_read8(m.mem, x)
        }),
    decreases 8 - i,
{
    let p = popcount(list, i as nat);
    let tag = region(base) as int;
    let a0 = base & !3u32;
    lemma_popcount_mono(list, i as nat, 8);
    lemma_popcount_le(list, 8);
    if i < 8 {
        let cur = (base + 4 * p) as u32;
        lemma_block_unfold(c, m, list, false, i, 8, cur, p as u32);
        lemma_word_bits(list);
        if bit(list, i as u32) {
            lemma_popcount_mono(list, i as nat, 8);
            lemma_ram_word(base, (4 * p) as u32, msk);
            let v = c.regs[i];
            let a = (a0 + 4 * p) as u32;
            let off = (a0 & msk) + 4 * p;
            assert(ram_cell(cur) is Some);
            lemma_bus_write32_ram(m, cur, v);
            let m1 = bus_write32(m, cur, v);
            lemma_read32_after_write32(m.mem, cur, v);
            lemma_ram_write32_frame(m.mem, cur, v, cur);
            assert(wrap32(cur + 4) == (base + 4 * popcount(list, (i + 1) as nat)) as u32);
            lemma_block_store(c, m1, list, i + 1, base, msk);
            let r = block_regs(c, m1, list, false, i + 1, 8, wrap32(cur + 4), (p + 1) as u32);
            let rest = 4 * (popcount(list, 8) - p - 1);
            assert(ram_cell(a) == Some((tag, off)));
            assert(ram_cell((a + 1) as u32) == Some((tag, off + 1)));
            assert(ram_cell((a + 2) as u32) == Some((tag, off + 2)));
            assert(ram_cell((a + 3) as u32) == Some((tag, off + 3)));
            assert(mem_read32(r.1.mem, cur) == v) by {
                reveal(mem_read32);
                assert(outside_ram_block(a, tag, off + 4, rest));
                assert(outside_ram_block((a + 1) as u32, tag, off + 4, rest));
                assert(outside_ram_block((a + 2) as u32, tag, off + 4, rest));
                assert(outside_ram_block((a + 3) as u32, tag, off + 4, rest));
                assert(mem_read8(r.1.mem, a) == mem_read8(m1.mem, a));
                assert(mem_read8(r.1.mem, (a + 1) as u32) == mem_read8(m1.mem, (a + 1) as u32));
                assert(mem_read8(r.1.mem, (a + 2) as u32) == mem_read8(m1.mem, (a + 2) as u32));
                assert(mem_read8(r.1.mem, (a + 3) as u32) == mem_read8(m1.mem, (a + 3) as u32));
            }
            assert forall|x: u32| outside_ram_block(x, tag, off, 4 * (popcount(list, 8) - p))
                implies #[trigger] mem_read8(r.1.mem, x) == mem_read8(m.mem, x) by {
                assert(outside_ram_block(x, tag, off + 4, rest));
                lemma_ram_write32_frame(m.mem, cur, v, x);
            }
            assert forall|j: int| i <= j < 8 && bit(list, j as u32)
                implies mem_read32(r.1.mem, (base + 4 * popcount(list, j as nat)) as u32) == c.regs[j] by {
                if j > i {
                    lemma_popcount_mono(list, (i + 1) as nat, j as nat);
                }
            }
        } else {
            lemma_block_store(c, m, list, i + 1, base, msk);
        }
    } else {
        reveal(block_regs);
    }
}

/// Loading the listed registers from `i` on from ascending words gives each
/// the word at its position in the list and leaves the rest of the CPU.
proof fn lemma_block_load(c: CpuView, m: BusView, list: u32, i: int, base: u32)
    requires
        c.regs.len() == 16,
        list < 256,
        0 <= i <= 8,
        base + 4 * popcount(list, 8) <= 0xFFFF_FFFF,
    ensures
        ({
            let p = popcount(list, i as nat);
            let r = block_regs(c, m, list, true, i, 8, (base + 4 * p) as u32, p as u32);
            &&& r.1 == m
            &&& r.2 == popcount(list, 8)
            &&& r.0 == (CpuView { regs: r.0.regs, ..c })
            &&& r.0.regs.len() == 16
            &&& forall|j: int| 0 <= j < 16 ==> #[trigger] r.0.regs[j] == if i <= j < 8 && bit(list, j as u32) {
                mem_read32(m.mem, (base + 4 * popcount(list, j as nat)) as u32)
            } else {
                c.regs[j]
            }
        }),
    decreases 8 - i,
{
    let p = popcount(list, i as nat);
    lemma_popcount_mono(list, i as nat, 8);
    if i < 8 {
        let cur = (base + 4 * p) as u32;
        lemma_block_unfold(c, m, list, true, i, 8, cur, p as u32);
        lemma_word_bits(list);
        if bit(list, i as u32) {
            let c1 = c.with_reg(i, mem_read32(m.mem, cur));
            assert(wrap32(cur + 4) == (base + 4 * popcount(list, (i + 1) as nat)) as u32);
            lemma_block_load(c1, m, list, i + 1, base);
        } else {
            lemma_block_load(c, m, list, i + 1, base);
        }
    } else {
        reveal(block_regs);
    }
}

/// PUSH of a register list followed by POP of the same list, with the
/// stack's words in one EWRAM or IWRAM window, gives every register back,
/// SP included, whatever the alignment of SP.
pub proof fn lemma_push_pop(c: CpuView, m: BusView, list: u16)
    requires
        c.regs.len() == 16,
        m.mem.wf(),
        0 < list < 256,
        ({
            let start = c.regs[13] - 4 * popcount(list as u32, 8);
            let a0 = (start as u32) & !3u32;
            &&& start >= 0
            &&& (region(start as u32) == 0x02 && (a0 & 0x3FFFFu32) + 4 * popcount(list as u32, 8) <= 0x40000)
                || (region(start as u32) == 0x03 && (a0 & 0x7FFFu32) + 4 * popcount(list as u32, 8) <= 0x8000)
        }),
    ensures
        ({
            let push = thumb_push(c, m, 0xB400u16 | list);
            let pop = thumb_pop(push.0, push.1, 0xBC00u16 | list);
            &&& pop.0.regs == c.regs
            &&& push.2 == popcount(list as u32, 8) + 1
            &&& pop.2 == popcount(list as u32, 8) + 1
        }),
{
    let l = list as u32;
    let n = popcount(l, 8);
    let ip = 0xB400u16 | list;
    let io = 0xBC00u16 | list;
    assert((ip & 0xFFu16) as u32 == l && ip & (1u16 << 8u16) == 0 && ip & (1u16 << 11u16) == 0
        && (io & 0xFFu16) as u32 == l && io & (1u16 << 8u16) == 0 && io & (1u16 << 11u16) != 0) by (bit_vector)
        requires l == list as u32, list < 256, ip == 0xB400u16 | list, io == 0xBC00u16 | list;
    lemma_popcount_byte(l, 32);
    let start = (c.regs[13] - 4 * n) as u32;
    let msk: u32 = if region(start) == 0x02 { 0x3FFFFu32 } else { 0x7FFFu32 };
    assert(wrap32(c.regs[13] - (popcount(l, 32) + 0) * 4) == start);
    let c0 = c.with_reg(13, start);
    lemma_block_store(c0, m, l, 0, start, msk);
    let st = block_regs(c0, m, l, false, 0, 8, start, 0);
    assert(start >> 24u32 <= 3 ==> start <= 0x03FF_FFFF) by (bit_vector);
    lemma_block_load(st.0, st.1, l, 0, start);
    let ld = block_regs(st.0, st.1, l, true, 0, 8, start, 0);
    assert(start + n * 4 == c.regs[13]);
    assert(wrap32(start + n * 4) == c.regs[13]);
    assert(popcount(l, 0) == 0);
    assert(st.0 == c0);
    assert(ld.0.regs.len() == 16);
    assert forall|j: int| 0 <= j < 16 implies #[trigger] ld.0.regs[j] == c0.regs[j] by {
        if 0 <= j < 8 && bit(l, j as u32) {
            assert(mem_read32(st.1.mem, (start + 4 * popcount(l, j as nat)) as u32) == c0.regs[j]);
        }
    }
    assert(thumb_pop(st.0, st.1, io).0.regs =~= c.regs);
}

/// The doubled sign-extended byte of a conditional branch, modulo 2^32.
proof fn lemma_cond_branch_offset(f: u8, pc: u32)
    ensures
        wrap32(pc + (sext8(f) << 1u32)) == wrap32(pc + 2 * (if f >= 0x80 { f - 0x100 } else { f as int })),
{
    let o = sext8(f) << 1u32;
    assert((f < 0x80 ==> o == 2 * f) && (f >= 0x80 ==> o == 2 * f + 0xFFFF_FE00)) by (bit_vector)
        requires o == sext8(f) << 1u32;
}

/// The doubled sign-extended 11-bit field of a branch, modulo 2^32.
proof fn lemma_branch11_offset(f: u32, pc: u32)
    requires
        f <= 0x7FF,
    ensures
        wrap32(pc + asr(f << 21u32, 20)) == wrap32(pc + 2 * (if f >= 0x400 { f - 0x800 } else { f as int })),
{
    let o = asr(f << 21u32, 20);
    assert((f < 0x400 ==> o == 2 * f) && (f >= 0x400 ==> o == 2 * f + 0xFFFF_F000)) by (bit_vector)
        requires o == asr(f << 21u32, 20), f <= 0x7FF;
}

/// The high part of a long branch: the sign-extended 11-bit field times
/// 4096, modulo 2^32.
proof fn lemma_long_branch_offset(f: u32, pc: u32)
    requires
        f <= 0x7FF,
    ensures
        wrap32(pc + asr(f << 21u32, 9)) == wrap32(pc + 0x1000 * (if f >= 0x400 { f - 0x800 } else { f as int })),
{
    let o = asr(f << 21u32, 9);
    assert((f < 0x400 ==> o == 0x1000 * f) && (f >= 0x400 ==> o == 0x1000 * f + 0xFF80_0000)) by (bit_vector)
        requires o == asr(f << 21u32, 9), f <= 0x7FF;
}

/// The overflow test of NEG: operand and result both negative.
proof fn lemma_neg_overflow(b: u32, r: u32)
    requires
        r == vstd::wrapping::u32_specs::wrapping_sub(0, b),
    ensures
        ((b & r) >> 31u32 != 0) == !fits_i32(0 - signed(b)),
        r == wrap32(0 - b),
{
    assert(r == 0 - b || r == 0 - b + 0x1_0000_0000);
    assert(((b & r) >> 31u32 != 0) == !fits_i32(0 - signed(b))) by (bit_vector)
        requires r == 0 - b || r == 0 - b + 0x1_0000_0000;
}

/// Wrapping multiplication is the product modulo 2^32.
proof fn lemma_wrap_mul(a: u32, b: u32)
    ensures
        vstd::wrapping::u32_specs::wrapping_mul(a, b) == wrap32(a * b),
{
    assert(a * b >= 0) by (nonlinear_arith);
}


/// Thumb loads and stores with an immediate offset access the base
/// register plus the offset field counted in units of the access: the
/// 5-bit field in bytes for LDRB / STRB, in halfwords for LDRH / STRH
/// (format 10), in words for LDR / STR (format 9); the SP-relative form
/// (format 11) adds the 8-bit field in words to SP. A load puts the word,
/// or the halfword or byte with zeros above it, at that address into Rd
/// and leaves the bus alone; a store writes Rd's low byte, halfword or
/// whole word there and leaves the registers alone. Each takes 2 cycles.
pub proof fn lemma_thumb_immediate_transfers(c: CpuView, m: BusView, instr: u16)
    requires
        c.regs.len() == 16,
    ensures
        ({
            let rd = (instr & 7u16) as int;
            let rb = c.regs[((instr >> 3u16) & 7u16) as int];
            let imm = ((instr >> 6u16) & 0x1Fu16) as int;
            let load = instr & (1u16 << 11u16) != 0;
            let byte = instr & (1u16 << 12u16) != 0;
            let ah = ((rb + 2 * imm) % 0x1_0000_0000) as u32;
            let ai = ((rb + if byte { imm } else { 4 * imm }) % 0x1_0000_0000) as u32;
            let rs = ((instr >> 8u16) & 7u16) as int;
            let asp = ((c.regs[13] + 4 * (instr & 0xFFu16)) % 0x1_0000_0000) as u32;
            let h = thumb_ls_half(c, m, instr);
            let w = thumb_ls_imm(c, m, instr);
            let s = thumb_ls_sp(c, m, instr);
            &&& h.2 == 2 && w.2 == 2 && s.2 == 2
            &&& load ==> h.0 == c.with_reg(rd, mem_read16(m.mem, ah) as u32) && h.1 == m
            &&& !load ==> h.0 == c && h.1 == bus_write16(m, ah, c.regs[rd] as u16)
            &&& load && byte ==> w.0 == c.with_reg(rd, mem_read8(m.mem, ai) as u32) && w.1 == m
            &&& load && !byte ==> w.0 == c.with_reg(rd, mem_read32(m.mem, ai)) && w.1 == m
            &&& !load && byte ==> w.0 == c && w.1 == bus_write8(m, ai, c.regs[rd] as u8)
            &&& !load && !byte ==> w.0 == c && w.1 == bus_write32(m, ai, c.regs[rd])
            &&& load ==> s.0 == c.with_reg(rs, mem_read32(m.mem, asp)) && s.1 == m
            &&& !load ==> s.0 == c && s.1 == bus_write32(m, asp, c.regs[rs])
        }),
{
}

/// Thumb loads and stores with a register offset (formats 7 and 8) access
/// Rb + Ro modulo 2^32: STR, STRH and STRB write Rd's word, low halfword
/// or low byte there and leave the registers alone; LDR loads the word,
/// LDRH and LDRB the halfword or byte with zeros above it, and LDSB and
/// LDSH the byte or halfword sign-extended, so that Rd read as a signed
/// number is the byte or halfword read as a signed number. No other
/// register or flag changes; each takes 2 cycles.
pub proof fn lemma_thumb_register_transfers(c: CpuView, m: BusView, instr: u16)
    requires
        c.regs.len() == 16,
    ensures
        ({
            let rd = (instr & 7u16) as int;
            let addr = ((c.regs[((instr >> 3u16) & 7u16) as int] + c.regs[((instr >> 6u16) & 7u16) as int])
                % 0x1_0000_0000) as u32;
            let op = (instr >> 10u16) & 3u16;
            let sign_form = instr & (1u16 << 9u16) != 0;
            let r = thumb_ls_reg(c, m, instr);
            let v = r.0.regs[rd];
            let b = mem_read8(m.mem, addr);
            let h = mem_read16(m.mem, addr);
            &&& r.2 == 2
            &&& r.0.regs.len() == 16
            &&& forall|j: int| 0 <= j < 16 && j != rd ==> #[trigger] r.0.regs[j] == c.regs[j]
            &&& r.0.cpsr == c.cpsr
            &&& !sign_form && op == 0 ==> r.0 == c && r.1 == bus_write32(m, addr, c.regs[rd])
            &&& !sign_form && op == 1 ==> v == mem_read32(m.mem, addr) && r.1 == m
            &&& !sign_form && op == 2 ==> r.0 == c && r.1 == bus_write8(m, addr, c.regs[rd] as u8)
            &&& !sign_form && op == 3 ==> v == b as u32 && r.1 == m
            &&& sign_form && op == 0 ==> r.0 == c && r.1 == bus_write16(m, addr, c.regs[rd] as u16)
            &&& sign_form && op == 1 ==> signed(v) == (if b < 0x80 { b as int } else { b - 0x100 }) && r.1 == m
            &&& sign_form && op == 2 ==> v == h as u32 && r.1 == m
            &&& sign_form && op == 3 ==> signed(v) == (if h < 0x8000 { h as int } else { h - 0x1_0000 }) && r.1 == m
        }),
{
    let addr = wrap32(low_reg(c, instr, 3) + low_reg(c, instr, 6));
    crate::bits::lemma_sext8(mem_read8(m.mem, addr));
    crate::bits::lemma_sext16(mem_read16(m.mem, addr));
}

/// Thumb shifts by an immediate (format 1) shift Rs by the 5-bit field,
/// where a field of 0 means no shift for LSL (C kept) and a shift by 32
/// for LSR and ASR; the result goes to Rd with N and Z from it and C the
/// shifter's carry out; V and the lower bits are kept. One cycle.
pub proof fn lemma_thumb_shift_imm(c: CpuView, instr: u16)
    requires
        c.regs.len() == 16,
        (instr >> 11u16) & 3u16 != 3,
    ensures
        ({
            let op = ((instr >> 11u16) & 3u16) as u32;
            let imm = ((instr >> 6u16) & 0x1Fu16) as u32;
            let x = c.regs[((instr >> 3u16) & 7u16) as int];
            let amount: u32 = if imm == 0 && op != 0 { 32 } else { imm };
            let sh = shifter(op, x, amount, bit(c.cpsr, 29));
            let r = thumb_shift(c, instr);
            let q = r.0.cpsr;
            &&& r.1 == 1
            &&& r.0.regs == c.regs.update((instr & 7u16) as int, sh.0)
            &&& bit(q, 31) == bit(sh.0, 31)
            &&& bit(q, 30) == (sh.0 == 0)
            &&& bit(q, 29) == sh.1
            &&& forall|j: u32| j < 29 ==> #[trigger] bit(q, j) == bit(c.cpsr, j)
        }),
{
    reveal(shifter);
    let op = ((instr >> 11u16) & 3u16) as u32;
    let x = low_reg(c, instr, 3);
    let offset = ((instr >> 6u16) & 0x1Fu16) as u32;
    let cf = flag_c(c.cpsr);
    let (res, carry) = if offset == 0 {
        if op == 0 { (x, cf) } else if op == 1 { (0u32, bit(x, 31)) } else { (asr(x, 31), bit(x, 31)) }
    } else {
        shifter(op, x, offset, cf)
    };
    let p = psr_with_nz(c.cpsr, res);
    lemma_nzcv(c.cpsr, res, true, true);
    crate::bits::lemma_with_bit(p, 29, carry);
    let q = with_bit(p, 29, carry);
    assert(thumb_shift(c, instr).0.cpsr == q);
    assert forall|j: u32| j < 29 implies #[trigger] bit(q, j) == bit(c.cpsr, j) by {
        assert(bit(with_bit(p, 29, carry), j) == bit(p, j));
    }
}

/// Thumb ALU operations between Rd and Rs (format 4), all in one cycle and
/// writing no register but Rd. AND, EOR, ORR, BIC, MVN and MUL put the
/// bitwise result, or the product modulo 2^32, into Rd with N and Z from
/// it and C and V kept; ADC puts Rd + Rs + C, SBC Rd - Rs - (1 - C) and NEG
/// 0 - Rs there (modulo 2^32), with the flags of the ALU's ADC and SBC and,
/// for NEG, C set exactly when Rs is 0 and V exactly when Rs is
/// 0x8000_0000; TST, CMP and CMN change only the flags (TST: N and Z of
/// Rd AND Rs); LSL, LSR, ASR and ROR shift Rd by the low byte of Rs,
/// setting N and Z from the result and C from the shifter, and keep C when
/// that byte is 0.
pub proof fn lemma_thumb_alu(c: CpuView, instr: u16)
    requires
        c.regs.len() == 16,
    ensures
        ({
            let op = (instr >> 6u16) & 0xFu16;
            let rd = (instr & 7u16) as int;
            let a = c.regs[rd];
            let b = c.regs[((instr >> 3u16) & 7u16) as int];
            let cf = bit(c.cpsr, 29);
            let cin: int = if cf { 1 } else { 0 };
            let r = thumb_alu(c, instr).0;
            let v = r.regs[rd];
            let q = r.cpsr;
            let nz_of = |x: u32| bit(q, 31) == bit(x, 31) && bit(q, 30) == (x == 0);
            let keeps_cv = forall|j: u32| j < 30 ==> #[trigger] bit(q, j) == bit(c.cpsr, j);
            let shift = |t: u32| {
                let sh = shifter(t, a, b & 0xFFu32, cf);
                &&& v == sh.0
                &&& nz_of(v)
                &&& bit(q, 29) == sh.1
                &&& forall|j: u32| j < 29 ==> #[trigger] bit(q, j) == bit(c.cpsr, j)
            };
            &&& thumb_alu(c, instr).1 == 1
            &&& r.regs.len() == 16
            &&& forall|j: int| 0 <= j < 16 && j != rd ==> #[trigger] r.regs[j] == c.regs[j]
            &&& op == 0x0 ==> v == a & b && nz_of(v) && keeps_cv
            &&& op == 0x1 ==> v == a ^ b && nz_of(v) && keeps_cv
            &&& op == 0x2 ==> shift(0)
            &&& op == 0x3 ==> shift(1)
            &&& op == 0x4 ==> shift(2)
            &&& op == 0x5 ==> v == (a + b + cin) % 0x1_0000_0000 && q == alu_psr(c.cpsr, 0x5, a, b, true, cf)
            &&& op == 0x6 ==> (v + b + (1 - cin)) % 0x1_0000_0000 == a && q == alu_psr(c.cpsr, 0x6, a, b, true, cf)
            &&& op == 0x7 ==> shift(3)
            &&& op == 0x8 ==> v == a && nz_of(a & b) && keeps_cv
            &&& op == 0x9 ==> (v + b) % 0x1_0000_0000 == 0 && nz_of(v) && bit(q, 29) == (b == 0)
                && bit(q, 28) == (b == 0x8000_0000)
            &&& op == 0xA ==> v == a && q == alu_psr(c.cpsr, 0xA, a, b, true, cf)
            &&& op == 0xB ==> v == a && q == alu_psr(c.cpsr, 0xB, a, b, true, cf)
            &&& op == 0xC ==> v == a | b && nz_of(v) && keeps_cv
            &&& op == 0xD ==> v == (a * b) % 0x1_0000_0000 && nz_of(v) && keeps_cv
            &&& op == 0xE ==> v == a & !b && nz_of(v) && keeps_cv
            &&& op == 0xF ==> v == !b && nz_of(v) && keeps_cv
        }),
{
    let op = (instr >> 6u16) & 0xFu16;
    let rd = (instr & 7u16) as int;
    let a = c.regs[rd];
    let b = low_reg(c, instr, 3);
    let cf = flag_c(c.cpsr);
    let p0 = c.cpsr;
    let r = thumb_alu(c, instr).0;
    let v = r.regs[rd];
    if op == 0x9 {
        lemma_wrap32_near(0 - b);
        lemma_nzcv(p0, v, b == 0, !fits_i32(0 - signed(b)));
    } else if op == 0x2 || op == 0x3 || op == 0x4 || op == 0x7 {
        let st: u32 = if op == 0x2 { 0 } else if op == 0x3 { 1 } else if op == 0x4 { 2 } else { 3 };
        let (res, carry) = shifter(st, a, b & 0xFFu32, cf);
        let p = psr_with_nz(p0, res);
        lemma_nzcv(p0, res, true, true);
        crate::bits::lemma_with_bit(p, 29, carry);
        if b & 0xFFu32 == 0 {
            reveal(shifter);
            assert(r.cpsr == p);
        } else {
            let q = with_bit(p, 29, carry);
            assert(r.cpsr == q);
            assert forall|j: u32| j < 29 implies #[trigger] bit(q, j) == bit(p0, j) by {
                assert(bit(with_bit(p, 29, carry), j) == bit(p, j));
            }
        }
    } else {
        lemma_nzcv(p0, v, true, true);
        lemma_nzcv(p0, a & b, true, true);
    }
}

/// Thumb ADD and SUB (format 2) put Rs + X or Rs - X (modulo 2^32) into
/// Rd, where X is Rn or the 3-bit immediate; MOV, CMP, ADD and SUB with an
/// 8-bit immediate (format 3) put the immediate, Rd + imm or Rd - imm into
/// Rd (CMP writes nothing). All set the flags of the ALU's MOV, CMP, ADD
/// and SUB and take one cycle.
pub proof fn lemma_thumb_add_sub_imm(c: CpuView, instr: u16)
    requires
        c.regs.len() == 16,
    ensures
        ({
            let cf = bit(c.cpsr, 29);
            let rd = (instr & 7u16) as int;
            let rs = c.regs[((instr >> 3u16) & 7u16) as int];
            let x: u32 = if instr & (1u16 << 10u16) != 0 { ((instr >> 6u16) & 7u16) as u32 } else { c.regs[((instr >> 6u16) & 7u16) as int] };
            let sub = instr & (1u16 << 9u16) != 0;
            let f2 = thumb_add_sub(c, instr).0;
            let op = (instr >> 11u16) & 3u16;
            let rd3 = ((instr >> 8u16) & 7u16) as int;
            let a3 = c.regs[rd3];
            let imm = (instr & 0xFFu16) as u32;
            let f3 = thumb_imm_op(c, instr).0;
            &&& thumb_add_sub(c, instr).1 == 1 && thumb_imm_op(c, instr).1 == 1
            &&& !sub ==> f2.regs == c.regs.update(rd, ((rs + x) % 0x1_0000_0000) as u32)
                && f2.cpsr == alu_psr(c.cpsr, 0x4, rs, x, true, cf)
            &&& sub ==> f2.regs.len() == 16 && f2.regs == c.regs.update(rd, f2.regs[rd])
                && (f2.regs[rd] + x) % 0x1_0000_0000 == rs && f2.cpsr == alu_psr(c.cpsr, 0x2, rs, x, true, cf)
            &&& op == 0 ==> f3.regs == c.regs.update(rd3, imm) && f3.cpsr == alu_psr(c.cpsr, 0xD, a3, imm, true, cf)
            &&& op == 1 ==> f3.regs == c.regs && f3.cpsr == alu_psr(c.cpsr, 0xA, a3, imm, true, cf)
            &&& op == 2 ==> f3.regs == c.regs.update(rd3, ((a3 + imm) % 0x1_0000_0000) as u32)
                && f3.cpsr == alu_psr(c.cpsr, 0x4, a3, imm, true, cf)
            &&& op == 3 ==> f3.regs.len() == 16 && f3.regs == c.regs.update(rd3, f3.regs[rd3])
                && (f3.regs[rd3] + imm) % 0x1_0000_0000 == a3 && f3.cpsr == alu_psr(c.cpsr, 0x2, a3, imm, true, cf)
        }),
{
    let rs = low_reg(c, instr, 3);
    let x: u32 = if instr & (1u16 << 10u16) != 0 { ((instr >> 6u16) & 7u16) as u32 } else { low_reg(c, instr, 6) };
    lemma_wrap32_near(rs - x);
    let a3 = low_reg(c, instr, 8);
    let imm = (instr & 0xFFu16) as u32;
    lemma_wrap32_near(a3 - imm);
    lemma_and_le16(instr >> 11u16, 3u16);
}

/// Thumb high-register ADD and MOV (format 5) put Rd + Rs (modulo 2^32) or
/// Rs into Rd and keep the flags, CMP sets the flags of the ALU's CMP;
/// ADD Rd, PC/SP, #imm (format 12) puts SP, or the PC with bit 1 cleared,
/// plus four times the 8-bit field into Rd; ADD SP, #imm (format 13) moves
/// SP up or down by four times the 7-bit field; the PC-relative load
/// (format 6) loads Rd from the PC with bit 1 cleared plus four times the
/// 8-bit field. Moves and additions modulo 2^32.
pub proof fn lemma_thumb_register_forms(c: CpuView, m: BusView, instr: u16)
    requires
        c.regs.len() == 16,
    ensures
        ({
            let rd5 = ((((instr >> 7u16) & 1u16) << 3u16) | (instr & 7u16)) as int;
            let rs5 = ((((instr >> 6u16) & 1u16) << 3u16) | ((instr >> 3u16) & 7u16)) as int;
            let op5 = (instr >> 8u16) & 3u16;
            let h = thumb_hi_reg(c, m, instr);
            let rd8 = ((instr >> 8u16) & 7u16) as int;
            let imm8 = (instr & 0xFFu16) as int;
            let pc_al = c.regs[15] & !2u32;
            let la = thumb_load_address(c, instr);
            let sp7 = 4 * (instr & 0x7Fu16) as int;
            let asp = thumb_add_sp(c, instr);
            let pl = thumb_pc_load(c, m, instr);
            &&& rd5 != 15 && op5 == 0 ==> h == (c.with_reg(rd5, ((c.regs[rd5] + c.regs[rs5]) % 0x1_0000_0000) as u32), 1u32)
            &&& rd5 != 15 && op5 == 2 ==> h == (c.with_reg(rd5, c.regs[rs5]), 1u32)
            &&& op5 == 1 ==> h == (c.with_cpsr(alu_psr(c.cpsr, 0xA, c.regs[rd5], c.regs[rs5], true, bit(c.cpsr, 29))), 1u32)
            &&& instr & (1u16 << 11u16) != 0 ==> la == (c.with_reg(rd8, ((c.regs[13] + 4 * imm8) % 0x1_0000_0000) as u32), 1u32)
            &&& instr & (1u16 << 11u16) == 0 ==> la == (c.with_reg(rd8, ((pc_al + 4 * imm8) % 0x1_0000_0000) as u32), 1u32)
            &&& instr & (1u16 << 7u16) == 0 ==> asp == (c.with_reg(13, ((c.regs[13] + sp7) % 0x1_0000_0000) as u32), 1u32)
            &&& instr & (1u16 << 7u16) != 0 ==> asp == (c.with_reg(13, ((c.regs[13] - sp7) % 0x1_0000_0000) as u32), 1u32)
            &&& pl == (c.with_reg(rd8, mem_read32(m.mem, ((pc_al + 4 * imm8) % 0x1_0000_0000) as u32)), 3u32)
        }),
{
}

/// Thumb branches. A conditional branch (format 16) whose condition fails
/// changes nothing and takes one cycle; one whose condition holds jumps to
/// the PC plus twice the 8-bit field, sign-extended. An unconditional
/// branch (format 18) jumps to the PC plus twice the 11-bit field,
/// sign-extended. The first half of BL (format 19) puts the PC plus the
/// 11-bit field, sign-extended, times 4096 into LR; the second half jumps
/// to LR plus twice its 11-bit field (bit 0 cleared) and leaves the return
/// address (PC - 2, with bit 0 set) in LR. Addresses are modulo 2^32; a
/// jump refills the pipeline and takes three cycles.
pub proof fn lemma_thumb_branches(c: CpuView, m: BusView, instr: u16)
    requires
        c.regs.len() == 16,
    ensures
        ({
            let pc = c.regs[15];
            let f8 = (instr & 0xFFu16) as int;
            let f11 = (instr & 0x7FFu16) as int;
            let s8 = if f8 < 0x80 { f8 } else { f8 - 0x100 };
            let s11 = if f11 < 0x400 { f11 } else { f11 - 0x800 };
            let cond = ((instr >> 8u16) & 0xFu16) as u32;
            let lr2 = ((c.regs[14] + 2 * f11) % 0x1_0000_0000) as u32;
            &&& !cond_holds(c.cpsr, cond) ==> thumb_cond_branch(c, m, instr) == (c, 1u32)
            &&& cond_holds(c.cpsr, cond) ==> thumb_cond_branch(c, m, instr)
                == (filled(c.with_reg(15, ((pc + 2 * s8) % 0x1_0000_0000) as u32), m), 3u32)
            &&& thumb_branch(c, m, instr) == (filled(c.with_reg(15, ((pc + 2 * s11) % 0x1_0000_0000) as u32), m), 3u32)
            &&& instr & (1u16 << 11u16) == 0 ==> thumb_long_branch(c, m, instr)
                == (c.with_reg(14, ((pc + 0x1000 * s11) % 0x1_0000_0000) as u32), 1u32)
            &&& instr & (1u16 << 11u16) != 0 ==> thumb_long_branch(c, m, instr)
                == (filled(c.with_reg(14, (((pc - 2) % 0x1_0000_0000) as u32) | 1u32).with_reg(15, lr2 & !1u32), m), 3u32)
        }),
{
}


/// Thumb PUSH lowers SP by four bytes per listed register, and four more
/// when it also stores LR; it changes no register but SP and takes the
/// register count plus one cycle (plus one more with LR). POP raises SP by
/// four bytes per listed register (four more when it also loads PC),
/// leaves the bus alone and, without PC, changes only the listed registers
/// and SP; it takes the register count plus one cycle (plus three more
/// with PC). STMIA and LDMIA (format 15) move the base register up by four
/// bytes per listed register (a load that lists the base keeps the loaded
/// value); STMIA changes no other register, LDMIA only listed ones and
/// leaves the bus alone; both take the register count plus one cycle.
pub proof fn lemma_thumb_block_transfers(c: CpuView, m: BusView, instr: u16)
    requires
        c.regs.len() == 16,
    ensures
        ({
            let list = (instr & 0xFFu16) as u32;
            let k = popcount(list, 8);
            let extra: int = if instr & (1u16 << 8u16) != 0 { 1 } else { 0 };
            let sp = c.regs[13];
            let push = thumb_push(c, m, instr);
            let pop = thumb_pop(c, m, instr);
            let rb = ((instr >> 8u16) & 7u16) as int;
            let base = c.regs[rb];
            let mul = thumb_multiple(c, m, instr);
            let load = instr & (1u16 << 11u16) != 0;
            &&& push.0 == c.with_reg(13, ((sp - 4 * (k + extra)) % 0x1_0000_0000) as u32)
            &&& push.2 == k + 1 + extra
            &&& pop.1 == m
            &&& pop.0.regs[13] == ((sp + 4 * (k + extra)) % 0x1_0000_0000) as u32
            &&& pop.2 == k + 1 + 3 * extra
            &&& extra == 0 ==> pop.0.cpsr == c.cpsr && forall|j: int| 0 <= j < 16 && j != 13 && !bit(list, j as u32)
                ==> #[trigger] pop.0.regs[j] == c.regs[j]
            &&& mul.2 == k + 1
            &&& !load ==> mul.0 == c.with_reg(rb, ((base + 4 * k) % 0x1_0000_0000) as u32)
            &&& load ==> mul.1 == m && mul.0.cpsr == c.cpsr
            &&& load && !bit(list, rb as u32) ==> mul.0.regs[rb] == ((base + 4 * k) % 0x1_0000_0000) as u32
            &&& load ==> forall|j: int| 0 <= j < 16 && j != rb && !bit(list, j as u32) ==> #[trigger] mul.0.regs[j] == c.regs[j]
        }),
{
    let list = (instr & 0xFFu16) as u32;
    let k = popcount(list, 8);
    lemma_popcount_byte(list, 32);
    lemma_popcount_mono(list, 8, 8);
    crate::cpu::arm::lemma_popcount_le8(list);
    let sp = c.regs[13];
    let pc_lr = instr & (1u16 << 8u16) != 0;
    let count = popcount(list, 32) + if pc_lr { 1int } else { 0int };
    let start = wrap32(sp - count * 4);
    lemma_wrap32_near(sp - count * 4);
    lemma_block_effects(c.with_reg(13, start), m, list, false, 0, 8, start, 0);
    lemma_block_effects(c, m, list, true, 0, 8, sp, 0);
    let addr = wrap32(sp + k * 4);
    lemma_wrap32_near(sp + k * 4);
    lemma_wrap32_near(addr + 4);
    lemma_wrap32_near(sp + k * 4 + 4);
    reveal(crate::cpu::arm7tdmi::filled);
    let rb = ((instr >> 8u16) & 7u16) as int;
    lemma_block_effects(c, m, list, instr & (1u16 << 11u16) != 0, 0, 8, c.regs[rb], 0);
    lemma_word_bits(list);
    crate::bits::lemma_mask_bit(list, rb as u32);
}

} // verus!
