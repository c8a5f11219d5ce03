use gba_emu::cpu::arm7tdmi::{Cpu, Mode, Psr};
use gba_emu::memory::Bus;

fn arm_rom(words: &[u32]) -> Vec<u8> {
    let mut rom = Vec::new();
    for w in words {
        rom.extend_from_slice(&w.to_le_bytes());
    }
    rom
}

#[test]
fn mode_from_bits_decodes_every_mode() {
    assert_eq!(Mode::from_bits(0x10), Mode::User);
    assert_eq!(Mode::from_bits(0x11), Mode::Fiq);
    assert_eq!(Mode::from_bits(0x12), Mode::Irq);
    assert_eq!(Mode::from_bits(0x13), Mode::Supervisor);
    assert_eq!(Mode::from_bits(0x17), Mode::Abort);
    assert_eq!(Mode::from_bits(0x1B), Mode::Undefined);
    assert_eq!(Mode::from_bits(0x1F), Mode::System);
}

#[test]
fn mode_from_bits_masks_and_falls_back_to_user() {
    assert_eq!(Mode::from_bits(0xF3), Mode::Supervisor);
    assert_eq!(Mode::from_bits(0x00), Mode::User);
    assert_eq!(Mode::from_bits(0x15), Mode::User);
}

#[test]
fn mode_bits_round_trip() {
    for m in [Mode::User, Mode::Fiq, Mode::Irq, Mode::Supervisor, Mode::Abort, Mode::Undefined, Mode::System] {
        assert_eq!(Mode::from_bits(m.bits() as u8), m);
    }
}

#[test]
fn bank_index_shares_user_and_system() {
    assert_eq!(Mode::User.bank_index(), 0);
    assert_eq!(Mode::System.bank_index(), 0);
    assert_eq!(Mode::Fiq.bank_index(), 1);
    assert_eq!(Mode::Irq.bank_index(), 2);
    assert_eq!(Mode::Supervisor.bank_index(), 3);
    assert_eq!(Mode::Abort.bank_index(), 4);
    assert_eq!(Mode::Undefined.bank_index(), 5);
}

#[test]
fn psr_flag_setters_set_one_bit_each() {
    let mut p = Psr(0);
    p.set_n(true);
    assert_eq!(p.0, 0x8000_0000);
    p.set_z(true);
    p.set_c(true);
    p.set_v(true);
    assert_eq!(p.0, 0xF000_0000);
    assert!(p.n() && p.z() && p.c() && p.v());
    p.set_i(true);
    p.set_t(true);
    assert_eq!(p.0, 0xF000_00A0);
    assert!(p.i() && p.t() && !p.f());
    p.set_z(false);
    assert_eq!(p.0, 0xB000_00A0);
    assert!(!p.z() && p.n() && p.c());
}

#[test]
fn psr_set_mode_keeps_flags() {
    let mut p = Psr(0xF000_00D3);
    p.set_mode(Mode::Irq);
    assert_eq!(p.0, 0xF000_00D2);
    assert_eq!(p.mode(), Mode::Irq);
    assert!(p.n() && p.i() && p.f());
}

#[test]
fn psr_set_nz_from_result() {
    let mut p = Psr(0x2000_0000);
    p.set_nz(0);
    assert!(p.z() && !p.n() && p.c());
    p.set_nz(0x8000_0001);
    assert!(!p.z() && p.n());
}

#[test]
fn cpu_new_reset_state() {
    let cpu = Cpu::new();
    assert_eq!(cpu.regs[13], 0x0300_7FE0);
    assert_eq!(cpu.regs[15], 0);
    assert_eq!(cpu.cpsr.0, 0xD3);
    assert_eq!(cpu.cpsr.mode(), Mode::Supervisor);
    assert!(cpu.cpsr.i() && cpu.cpsr.f() && !cpu.cpsr.t());
    assert_eq!(cpu.banked_r13, [0x0300_7F00, 0, 0x0300_7FA0, 0x0300_7FE0, 0, 0]);
    assert!(!cpu.pipeline_valid);
    assert_eq!(cpu.pc(), 0);
}

#[test]
fn skip_bios_enters_rom_in_system_mode() {
    let mut bus = Bus::new(vec![0; 16], None);
    let mut cpu = Cpu::new();
    cpu.skip_bios(&mut bus);
    assert_eq!(cpu.pc(), 0x0800_0000);
    assert_eq!(cpu.cpsr.0, 0x1F);
    assert_eq!(cpu.cpsr.mode(), Mode::System);
    assert_eq!(cpu.regs[13], 0x0300_7F00);
    assert_eq!(cpu.banked_r13[2], 0x0300_7FA0);
    assert_eq!(cpu.banked_r13[3], 0x0300_7FE0);
    assert!(!cpu.pipeline_valid);
}

#[test]
fn switch_mode_banks_and_restores_registers() {
    let mut cpu = Cpu::new();
    for i in 0..16 {
        cpu.regs[i] = 0x100 + i as u32;
    }
    let before = cpu.regs;
    cpu.switch_mode(Mode::Fiq);
    assert_eq!(cpu.cpsr.mode(), Mode::Fiq);
    assert_eq!(cpu.spsr[1], 0xD3);
    assert_eq!(cpu.regs[13], 0);
    assert_eq!(cpu.regs[8], 0);
    assert_eq!(cpu.usr_r8_r12, [0x108, 0x109, 0x10A, 0x10B, 0x10C]);
    assert_eq!(cpu.regs[7], 0x107);
    cpu.regs[8] = 0xAAAA;
    cpu.regs[13] = 0xBBBB;
    cpu.switch_mode(Mode::Supervisor);
    assert_eq!(cpu.regs, before);
    assert_eq!(cpu.cpsr.0, 0xD3);
    assert_eq!(cpu.fiq_r8_r12[0], 0xAAAA);
    assert_eq!(cpu.banked_r13[1], 0xBBBB);
}

#[test]
fn switch_mode_to_same_mode_changes_nothing() {
    let mut cpu = Cpu::new();
    cpu.regs[13] = 0x1234;
    cpu.switch_mode(Mode::Supervisor);
    assert_eq!(cpu.regs[13], 0x1234);
    assert_eq!(cpu.spsr, [0; 6]);
}

#[test]
fn check_condition_codes() {
    let mut cpu = Cpu::new();
    cpu.cpsr = Psr(0x4000_0000); // Z
    assert!(cpu.check_condition(0x0));
    assert!(!cpu.check_condition(0x1));
    assert!(cpu.check_condition(0x9)); // LS: !C || Z
    assert!(!cpu.check_condition(0x8)); // HI
    assert!(cpu.check_condition(0xD)); // LE
    assert!(!cpu.check_condition(0xC)); // GT
    assert!(cpu.check_condition(0xE));
    assert!(cpu.check_condition(0xF));
    cpu.cpsr = Psr(0x8000_0000); // N, V clear
    assert!(cpu.check_condition(0x4));
    assert!(!cpu.check_condition(0x5));
    assert!(cpu.check_condition(0xB)); // LT
    assert!(!cpu.check_condition(0xA)); // GE
    cpu.cpsr = Psr(0x3000_0000); // C and V
    assert!(cpu.check_condition(0x2));
    assert!(cpu.check_condition(0x6));
    assert!(!cpu.check_condition(0x7));
    assert!(cpu.check_condition(0x8));
    assert!(!cpu.check_condition(0xA));
}

#[test]
fn barrel_shift_cases() {
    let cpu = Cpu::new();
    assert_eq!(cpu.barrel_shift(0, 0x8000_0001, 0, true), (0x8000_0001, true));
    assert_eq!(cpu.barrel_shift(0, 0x8000_0001, 1, false), (2, true));
    assert_eq!(cpu.barrel_shift(0, 0x0000_0001, 32, false), (0, true));
    assert_eq!(cpu.barrel_shift(0, 0xFFFF_FFFF, 33, true), (0, false));
    assert_eq!(cpu.barrel_shift(1, 0x0000_0003, 1, false), (1, true));
    assert_eq!(cpu.barrel_shift(1, 0x8000_0000, 32, false), (0, true));
    assert_eq!(cpu.barrel_shift(1, 0x8000_0000, 40, true), (0, false));
    assert_eq!(cpu.barrel_shift(2, 0x8000_0000, 4, false), (0xF800_0000, false));
    assert_eq!(cpu.barrel_shift(2, 0x8000_0000, 40, false), (0xFFFF_FFFF, true));
    assert_eq!(cpu.barrel_shift(2, 0x4000_0000, 32, true), (0, false));
    assert_eq!(cpu.barrel_shift(3, 0x0000_000F, 4, false), (0xF000_0000, true));
    assert_eq!(cpu.barrel_shift(3, 0x0000_0003, 32, true), (0x8000_0001, true));
}

#[test]
fn alu_add_sets_carry_and_zero() {
    let mut cpu = Cpu::new();
    cpu.cpsr = Psr(0x1F);
    assert_eq!(cpu.alu_op(0x4, 0, 0xFFFF_FFFF, 1, true, false), Some(0));
    assert!(cpu.cpsr.z() && cpu.cpsr.c() && !cpu.cpsr.v() && !cpu.cpsr.n());
    assert_eq!(cpu.cpsr.0 & 0xFF, 0x1F);
}

#[test]
fn alu_add_signed_overflow() {
    let mut cpu = Cpu::new();
    cpu.cpsr = Psr(0x1F);
    assert_eq!(cpu.alu_op(0x4, 0, 0x7FFF_FFFF, 1, true, false), Some(0x8000_0000));
    assert!(cpu.cpsr.n() && cpu.cpsr.v() && !cpu.cpsr.c() && !cpu.cpsr.z());
}

#[test]
fn alu_sub_borrow_and_rsb() {
    let mut cpu = Cpu::new();
    cpu.cpsr = Psr(0x1F);
    assert_eq!(cpu.alu_op(0x2, 0, 0, 1, true, false), Some(0xFFFF_FFFF));
    assert!(cpu.cpsr.n() && !cpu.cpsr.c() && !cpu.cpsr.v());
    assert_eq!(cpu.alu_op(0x3, 0, 3, 10, true, false), Some(7));
    assert!(cpu.cpsr.c() && !cpu.cpsr.n() && !cpu.cpsr.z());
    assert_eq!(cpu.alu_op(0x2, 0, 0x8000_0000, 1, true, false), Some(0x7FFF_FFFF));
    assert!(cpu.cpsr.v() && cpu.cpsr.c());
}

#[test]
fn alu_carry_ops() {
    let mut cpu = Cpu::new();
    cpu.cpsr = Psr(0x1F);
    assert_eq!(cpu.alu_op(0x5, 0, 0xFFFF_FFFF, 0, true, true), Some(0));
    assert!(cpu.cpsr.c() && cpu.cpsr.z());
    assert_eq!(cpu.alu_op(0x6, 0, 5, 3, true, false), Some(1));
    assert!(cpu.cpsr.c());
    assert_eq!(cpu.alu_op(0x6, 0, 3, 3, true, false), Some(0xFFFF_FFFF));
    assert!(!cpu.cpsr.c() && cpu.cpsr.n());
    assert_eq!(cpu.alu_op(0x7, 0, 3, 10, false, true), Some(7));
}

#[test]
fn alu_logic_ops() {
    let mut cpu = Cpu::new();
    cpu.cpsr = Psr(0x2000_001F);
    assert_eq!(cpu.alu_op(0x0, 0, 0xF0F0, 0xFF00, true, false), Some(0xF000));
    assert!(cpu.cpsr.c() && !cpu.cpsr.z());
    assert_eq!(cpu.alu_op(0x1, 0, 0xF0F0, 0xFF00, false, false), Some(0x0FF0));
    assert_eq!(cpu.alu_op(0xC, 0, 0xF0F0, 0xFF00, false, false), Some(0xFFF0));
    assert_eq!(cpu.alu_op(0xD, 0, 0xF0F0, 0xFF00, false, false), Some(0xFF00));
    assert_eq!(cpu.alu_op(0xE, 0, 0xF0F0, 0xFF00, false, false), Some(0x00F0));
    assert_eq!(cpu.alu_op(0xF, 0, 0, 0, true, false), Some(0xFFFF_FFFF));
    assert!(cpu.cpsr.n());
}

#[test]
fn alu_compare_ops_return_nothing() {
    let mut cpu = Cpu::new();
    cpu.cpsr = Psr(0x1F);
    assert_eq!(cpu.alu_op(0xA, 0, 5, 5, true, false), None);
    assert!(cpu.cpsr.z() && cpu.cpsr.c());
    assert_eq!(cpu.alu_op(0xB, 0, 0xFFFF_FFFF, 2, true, false), None);
    assert!(cpu.cpsr.c() && !cpu.cpsr.z());
    assert_eq!(cpu.alu_op(0x8, 0, 0xF0, 0x0F, true, false), None);
    assert!(cpu.cpsr.z());
    assert_eq!(cpu.alu_op(0x9, 0, 0xF0, 0xF0, false, false), None);
    assert!(cpu.cpsr.z());
    let flags = cpu.cpsr.0;
    assert_eq!(cpu.alu_op(0xA, 0, 1, 5, false, false), None);
    assert_eq!(cpu.cpsr.0, flags);
}

#[test]
fn arm_data_processing_program() {
    // MOV r0, #5; ADD r1, r0, #3; SUBS r2, r0, r0
    let mut bus = Bus::new(arm_rom(&[0xE3A0_0005, 0xE280_1003, 0xE050_2000]), None);
    let mut cpu = Cpu::new();
    cpu.skip_bios(&mut bus);
    for _ in 0..3 {
        assert!(cpu.step(&mut bus) >= 1);
    }
    assert_eq!(cpu.regs[0], 5);
    assert_eq!(cpu.regs[1], 8);
    assert_eq!(cpu.regs[2], 0);
    assert!(cpu.cpsr.z() && cpu.cpsr.c() && !cpu.cpsr.n());
    assert!(cpu.pipeline_valid);
    assert_eq!(cpu.pc(), 0x0800_0014);
}

#[test]
fn arm_condition_skips_instruction() {
    // MOVNE r0, #1 with Z clear runs; MOVEQ r1, #1 with Z clear is skipped
    let mut bus = Bus::new(arm_rom(&[0x13A0_0001, 0x03A0_1001]), None);
    let mut cpu = Cpu::new();
    cpu.skip_bios(&mut bus);
    cpu.step(&mut bus);
    assert_eq!(cpu.step(&mut bus), 1);
    assert_eq!(cpu.regs[0], 1);
    assert_eq!(cpu.regs[1], 0);
}

#[test]
fn arm_store_then_load_word() {
    // MOV r3, #0x03000000; MOV r4, #0xAB; STR r4, [r3]; LDR r5, [r3]
    let mut bus = Bus::new(arm_rom(&[0xE3A0_3403, 0xE3A0_40AB, 0xE583_4000, 0xE593_5000]), None);
    let mut cpu = Cpu::new();
    cpu.skip_bios(&mut bus);
    for _ in 0..4 {
        cpu.step(&mut bus);
    }
    assert_eq!(cpu.regs[3], 0x0300_0000);
    assert_eq!(bus.read32(0x0300_0000), 0xAB);
    assert_eq!(cpu.regs[5], 0xAB);
}

#[test]
fn arm_block_store_and_load() {
    // MOV r0, #0x03000000; MOV r1, #1; MOV r2, #2; STMIA r0!, {r1, r2}; LDMDB r0, {r3, r4}
    let mut bus = Bus::new(
        arm_rom(&[0xE3A0_0403, 0xE3A0_1001, 0xE3A0_2002, 0xE8A0_0006, 0xE910_0018]),
        None,
    );
    let mut cpu = Cpu::new();
    cpu.skip_bios(&mut bus);
    for _ in 0..5 {
        cpu.step(&mut bus);
    }
    assert_eq!(bus.read32(0x0300_0000), 1);
    assert_eq!(bus.read32(0x0300_0004), 2);
    assert_eq!(cpu.regs[0], 0x0300_0008);
    assert_eq!(cpu.regs[3], 1);
    assert_eq!(cpu.regs[4], 2);
}

#[test]
fn arm_multiply() {
    // MOV r0, #6; MOV r1, #7; MUL r2, r0, r1
    let mut bus = Bus::new(arm_rom(&[0xE3A0_0006, 0xE3A0_1007, 0xE002_0190]), None);
    let mut cpu = Cpu::new();
    cpu.skip_bios(&mut bus);
    for _ in 0..3 {
        cpu.step(&mut bus);
    }
    assert_eq!(cpu.regs[2], 42);
}

#[test]
fn thumb_move_and_add() {
    // MOV r0, #42; ADD r1, r0, #1
    let mut bus = Bus::new(vec![0x2A, 0x20, 0x41, 0x1C], None);
    let mut cpu = Cpu::new();
    cpu.skip_bios(&mut bus);
    cpu.cpsr.set_t(true);
    cpu.step(&mut bus);
    cpu.step(&mut bus);
    assert_eq!(cpu.regs[0], 42);
    assert_eq!(cpu.regs[1], 43);
    assert_eq!(cpu.pc(), 0x0800_0008);
}

#[test]
fn irq_entry_on_pending_interrupt() {
    let mut bus = Bus::new(vec![0; 16], None);
    let mut cpu = Cpu::new();
    cpu.skip_bios(&mut bus);
    cpu.regs[3] = 0x33;
    bus.ime = true;
    bus.ie = 1;
    bus.irf = 1;
    cpu.step(&mut bus);
    assert_eq!(cpu.cpsr.mode(), Mode::Irq);
    assert!(cpu.cpsr.i() && !cpu.cpsr.t());
    assert_eq!(cpu.spsr[2], 0x1F);
    assert_eq!(cpu.regs[14], 0x0800_0000);
    assert_eq!(cpu.regs[13], 0x0300_7FA0);
    assert_eq!(cpu.regs[3], 0x33);
    // The IRQ vector (0x18) was fetched and one instruction executed.
    assert_eq!(cpu.pc(), 0x24);
}

#[test]
fn masked_interrupt_is_not_taken() {
    let mut bus = Bus::new(vec![0; 16], None);
    let mut cpu = Cpu::new();
    cpu.skip_bios(&mut bus);
    cpu.cpsr.set_i(true);
    bus.ime = true;
    bus.ie = 1;
    bus.irf = 1;
    cpu.step(&mut bus);
    assert_eq!(cpu.cpsr.mode(), Mode::System);
}

#[test]
fn halted_cpu_waits_and_wakes() {
    let mut bus = Bus::new(vec![0; 16], None);
    let mut cpu = Cpu::new();
    cpu.skip_bios(&mut bus);
    bus.halt = true;
    assert_eq!(cpu.step(&mut bus), 1);
    assert!(bus.halt);
    assert_eq!(cpu.pc(), 0x0800_0000);
    bus.ie = 1;
    bus.irf = 1;
    bus.ime = true;
    cpu.cpsr.set_i(true);
    assert_eq!(cpu.step(&mut bus), 1);
    assert!(!bus.halt);
}

#[test]
fn flush_pipeline_refills_from_pc() {
    let mut bus = Bus::new(arm_rom(&[0x1111_1111, 0x2222_2222, 0x3333_3333]), None);
    let mut cpu = Cpu::new();
    cpu.skip_bios(&mut bus);
    cpu.regs[15] = 0x0800_0006;
    cpu.flush_pipeline(&bus);
    assert_eq!(cpu.pipeline, [0x2222_2222, 0x3333_3333]);
    assert_eq!(cpu.pc(), 0x0800_000C);
    assert!(cpu.pipeline_valid);
}

#[test]
fn arm_branch_and_link() {
    // BL +4 at 0x08000000 lands on MOV r0, #7 at 0x08000010
    let mut bus = Bus::new(arm_rom(&[0xEB00_0001, 0, 0, 0, 0xE3A0_0007]), None);
    let mut cpu = Cpu::new();
    cpu.skip_bios(&mut bus);
    assert_eq!(cpu.step(&mut bus), 3);
    assert_eq!(cpu.regs[14], 0x0800_0008);
    assert_eq!(cpu.pc(), 0x0800_0018);
    cpu.step(&mut bus);
    assert_eq!(cpu.regs[0], 7);
}

#[test]
fn arm_misaligned_load_rotates() {
    // MOV r3, #0x03000000; LDR r5, [r3, #1]
    let mut bus = Bus::new(arm_rom(&[0xE3A0_3403, 0xE593_5001]), None);
    bus.write32(0x0300_0000, 0x1122_3344);
    let mut cpu = Cpu::new();
    cpu.skip_bios(&mut bus);
    cpu.step(&mut bus);
    assert_eq!(cpu.step(&mut bus), 3);
    assert_eq!(cpu.regs[5], 0x4411_2233);
}

#[test]
fn arm_msr_and_mrs_register_forms() {
    // MSR CPSR_f, r0; MRS r1, CPSR
    let mut bus = Bus::new(arm_rom(&[0xE128_F000, 0xE10F_1000]), None);
    let mut cpu = Cpu::new();
    cpu.skip_bios(&mut bus);
    cpu.regs[0] = 0xF000_0000;
    assert_eq!(cpu.step(&mut bus), 1);
    assert_eq!(cpu.cpsr.0, 0xF000_001F);
    cpu.step(&mut bus);
    assert_eq!(cpu.regs[1], 0xF000_001F);
}

#[test]
fn thumb_push_then_pop_restores_registers() {
    // PUSH {r0, r1}; MOV r0, #0; MOV r1, #0; POP {r0, r1}
    let mut bus = Bus::new(vec![0x03, 0xB4, 0x00, 0x20, 0x00, 0x21, 0x03, 0xBC], None);
    let mut cpu = Cpu::new();
    cpu.skip_bios(&mut bus);
    cpu.cpsr.set_t(true);
    cpu.regs[0] = 0x11;
    cpu.regs[1] = 0x22;
    assert_eq!(cpu.step(&mut bus), 3);
    assert_eq!(cpu.regs[13], 0x0300_7EF8);
    assert_eq!(bus.read32(0x0300_7EF8), 0x11);
    assert_eq!(bus.read32(0x0300_7EFC), 0x22);
    cpu.step(&mut bus);
    cpu.step(&mut bus);
    assert_eq!(cpu.regs[0], 0);
    assert_eq!(cpu.step(&mut bus), 3);
    assert_eq!(cpu.regs[0], 0x11);
    assert_eq!(cpu.regs[1], 0x22);
    assert_eq!(cpu.regs[13], 0x0300_7F00);
}

#[test]
fn thumb_push_pop_with_unaligned_stack_in_ewram() {
    // PUSH {r2, r5}; MOV r2, #0; POP {r2, r5}
    let mut bus = Bus::new(vec![0x24, 0xB4, 0x00, 0x22, 0x24, 0xBC], None);
    let mut cpu = Cpu::new();
    cpu.skip_bios(&mut bus);
    cpu.cpsr.set_t(true);
    cpu.regs[13] = 0x0200_1002;
    cpu.regs[2] = 0xAAAA_0002;
    cpu.regs[5] = 0x5555_0005;
    let before = cpu.regs;
    cpu.step(&mut bus);
    assert_eq!(cpu.regs[13], 0x0200_0FFA);
    cpu.step(&mut bus);
    assert_eq!(cpu.regs[2], 0);
    cpu.step(&mut bus);
    let mut expected = before;
    expected[15] = cpu.regs[15];
    assert_eq!(cpu.regs, expected);
}
