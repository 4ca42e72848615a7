use arm_core::alu::{adc32, ror32, sbc32};
use arm_core::cpu::{ones16, Fault, ARM7};
use arm_core::decode::{gen_lut, InstrKind};
use arm_core::mem::{ARM9MemoryRegion, Width, CP15, HW};

fn machine() -> (ARM7, HW) {
    (ARM7::new(), HW::new())
}

#[test]
fn decode_table_samples() {
    let lut = gen_lut();
    assert_eq!(lut.len(), 4096);
    // BX: cond 1110, 0001_0010 ... 0001
    assert_eq!(lut[0x121], InstrKind::BranchAndExchange);
    // MOV r0, r0
    assert_eq!(lut[0x1A0], InstrKind::DataProc { i: false, s: false });
    // software interrupt
    assert_eq!(lut[0xF00], InstrKind::SoftwareInterrupt);
    // multiply
    assert_eq!(lut[0x009], InstrKind::MulMula { a: false, s: false });
    // branch with link
    assert_eq!(lut[0xB00], InstrKind::BranchBranchWithLink { l: true });
    // block transfer
    assert_eq!(
        lut[0x8A2 >> 0],
        InstrKind::BlockDataTransfer { p: false, u: true, s: false, w: true, l: false }
    );
    // the architecturally undefined pattern keys dispatch through the
    // single-data-transfer rule, which precedes it
    assert!(matches!(lut[0x601], InstrKind::SingleDataTransfer { .. }));
}

#[test]
fn flag_semantics_sub_carry_iff_no_borrow() {
    let pairs = [(5u32, 3u32), (3, 5), (0, 0), (0xFFFF_FFFF, 1), (1, 0xFFFF_FFFF)];
    for (a, b) in pairs {
        let (_, carry, _) = sbc32(a, b, true);
        assert_eq!(carry, a >= b);
    }
}

#[test]
fn flag_semantics_add_overflow() {
    let (v, c, o) = adc32(0x7FFF_FFFF, 1, false);
    assert_eq!(v, 0x8000_0000);
    assert!(!c);
    assert!(o);
    let (_, c2, o2) = adc32(0xFFFF_FFFF, 1, false);
    assert!(c2);
    assert!(!o2);
}

#[test]
fn rotation_helper() {
    assert_eq!(ror32(0x11223344, 8), 0x44112233);
    assert_eq!(ror32(0x11223344, 0), 0x11223344);
}

#[test]
fn pipeline_offset_after_reset_and_nop() {
    let entries = [0x0200_0000u32, 0x0200_0100, 0x0201_fffc];
    for entry in entries {
        let (mut cpu, mut hw) = machine();
        // MOV r0, r0 everywhere the pipeline will look
        for k in 0..4u32 {
            hw.arm9_write(Width::Word, entry + 4 * k, 0xE1A0_0000);
        }
        cpu.reset(&mut hw, entry);
        assert_eq!(cpu.regs.pc, entry.wrapping_add(4));
        cpu.emulate_arm_instr(&mut hw).unwrap();
        assert_eq!(cpu.regs.pc, entry.wrapping_add(8));
    }
}

#[test]
fn unaligned_load_rotation() {
    for k in 0..4u32 {
        let (mut cpu, mut hw) = machine();
        hw.arm9_write(Width::Word, 0x0200_0020, 0x1122_3344);
        cpu.regs.set_reg_i(2, 0x0200_0020 + k);
        // LDR r0, [r2]
        let instr = 0xE592_0000;
        cpu.single_data_transfer(&mut hw, instr, false, true, true, false, false, true)
            .unwrap();
        assert_eq!(cpu.regs.get_reg_i(0), 0x1122_3344u32.rotate_right(8 * k));
    }
}

#[test]
fn byte_load_zero_extends() {
    let (mut cpu, mut hw) = machine();
    hw.arm9_write(Width::Word, 0x0200_0020, 0x0000_00F7);
    cpu.regs.set_reg_i(2, 0x0200_0020);
    // LDRB r0, [r2]
    cpu.single_data_transfer(&mut hw, 0xE5D2_0000, false, true, true, true, false, true)
        .unwrap();
    assert_eq!(cpu.regs.get_reg_i(0), 0xF7);
}

#[test]
fn block_transfer_empty_list() {
    let (mut cpu, mut hw) = machine();
    cpu.regs.set_reg_i(2, 0x0200_0040);
    cpu.regs.pc = 0x0200_1008;
    // STMIA r2!, {}
    let r = cpu.block_data_transfer(&mut hw, 0xE8A2_0000, false, true, false, true, false);
    assert!(r.is_ok());
    // exactly one transfer at base+0x40, base adjusted by exactly 0x40
    assert_eq!(cpu.regs.get_reg_i(2), 0x0200_0080);
    assert_eq!(hw.arm9_read(Width::Word, 0x0200_0080), 0x0200_100C);
}

#[test]
fn block_transfer_ascending_order() {
    let (mut cpu, mut hw) = machine();
    cpu.regs.set_reg_i(0, 0xAAAA_0000);
    cpu.regs.set_reg_i(3, 0xBBBB_0000);
    cpu.regs.set_reg_i(2, 0x0200_0200);
    // STMIA r2!, {r0, r3}
    cpu.block_data_transfer(&mut hw, 0xE8A2_0009, false, true, false, true, false)
        .unwrap();
    assert_eq!(hw.arm9_read(Width::Word, 0x0200_0200), 0xAAAA_0000);
    assert_eq!(hw.arm9_read(Width::Word, 0x0200_0204), 0xBBBB_0000);
    assert_eq!(cpu.regs.get_reg_i(2), 0x0200_0208);
    // load them back in ascending register order
    let (mut cpu2, mut hw2) = machine();
    hw2.arm9_write(Width::Word, 0x0200_0200, 7);
    hw2.arm9_write(Width::Word, 0x0200_0204, 9);
    cpu2.regs.set_reg_i(2, 0x0200_0200);
    // LDMIA r2, {r0, r3}
    cpu2.block_data_transfer(&mut hw2, 0xE892_0009, false, true, false, false, true)
        .unwrap();
    assert_eq!(cpu2.regs.get_reg_i(0), 7);
    assert_eq!(cpu2.regs.get_reg_i(3), 9);
    assert_eq!(cpu2.regs.get_reg_i(2), 0x0200_0200);
}

#[test]
fn end_to_end_short_program() {
    let (mut cpu, mut hw) = machine();
    let entry = 0x0200_0000u32;
    let program = [
        0xE3A0_0005u32, // MOV r0, #5
        0xE080_1000,    // ADD r1, r0, r0
        0xE582_1000,    // STR r1, [r2]
        0xEAFF_FFFB,    // B back to the entry
    ];
    for (k, w) in program.iter().enumerate() {
        hw.arm9_write(Width::Word, entry + 4 * (k as u32), *w);
    }
    cpu.reset(&mut hw, entry);
    cpu.regs.set_reg_i(2, 0x0200_0100);
    let start_cycle = hw.scheduler.cycle;
    for _ in 0..4 {
        cpu.emulate_arm_instr(&mut hw).unwrap();
    }
    assert_eq!(cpu.regs.get_reg_i(1), 10);
    assert_eq!(hw.arm9_read(Width::Word, 0x0200_0100), 10);
    // MOV 1 + ADD 1 + STR 2 + B 3 cycles
    assert_eq!(hw.scheduler.cycle - start_cycle, 7);
    // the branch went back to the entry; the refill leaves the counter one
    // word past it
    assert_eq!(cpu.regs.pc, entry + 4);
}

#[test]
fn condition_failure_costs_one_fetch() {
    let (mut cpu, mut hw) = machine();
    let entry = 0x0200_0000u32;
    // EQ condition with Z clear: skipped
    hw.arm9_write(Width::Word, entry, 0x01A0_0000);
    cpu.reset(&mut hw, entry);
    let c0 = hw.scheduler.cycle;
    cpu.emulate_arm_instr(&mut hw).unwrap();
    assert_eq!(hw.scheduler.cycle - c0, 1);
    assert_eq!(cpu.regs.pc, entry + 8);
}

#[test]
fn branch_with_link_saves_return() {
    let (mut cpu, mut hw) = machine();
    let entry = 0x0200_0000u32;
    hw.arm9_write(Width::Word, entry, 0xEB00_0002); // BL +2 words
    cpu.reset(&mut hw, entry);
    cpu.emulate_arm_instr(&mut hw).unwrap();
    assert_eq!(cpu.regs.get_reg_i(14), entry + 4);
    // branched to entry + 0x10; the refill leaves the counter one word past
    assert_eq!(cpu.regs.pc, entry + 0x14);
}

#[test]
fn multiply_and_flags() {
    let (mut cpu, mut hw) = machine();
    cpu.regs.set_reg_i(1, 7);
    cpu.regs.set_reg_i(2, 6);
    // MUL r3, r1, r2 with flags: r3 = r1 * r2 (op2 field = r2, op3 = r1)
    cpu.mul_mula(&mut hw, 0xE033_0291, false, true).unwrap();
    assert_eq!(cpu.regs.get_reg_i(3), 42);
    assert!(!cpu.regs.get_z());
    // accumulate field nonzero without accumulate is malformed
    let r = cpu.mul_mula(&mut hw, 0xE013_1291, false, true);
    assert_eq!(r, Err(Fault::Malformed));
}

#[test]
fn coprocessor_and_undefined_fault() {
    let (mut cpu, mut hw) = machine();
    assert_eq!(cpu.coprocessor(&mut hw, 0xEE00_0000), Err(Fault::Coprocessor));
    assert_eq!(
        cpu.undefined_instr_arm(&mut hw, 0xE600_0010),
        Err(Fault::UndefinedInstr)
    );
}

#[test]
fn region_classification() {
    let cp15 = CP15::new();
    assert_eq!(
        ARM9MemoryRegion::from_addr(0x0000_0000, &cp15),
        ARM9MemoryRegion::ITCM
    );
    assert_eq!(
        ARM9MemoryRegion::from_addr(0x027C_0000, &cp15),
        ARM9MemoryRegion::DTCM
    );
    assert_eq!(
        ARM9MemoryRegion::from_addr(0x0200_0000, &cp15),
        ARM9MemoryRegion::MainMem
    );
    assert_eq!(
        ARM9MemoryRegion::from_addr(0x0400_0000, &cp15),
        ARM9MemoryRegion::IO
    );
    assert_eq!(
        ARM9MemoryRegion::from_addr(0xFFFF_0000, &cp15),
        ARM9MemoryRegion::BIOS
    );
}

#[test]
fn memory_roundtrip_and_init() {
    let mut hw = HW::new();
    hw.arm9_write(Width::Half, 0x0200_0010, 0xBEEF);
    assert_eq!(hw.arm9_read(Width::Half, 0x0200_0010), 0xBEEF);
    let code = vec![1u8, 2, 3, 4];
    let entry = hw.init_arm9(0x0200_0000, &code, 0x0200_0000);
    assert_eq!(entry, 0x0200_0000);
    assert_eq!(hw.arm9_read(Width::Word, 0x0200_0000), 0x0403_0201);
    assert_eq!(hw.arm9_read(Width::Byte, 0x023F_FC80), 5);
}

#[test]
fn ones16_counts() {
    assert_eq!(ones16(0), 0);
    assert_eq!(ones16(0xFFFF), 16);
    assert_eq!(ones16(0x8001), 2);
}

#[test]
fn block_store_programs_a_timer() {
    // a block store may land in the memory-mapped register file: storing
    // reload and a start control word through the timer registers
    let (mut cpu, mut hw) = machine();
    cpu.regs.set_reg_i(2, 0x0400_0100);
    cpu.regs.set_reg_i(0, 0x0080_0034);
    // STMIA r2, {r0}: writes reload = 0x0034, control byte 0x80 (start)
    let r = cpu.block_data_transfer(&mut hw, 0xE882_0001, false, true, false, false, false);
    assert!(r.is_ok());
    assert!(hw.timers9.timers[0].cnt.start);
    assert_eq!(hw.timers9.timers[0].reload, 0x34);
    assert_eq!(hw.scheduler.events.len(), 1);
}
