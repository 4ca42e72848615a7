//! Execution engine of one processor core: a two-slot instruction buffer
//! models the two-stage prefetch pipeline, the decode table resolves each
//! fetched word to one handler, and every handler charges its memory
//! accesses and internal cycles to the scheduler in the exact order the
//! pipeline would issue them. Register 15 always holds the next fetch
//! target, eight bytes ahead of the executing instruction in the 32-bit
//! instruction set.

use vstd::prelude::*;

use crate::decode::{gen_lut, spec_decode, spec_key_of, InstrKind};
use crate::mem::{spec_aligned, spec_region, ARM9MemoryRegion, AccessType, Width, HW};
use crate::alu::{spec_ror32, wrap32};
use crate::regs::{
    cond_passes, cpsr_c, cpsr_t, spec_cond_passes, spec_mode_from_bits, Mode, Reg, RegValues,
    RegsV,
};

verus! {

/// A fatal condition the core surfaces instead of executing on: either an
/// instruction class that is unimplemented by design, or a malformed bit
/// pattern that no valid program produces. Execution must stop loudly; none
/// of these is a recoverable runtime condition.
#[derive(Clone, Copy, PartialEq, Eq, Structural, Debug)]
pub enum Fault {
    /// The coprocessor instruction classes, unimplemented by design.
    Coprocessor,
    /// The architecturally undefined instruction class.
    UndefinedInstr,
    /// A bit pattern that violates a handler's preconditions: corrupt
    /// instruction data or a decode defect.
    Malformed,
    /// A status-register write selected a reserved mode encoding.
    InvalidMode,
}

/// One processor core: its register file, the two-slot instruction buffer,
/// the decode table built once at construction, and the timing class the
/// next fetch is charged as.
pub struct ARM7 {
    pub regs: RegValues,
    /// The word about to execute.
    pub instr_buffer0: u32,
    /// The word prefetched behind it.
    pub instr_buffer1: u32,
    /// The decode table; entry `k` is the handler for dispatch key `k`.
    pub arm_lut: Vec<InstrKind>,
    pub next_access_type: AccessType,
}

impl ARM7 {
    /// The register file is well formed and the decode table is the one the
    /// precedence rules build.
    pub open spec fn wf(self) -> bool {
        &&& self.regs@.wf()
        &&& self.arm_lut@.len() == 4096
        &&& (forall|k: int| 0 <= k < 4096 ==> self.arm_lut@[k] == spec_decode(k as u32))
    }

    /// A fresh core: reset register state and the decode table built once.
    pub fn new() -> (r: ARM7)
        ensures
            r.wf(),
            r.regs@.mode() == Mode::SVC,
            r.regs@.cpsr == 0xD3u32,
            r.regs@.pc == 0u32,
            r.instr_buffer0 == 0u32 && r.instr_buffer1 == 0u32,
    {
        ARM7 {
            regs: RegValues::new(),
            instr_buffer0: 0,
            instr_buffer1: 0,
            arm_lut: gen_lut(),
            next_access_type: AccessType::N,
        }
    }

    /// Charges one access to the scheduler and performs the read: the value
    /// handed back is what the bus holds at the charged cycle.
    pub fn read(&self, hw: &mut HW, w: Width, access: AccessType, addr: u32) -> (r: u32)
        requires
            old(hw).wf(),
            spec_aligned(addr, w),
            old(hw).scheduler.cycle + 1 <= usize::MAX,
            old(hw).spec_read_ok_at(w, addr, (old(hw).scheduler.cycle + 1) as usize),
        ensures
            final(hw).wf(),
            HW::eq_but_cycle(*old(hw), *final(hw)),
            final(hw).scheduler.cycle == old(hw).scheduler.cycle + 1,
            r == final(hw).spec_read(w, addr),
            r == old(hw).spec_read_at(w, addr, (old(hw).scheduler.cycle + 1) as usize),
    {
        let t = hw.arm9_get_access_time(access, addr);
        hw.scheduler.advance(t);
        hw.arm9_read(w, addr)
    }

    /// Charges one access to the scheduler and performs the write.
    pub fn write(&self, hw: &mut HW, w: Width, access: AccessType, addr: u32, value: u32)
        requires
            old(hw).wf(),
            spec_aligned(addr, w),
            old(hw).scheduler.cycle + 1 <= usize::MAX,
            old(hw).spec_write_ok_at(w, addr, (old(hw).scheduler.cycle + 1) as usize),
            spec_region(addr, old(hw).cp15) == ARM9MemoryRegion::IO ==> old(hw).scheduler.cycle + 1
                + 0x800_0001 <= usize::MAX,
        ensures
            final(hw).wf(),
            final(hw).scheduler.cycle == old(hw).scheduler.cycle + 1,
            final(hw).cp15 == old(hw).cp15,
            spec_region(addr, old(hw).cp15) != ARM9MemoryRegion::IO ==> final(hw).timers9 == old(hw).timers9,
            final(hw).timers9.timers@.len() == old(hw).timers9.timers@.len(),
            forall|j: int|
                0 <= j < 4 && !crate::mem::spec_hits_timer(addr, w, j) ==> final(hw).timers9.timers@[j] == old(hw).timers9.timers@[j],
            crate::mem::spec_timed_write(*old(hw), *final(hw), w, addr, value),
            exists|m: HW|
                HW::eq_but_cycle(*old(hw), m) && m.scheduler.cycle == old(hw).scheduler.cycle + 1
                    && m.wf() && #[trigger] HW::spec_write_rel(m, *final(hw), w, addr, value),
    {
        let t = hw.arm9_get_access_time(access, addr);
        hw.scheduler.advance(t);
        let ghost m = *hw;
        hw.arm9_write(w, addr, value);
        proof {
            reveal(HW::spec_write_rel);
            assert(HW::eq_but_cycle(*old(hw), m) && m.scheduler.cycle == old(hw).scheduler.cycle
                + 1 && m.wf() && HW::spec_write_rel(m, *hw, w, addr, value));
            assert forall|j: int|
                0 <= j < 4 && !crate::mem::spec_hits_timer(addr, w, j) implies hw.timers9.timers@[j]
                == old(hw).timers9.timers@[j] by {
                crate::mem::lemma_write_rel_timer_frame(m, *hw, w, addr, value, j);
            }
        }
    }

    /// Charges one internal cycle: time passes, nothing else moves.
    pub fn internal(&self, hw: &mut HW)
        requires
            old(hw).wf(),
            old(hw).scheduler.cycle + 1 <= usize::MAX,
        ensures
            final(hw).wf(),
            HW::eq_but_cycle(*old(hw), *final(hw)),
            final(hw).scheduler.cycle == old(hw).scheduler.cycle + 1,
    {
        hw.scheduler.advance(1);
    }

    /// The condition field evaluated against the current status flags.
    pub fn should_exec(&self, condition: u32) -> (r: bool)
        ensures
            r == spec_cond_passes(condition, self.regs@.cpsr),
    {
        cond_passes(condition, self.regs.cpsr)
    }

    /// Refills both pipeline slots for the 32-bit instruction set: two
    /// sequential word fetches from the (word-aligned) program counter,
    /// which ends up one word past the second fetch target — the pipeline
    /// reads eight bytes ahead of the word about to execute.
    pub fn fill_arm_instr_buffer(&mut self, hw: &mut HW)
        requires
            old(hw).wf(),
            old(hw).scheduler.cycle + 2 <= usize::MAX,
            old(hw).spec_read_ok_at(
                Width::Word,
                old(self).regs@.pc & 0xFFFF_FFFC,
                (old(hw).scheduler.cycle + 1) as usize,
            ),
            old(hw).spec_read_ok_at(
                Width::Word,
                crate::alu::wrap32((old(self).regs@.pc & 0xFFFF_FFFC) + 4),
                (old(hw).scheduler.cycle + 2) as usize,
            ),
        ensures
            final(self).regs@ == (RegsV {
                pc: crate::alu::wrap32((old(self).regs@.pc & 0xFFFF_FFFC) + 4),
                ..old(self).regs@
            }),
            final(self).arm_lut == old(self).arm_lut,
            final(self).next_access_type == old(self).next_access_type,
            final(hw).wf(),
            HW::eq_but_cycle(*old(hw), *final(hw)),
            final(hw).scheduler.cycle == old(hw).scheduler.cycle + 2,
            final(self).instr_buffer0 == old(hw).spec_read_at(
                Width::Word,
                old(self).regs@.pc & 0xFFFF_FFFC,
                (old(hw).scheduler.cycle + 1) as usize,
            ),
            final(self).instr_buffer1 == old(hw).spec_read_at(
                Width::Word,
                crate::alu::wrap32((old(self).regs@.pc & 0xFFFF_FFFC) + 4),
                (old(hw).scheduler.cycle + 2) as usize,
            ),
    {
        proof {
            lemma_word_align(self.regs.pc);
        }
        self.regs.pc = self.regs.pc & 0xFFFF_FFFC;
        proof {
            lemma_word_align(self.regs.pc);
        }
        self.instr_buffer0 = self.read(hw, Width::Word, AccessType::S, self.regs.pc & 0xFFFF_FFFC);
        self.regs.pc = self.regs.pc.wrapping_add(4);
        let ghost mid = *hw;
        proof {
            lemma_word_align(self.regs.pc);
        }
        self.instr_buffer1 = self.read(hw, Width::Word, AccessType::S, self.regs.pc & 0xFFFF_FFFC);
        proof {
            crate::mem::lemma_read_at_frame(
                *old(hw),
                mid,
                Width::Word,
                self.regs@.pc & 0xFFFF_FFFC,
                (old(hw).scheduler.cycle + 2) as usize,
            );
        }
    }

    /// Refills both pipeline slots for the compact instruction set: two
    /// sequential halfword fetches; the pipeline reads four bytes ahead.
    pub fn fill_thumb_instr_buffer(&mut self, hw: &mut HW)
        requires
            old(hw).wf(),
            old(hw).scheduler.cycle + 2 <= usize::MAX,
            old(hw).spec_read_ok_at(
                Width::Half,
                old(self).regs@.pc & 0xFFFF_FFFE,
                (old(hw).scheduler.cycle + 1) as usize,
            ),
            old(hw).spec_read_ok_at(
                Width::Half,
                crate::alu::wrap32((old(self).regs@.pc & 0xFFFF_FFFE) + 2),
                (old(hw).scheduler.cycle + 2) as usize,
            ),
        ensures
            final(self).regs@ == (RegsV {
                pc: crate::alu::wrap32((old(self).regs@.pc & 0xFFFF_FFFE) + 2),
                ..old(self).regs@
            }),
            final(self).arm_lut == old(self).arm_lut,
            final(self).next_access_type == old(self).next_access_type,
            final(hw).wf(),
            HW::eq_but_cycle(*old(hw), *final(hw)),
            final(hw).scheduler.cycle == old(hw).scheduler.cycle + 2,
            final(self).instr_buffer0 == old(hw).spec_read_at(
                Width::Half,
                old(self).regs@.pc & 0xFFFF_FFFE,
                (old(hw).scheduler.cycle + 1) as usize,
            ),
            final(self).instr_buffer1 == old(hw).spec_read_at(
                Width::Half,
                crate::alu::wrap32((old(self).regs@.pc & 0xFFFF_FFFE) + 2),
                (old(hw).scheduler.cycle + 2) as usize,
            ),
    {
        proof {
            lemma_half_align(self.regs.pc);
        }
        self.regs.pc = self.regs.pc & 0xFFFF_FFFE;
        proof {
            lemma_half_align(self.regs.pc);
        }
        self.instr_buffer0 = self.read(hw, Width::Half, AccessType::S, self.regs.pc & 0xFFFF_FFFE);
        self.regs.pc = self.regs.pc.wrapping_add(2);
        let ghost mid = *hw;
        proof {
            lemma_half_align(self.regs.pc);
        }
        self.instr_buffer1 = self.read(hw, Width::Half, AccessType::S, self.regs.pc & 0xFFFF_FFFE);
        proof {
            crate::mem::lemma_read_at_frame(
                *old(hw),
                mid,
                Width::Half,
                self.regs@.pc & 0xFFFF_FFFE,
                (old(hw).scheduler.cycle + 2) as usize,
            );
        }
    }

    /// Refetches the lookahead slot from the current program counter,
    /// charged under the given timing class; the executing slot and the
    /// registers stay.
    pub fn instruction_prefetch(&mut self, hw: &mut HW, access: AccessType)
        requires
            old(hw).wf(),
            old(hw).scheduler.cycle + 1 <= usize::MAX,
            old(hw).spec_read_ok_at(
                Width::Word,
                old(self).regs@.pc & 0xFFFF_FFFC,
                (old(hw).scheduler.cycle + 1) as usize,
            ),
        ensures
            final(self).regs == old(self).regs,
            final(self).instr_buffer0 == old(self).instr_buffer0,
            final(self).arm_lut == old(self).arm_lut,
            final(self).next_access_type == old(self).next_access_type,
            final(hw).wf(),
            HW::eq_but_cycle(*old(hw), *final(hw)),
            final(hw).scheduler.cycle == old(hw).scheduler.cycle + 1,
            final(self).instr_buffer1 == old(hw).spec_read_at(
                Width::Word,
                old(self).regs@.pc & 0xFFFF_FFFC,
                (old(hw).scheduler.cycle + 1) as usize,
            ),
    {
        proof {
            lemma_word_align(self.regs.pc);
        }
        self.instr_buffer1 = self.read(hw, Width::Word, access, self.regs.pc & 0xFFFF_FFFC);
    }
}

/// Arithmetic right shift of a 32-bit value by `amt` positions, `amt` < 32.
pub open spec fn spec_asr32(op: u32, amt: u32) -> u32 {
    (((op as i32) >> amt) as u32)
}

/// The barrel shifter's value: shift type 0..3 is logical left, logical
/// right, arithmetic right, rotate right. An immediate amount of zero means
/// no shift for logical left, a 32-position shift for the right shifts, and
/// rotate-right-extended through the carry for rotate; a register-specified
/// amount of zero leaves the operand alone, and register amounts run to 255.
pub open spec fn spec_shift_value(ty: u32, op: u32, amt: u32, imm: bool, carry_in: bool) -> u32 {
    if ty == 0 {
        if amt == 0 {
            op
        } else if amt < 32 {
            op << amt
        } else {
            0u32
        }
    } else if ty == 1 {
        if amt == 0 {
            if imm {
                0u32
            } else {
                op
            }
        } else if amt < 32 {
            op >> amt
        } else {
            0u32
        }
    } else if ty == 2 {
        if amt == 0 {
            if imm {
                if op & 0x8000_0000 != 0 {
                    0xFFFF_FFFFu32
                } else {
                    0u32
                }
            } else {
                op
            }
        } else if amt < 32 {
            spec_asr32(op, amt)
        } else {
            if op & 0x8000_0000 != 0 {
                0xFFFF_FFFFu32
            } else {
                0u32
            }
        }
    } else {
        if amt == 0 {
            if imm {
                ((if carry_in {
                    0x8000_0000u32
                } else {
                    0u32
                }) | (op >> 1))
            } else {
                op
            }
        } else {
            crate::alu::spec_ror32(op, amt)
        }
    }
}

/// The carry flag the barrel shifter leaves: the last bit shifted out, or
/// the incoming carry where no bit leaves the shifter.
pub open spec fn spec_shift_carry(ty: u32, op: u32, amt: u32, imm: bool, carry_in: bool) -> bool {
    if ty == 0 {
        if amt == 0 {
            carry_in
        } else if amt < 32 {
            op >> (32 - amt) & 1 != 0
        } else if amt == 32 {
            op & 1 != 0
        } else {
            false
        }
    } else if ty == 1 {
        if amt == 0 {
            if imm {
                op & 0x8000_0000 != 0
            } else {
                carry_in
            }
        } else if amt < 32 {
            op >> (amt - 1) & 1 != 0
        } else if amt == 32 {
            op & 0x8000_0000 != 0
        } else {
            false
        }
    } else if ty == 2 {
        if amt == 0 {
            if imm {
                op & 0x8000_0000 != 0
            } else {
                carry_in
            }
        } else if amt < 32 {
            op >> (amt - 1) & 1 != 0
        } else {
            op & 0x8000_0000 != 0
        }
    } else {
        if amt == 0 {
            if imm {
                op & 1 != 0
            } else {
                carry_in
            }
        } else if amt % 32 == 0 {
            op & 0x8000_0000 != 0
        } else {
            op >> (amt % 32 - 1) & 1 != 0
        }
    }
}

impl ARM7 {
    /// The barrel shifter: produces the shifted operand and, when flag
    /// updates are wanted, stores the shifter's carry-out in the status
    /// register.
    pub fn shift(
        &mut self,
        shift_type: u32,
        operand: u32,
        amount: u32,
        immediate: bool,
        change_status: bool,
    ) -> (r: u32)
        requires
            old(self).regs@.wf(),
            shift_type < 4,
            amount < 256,
        ensures
            final(self).regs@.wf(),
            r == spec_shift_value(
                shift_type,
                operand,
                amount,
                immediate,
                crate::regs::cpsr_c(old(self).regs@.cpsr),
            ),
            change_status ==> final(self).regs@ == old(self).regs@.with_c(
                spec_shift_carry(
                    shift_type,
                    operand,
                    amount,
                    immediate,
                    crate::regs::cpsr_c(old(self).regs@.cpsr),
                ),
            ),
            !change_status ==> final(self).regs == old(self).regs,
            final(self).regs@.mode() == old(self).regs@.mode(),
            final(self).instr_buffer0 == old(self).instr_buffer0,
            final(self).instr_buffer1 == old(self).instr_buffer1,
            final(self).arm_lut == old(self).arm_lut,
            final(self).next_access_type == old(self).next_access_type,
    {
        let carry_in = self.regs.get_c();
        let value: u32;
        let carry: bool;
        if shift_type == 0 {
            if amount == 0 {
                value = operand;
                carry = carry_in;
            } else if amount < 32 {
                value = operand << amount;
                carry = operand >> (32 - amount) & 1 != 0;
            } else if amount == 32 {
                value = 0;
                carry = operand & 1 != 0;
            } else {
                value = 0;
                carry = false;
            }
        } else if shift_type == 1 {
            if amount == 0 {
                if immediate {
                    value = 0;
                    carry = operand & 0x8000_0000 != 0;
                } else {
                    value = operand;
                    carry = carry_in;
                }
            } else if amount < 32 {
                value = operand >> amount;
                carry = operand >> (amount - 1) & 1 != 0;
            } else if amount == 32 {
                value = 0;
                carry = operand & 0x8000_0000 != 0;
            } else {
                value = 0;
                carry = false;
            }
        } else if shift_type == 2 {
            if amount == 0 {
                if immediate {
                    value = if operand & 0x8000_0000 != 0 {
                        0xFFFF_FFFF
                    } else {
                        0
                    };
                    carry = operand & 0x8000_0000 != 0;
                } else {
                    value = operand;
                    carry = carry_in;
                }
            } else if amount < 32 {
                value = ((operand as i32) >> amount) as u32;
                carry = operand >> (amount - 1) & 1 != 0;
            } else {
                value = if operand & 0x8000_0000 != 0 {
                    0xFFFF_FFFF
                } else {
                    0
                };
                carry = operand & 0x8000_0000 != 0;
            }
        } else {
            if amount == 0 {
                if immediate {
                    value = (if carry_in {
                        0x8000_0000u32
                    } else {
                        0
                    }) | (operand >> 1);
                    carry = operand & 1 != 0;
                } else {
                    value = operand;
                    carry = carry_in;
                }
            } else {
                value = crate::alu::ror32(operand, amount);
                let s = amount % 32;
                carry = if s == 0 {
                    operand & 0x8000_0000 != 0
                } else {
                    operand >> (s - 1) & 1 != 0
                };
            }
        }
        if change_status {
            self.regs.set_c(carry);
        }
        value
    }

    /// Adds the operands; when flag updates are wanted, stores the carry and
    /// signed-overflow flags of the full-width addition.
    pub fn alu_add(&mut self, op1: u32, op2: u32, change_status: bool) -> (r: u32)
        requires
            old(self).regs@.wf(),
        ensures
            final(self).regs@.wf(),
            r == crate::alu::wrap32(op1 + op2),
            change_status ==> final(self).regs@ == old(self).regs@.with_c(
                crate::alu::spec_add_carry(op1, op2, false),
            ).with_v(crate::alu::spec_add_overflow(op1, op2, false)),
            !change_status ==> final(self).regs == old(self).regs,
            final(self).regs@.mode() == old(self).regs@.mode(),
            final(self).instr_buffer0 == old(self).instr_buffer0,
            final(self).instr_buffer1 == old(self).instr_buffer1,
            final(self).arm_lut == old(self).arm_lut,
            final(self).next_access_type == old(self).next_access_type,
    {
        let (value, carry, overflow) = crate::alu::adc32(op1, op2, false);
        if change_status {
            self.regs.set_c(carry);
            self.regs.set_v(overflow);
        }
        value
    }

    /// Adds the operands and the incoming carry.
    pub fn alu_adc(&mut self, op1: u32, op2: u32, change_status: bool) -> (r: u32)
        requires
            old(self).regs@.wf(),
        ensures
            final(self).regs@.wf(),
            r == crate::alu::wrap32(
                op1 + op2 + (if crate::regs::cpsr_c(old(self).regs@.cpsr) {
                    1int
                } else {
                    0int
                }),
            ),
            change_status ==> final(self).regs@ == old(self).regs@.with_c(
                crate::alu::spec_add_carry(op1, op2, crate::regs::cpsr_c(old(self).regs@.cpsr)),
            ).with_v(
                crate::alu::spec_add_overflow(op1, op2, crate::regs::cpsr_c(old(self).regs@.cpsr)),
            ),
            !change_status ==> final(self).regs == old(self).regs,
            final(self).regs@.mode() == old(self).regs@.mode(),
            final(self).instr_buffer0 == old(self).instr_buffer0,
            final(self).instr_buffer1 == old(self).instr_buffer1,
            final(self).arm_lut == old(self).arm_lut,
            final(self).next_access_type == old(self).next_access_type,
    {
        let (value, carry, overflow) = crate::alu::adc32(op1, op2, self.regs.get_c());
        if change_status {
            self.regs.set_c(carry);
            self.regs.set_v(overflow);
        }
        value
    }

    /// Subtracts the second operand; the carry flag reports that no borrow
    /// occurred.
    pub fn alu_sub(&mut self, op1: u32, op2: u32, change_status: bool) -> (r: u32)
        requires
            old(self).regs@.wf(),
        ensures
            final(self).regs@.wf(),
            r == crate::alu::wrap32(op1 - op2),
            change_status ==> final(self).regs@ == old(self).regs@.with_c(
                crate::alu::spec_sub_carry(op1, op2, true),
            ).with_v(crate::alu::spec_sub_overflow(op1, op2, true)),
            !change_status ==> final(self).regs == old(self).regs,
            final(self).regs@.mode() == old(self).regs@.mode(),
            final(self).instr_buffer0 == old(self).instr_buffer0,
            final(self).instr_buffer1 == old(self).instr_buffer1,
            final(self).arm_lut == old(self).arm_lut,
            final(self).next_access_type == old(self).next_access_type,
    {
        let (value, carry, overflow) = crate::alu::sbc32(op1, op2, true);
        if change_status {
            self.regs.set_c(carry);
            self.regs.set_v(overflow);
        }
        value
    }

    /// Subtracts with the incoming carry standing in for no-pending-borrow.
    pub fn alu_sbc(&mut self, op1: u32, op2: u32, change_status: bool) -> (r: u32)
        requires
            old(self).regs@.wf(),
        ensures
            final(self).regs@.wf(),
            r == crate::alu::wrap32(
                op1 - op2 - (if crate::regs::cpsr_c(old(self).regs@.cpsr) {
                    0int
                } else {
                    1int
                }),
            ),
            change_status ==> final(self).regs@ == old(self).regs@.with_c(
                crate::alu::spec_sub_carry(op1, op2, crate::regs::cpsr_c(old(self).regs@.cpsr)),
            ).with_v(
                crate::alu::spec_sub_overflow(op1, op2, crate::regs::cpsr_c(old(self).regs@.cpsr)),
            ),
            !change_status ==> final(self).regs == old(self).regs,
            final(self).regs@.mode() == old(self).regs@.mode(),
            final(self).instr_buffer0 == old(self).instr_buffer0,
            final(self).instr_buffer1 == old(self).instr_buffer1,
            final(self).arm_lut == old(self).arm_lut,
            final(self).next_access_type == old(self).next_access_type,
    {
        let (value, carry, overflow) = crate::alu::sbc32(op1, op2, self.regs.get_c());
        if change_status {
            self.regs.set_c(carry);
            self.regs.set_v(overflow);
        }
        value
    }
}

/// The early-termination multiplier timing: the number of internal cycles
/// the multiplier takes for one operand, one per significant byte — a byte
/// is insignificant when it and everything above it are all zero, or all one
/// under a signed reading.
pub open spec fn spec_mul_clocks(op: u32, signed: bool) -> usize {
    if op & 0xFFFF_FF00 == 0 || (signed && op & 0xFFFF_FF00 == 0xFFFF_FF00) {
        1
    } else if op & 0xFFFF_0000 == 0 || (signed && op & 0xFFFF_0000 == 0xFFFF_0000) {
        2
    } else if op & 0xFF00_0000 == 0 || (signed && op & 0xFF00_0000 == 0xFF00_0000) {
        3
    } else {
        4
    }
}

impl ARM7 {
    /// Charges the multiplier's early-termination internal cycles for one
    /// operand.
    pub fn inc_mul_clocks(&self, hw: &mut HW, op: u32, signed: bool)
        requires
            old(hw).wf(),
            old(hw).scheduler.cycle + 4 <= usize::MAX,
        ensures
            final(hw).wf(),
            HW::eq_but_cycle(*old(hw), *final(hw)),
            final(hw).scheduler.cycle == old(hw).scheduler.cycle + spec_mul_clocks(op, signed),
    {
        let clocks: usize = if op & 0xFFFF_FF00 == 0 || (signed && op & 0xFFFF_FF00
            == 0xFFFF_FF00) {
            1
        } else if op & 0xFFFF_0000 == 0 || (signed && op & 0xFFFF_0000 == 0xFFFF_0000) {
            2
        } else if op & 0xFF00_0000 == 0 || (signed && op & 0xFF00_0000 == 0xFF00_0000) {
            3
        } else {
            4
        };
        hw.scheduler.advance(clocks);
    }
}


/// Bounds of the instruction's bit fields.
proof fn lemma_fields(instr: u32)
    by (bit_vector)
    ensures
        instr & 0xF < 16,
        (instr >> 8) & 0xF < 16,
        (instr >> 12) & 0xF < 16,
        (instr >> 16) & 0xF < 16,
        (instr >> 21) & 0xF < 16,
        (instr >> 28) & 0xF < 16,
        (instr >> 5) & 0x3 < 4,
        (instr >> 7) & 0x1F < 32,
        instr & 0xFF < 256,
        ((instr >> 8) & 0xF) * 2 <= 30,
        instr & 0xFFF < 0x1000,
        instr & 0xFFFF < 0x10000,
{
}

/// The sign-extended, word-scaled branch offset: 24 bits, extended through
/// bit 23, times four.
pub open spec fn spec_branch_offset(instr: u32) -> u32 {
    let off = if (instr >> 23) & 1 == 1 {
        0xFF00_0000 | (instr & 0xFF_FFFF)
    } else {
        instr & 0xFF_FFFF
    };
    off << 2
}

impl ARM7 {
    /// Branch and exchange: jumps to the register's value, switching to the
    /// compact instruction set when the target is odd (rounded down by one).
    /// Charges one non-sequential fetch and the two fetches of the refill.
    pub fn branch_and_exchange(&mut self, hw: &mut HW, instr: u32)
        requires
            old(self).wf(),
            old(hw).wf(),
            old(hw).ok_span(0x10),
        ensures
            final(self).wf(),
            final(hw).wf(),
            final(self).arm_lut == old(self).arm_lut,
            HW::eq_but_cycle(*old(hw), *final(hw)),
            final(hw).scheduler.cycle == old(hw).scheduler.cycle + 3,
            ({
                let target = old(self).regs@.reg((instr & 0xF) as int);
                if target & 1 != 0 {
                    final(self).regs@ == (RegsV {
                        pc: wrap32((((target - 1) as u32) & 0xFFFF_FFFE) + 2),
                        ..old(self).regs@.with_t(true)
                    })
                } else {
                    final(self).regs@ == (RegsV {
                        pc: wrap32((target & 0xFFFF_FFFC) + 4),
                        ..old(self).regs@
                    })
                }
            }),
    {
        proof {
            lemma_fields(instr);
            crate::mem::lemma_ok_at(
                *old(hw),
                *hw,
                0x10,
                Width::Word,
                self.regs@.pc & 0xFFFF_FFFC,
                (hw.scheduler.cycle + 1) as usize,
            );
        }
        self.instruction_prefetch(hw, AccessType::N);
        self.regs.pc = self.regs.get_reg_i(instr & 0xF);
        if self.regs.pc & 0x1 != 0 {
            proof {
                let p = self.regs@.pc;
                assert(p & 0x1 != 0 ==> p >= 1) by (bit_vector);
            }
            self.regs.pc = self.regs.pc - 1;
            self.regs.set_t(true);
            proof {
                crate::mem::lemma_ok_at(
                    *old(hw),
                    *hw,
                    0x10,
                    Width::Half,
                    self.regs@.pc & 0xFFFF_FFFE,
                    (hw.scheduler.cycle + 1) as usize,
                );
                crate::mem::lemma_ok_at(
                    *old(hw),
                    *hw,
                    0x10,
                    Width::Half,
                    crate::alu::wrap32((self.regs@.pc & 0xFFFF_FFFE) + 2),
                    (hw.scheduler.cycle + 2) as usize,
                );
            }
            self.fill_thumb_instr_buffer(hw);
        } else {
            proof {
                crate::mem::lemma_ok_at(
                    *old(hw),
                    *hw,
                    0x10,
                    Width::Word,
                    self.regs@.pc & 0xFFFF_FFFC,
                    (hw.scheduler.cycle + 1) as usize,
                );
                crate::mem::lemma_ok_at(
                    *old(hw),
                    *hw,
                    0x10,
                    Width::Word,
                    crate::alu::wrap32((self.regs@.pc & 0xFFFF_FFFC) + 4),
                    (hw.scheduler.cycle + 2) as usize,
                );
            }
            self.fill_arm_instr_buffer(hw);
        }
    }

    /// Branch, optionally with link: adds the sign-extended, word-scaled
    /// offset to the program counter, first saving the return address — the
    /// branch's own address plus four — into the link register when linking.
    /// Always refills the pipeline.
    pub fn branch_branch_with_link(&mut self, hw: &mut HW, instr: u32, l: bool)
        requires
            old(self).wf(),
            old(hw).wf(),
            old(hw).ok_span(0x10),
        ensures
            final(self).wf(),
            final(hw).wf(),
            final(self).arm_lut == old(self).arm_lut,
            HW::eq_but_cycle(*old(hw), *final(hw)),
            final(hw).scheduler.cycle == old(hw).scheduler.cycle + 3,
            ({
                let linked = if l {
                    old(self).regs@.with_reg(14, wrap32(old(self).regs@.pc - 4))
                } else {
                    old(self).regs@
                };
                final(self).regs@ == (RegsV {
                    pc: wrap32(
                        (wrap32(old(self).regs@.pc + spec_branch_offset(instr)) & 0xFFFF_FFFC) + 4,
                    ),
                    ..linked
                })
            }),
    {
        proof {
            crate::mem::lemma_ok_at(
                *old(hw),
                *hw,
                0x10,
                Width::Word,
                self.regs@.pc & 0xFFFF_FFFC,
                (hw.scheduler.cycle + 1) as usize,
            );
        }
        let offset = instr & 0xFF_FFFF;
        let offset = if (offset >> 23) == 1 {
            0xFF00_0000 | offset
        } else {
            offset
        };
        proof {
            assert((instr & 0xFF_FFFF) >> 23 == 1 <==> (instr >> 23) & 1 == 1) by (bit_vector);
        }
        self.instruction_prefetch(hw, AccessType::N);
        if l {
            // Branch with link: the return address is the branch's own
            // address plus four.
            self.regs.set_reg(Reg::R14, self.regs.pc.wrapping_sub(4));
            proof {
                assert(crate::regs::spec_reg_of(14) == Reg::R14);
            }
        }
        self.regs.pc = self.regs.pc.wrapping_add(offset << 2u32);
        proof {
            crate::mem::lemma_ok_at(
                *old(hw),
                *hw,
                0x10,
                Width::Word,
                self.regs@.pc & 0xFFFF_FFFC,
                (hw.scheduler.cycle + 1) as usize,
            );
            crate::mem::lemma_ok_at(
                *old(hw),
                *hw,
                0x10,
                Width::Word,
                crate::alu::wrap32((self.regs@.pc & 0xFFFF_FFFC) + 4),
                (hw.scheduler.cycle + 2) as usize,
            );
        }
        self.fill_arm_instr_buffer(hw);
    }

    /// Software interrupt: enters supervisor mode saving the status word,
    /// stores the return address in the banked link register, disables
    /// interrupts, and continues at the fixed vector.
    pub fn arm_software_interrupt(&mut self, hw: &mut HW, instr: u32)
        requires
            old(self).wf(),
            old(hw).wf(),
            old(hw).ok_span(0x10),
        ensures
            final(self).wf(),
            final(hw).wf(),
            final(self).arm_lut == old(self).arm_lut,
            HW::eq_but_cycle(*old(hw), *final(hw)),
            final(hw).scheduler.cycle == old(hw).scheduler.cycle + 3,
            final(self).regs@ == (RegsV {
                pc: 12u32,
                ..old(self).regs@.with_spsr_of(Mode::SVC, old(self).regs@.cpsr).with_mode(
                    Mode::SVC,
                ).with_reg(14, wrap32(old(self).regs@.pc - 4)).with_i(true)
            }),
    {
        proof {
            crate::mem::lemma_ok_at(
                *old(hw),
                *hw,
                0x10,
                Width::Word,
                self.regs@.pc & 0xFFFF_FFFC,
                (hw.scheduler.cycle + 1) as usize,
            );
        }
        let _ = instr;
        self.instruction_prefetch(hw, AccessType::N);
        self.regs.change_mode(Mode::SVC);
        self.regs.set_reg(Reg::R14, self.regs.pc.wrapping_sub(4));
        proof {
            assert(crate::regs::spec_reg_of(14) == Reg::R14);
        }
        self.regs.set_i(true);
        self.regs.pc = 0x8;
        proof {
            assert(0x8u32 & 0xFFFF_FFFC == 0x8) by (bit_vector);
            crate::mem::lemma_ok_at(
                *old(hw),
                *hw,
                0x10,
                Width::Word,
                self.regs@.pc & 0xFFFF_FFFC,
                (hw.scheduler.cycle + 1) as usize,
            );
            crate::mem::lemma_ok_at(
                *old(hw),
                *hw,
                0x10,
                Width::Word,
                crate::alu::wrap32((self.regs@.pc & 0xFFFF_FFFC) + 4),
                (hw.scheduler.cycle + 2) as usize,
            );
        }
        self.fill_arm_instr_buffer(hw);
    }

    /// Coprocessor instructions are unimplemented by design: the core
    /// reports the gap loudly rather than treating them as no-ops.
    pub fn coprocessor(&mut self, hw: &mut HW, instr: u32) -> (r: Result<(), Fault>)
        ensures
            r == Err::<(), Fault>(Fault::Coprocessor),
            *final(self) == *old(self),
            *final(hw) == *old(hw),
    {
        let _ = instr;
        let _ = hw;
        Err(Fault::Coprocessor)
    }

    /// The architecturally undefined class: never tolerated silently.
    pub fn undefined_instr_arm(&mut self, hw: &mut HW, instr: u32) -> (r: Result<(), Fault>)
        ensures
            r == Err::<(), Fault>(Fault::UndefinedInstr),
            *final(self) == *old(self),
            *final(hw) == *old(hw),
    {
        let _ = instr;
        let _ = hw;
        Err(Fault::UndefinedInstr)
    }
}



/// The 64-bit product of the long multiply: sign- or zero-extended 32-bit
/// operands, wrapping at 64 bits, plus the 64-bit accumulator when asked.
pub open spec fn spec_mul_long_result(
    op1: u32,
    op2: u32,
    signed: bool,
    a: bool,
    acc_hi: u32,
    acc_lo: u32,
) -> u64 {
    let prod = if signed {
        vstd::wrapping::u64_specs::wrapping_mul(((op1 as i32) as u64), ((op2 as i32) as u64))
    } else {
        ((op1 as u64) * (op2 as u64)) as u64
    };
    let acc = if a {
        (((acc_hi as u64) << 32) | (acc_lo as u64)) as u64
    } else {
        0u64
    };
    vstd::wrapping::u64_specs::wrapping_add(prod, acc)
}

impl ARM7 {
    /// Multiply, optionally accumulating: a 32x32 product, plus the prior
    /// value of the operand register when accumulating (one extra internal
    /// cycle); the multiplier charges its early-termination cycles for the
    /// first operand, read signed. Without accumulation the encoding
    /// reserves the accumulate-register field as zero: any other value is a
    /// malformed pattern and faults.
    pub fn mul_mula(&mut self, hw: &mut HW, instr: u32, a: bool, s: bool) -> (r: Result<
        (),
        Fault,
    >)
        requires
            old(self).wf(),
            old(hw).wf(),
            old(hw).ok_span(0x10),
            spec_decode(spec_key_of(instr)) == (InstrKind::MulMula { a, s }),
        ensures
            final(self).wf(),
            final(hw).wf(),
            final(self).arm_lut == old(self).arm_lut,
            HW::eq_but_cycle(*old(hw), *final(hw)),
            r is Ok || r == Err::<(), Fault>(Fault::Malformed),
            r is Err <==> !a && (instr >> 12) & 0xF != 0,
            r is Err ==> r == Err::<(), Fault>(Fault::Malformed) && final(self).regs == old(self).regs && final(hw).scheduler.cycle == old(hw).scheduler.cycle + 1 + spec_mul_clocks(
                old(self).regs@.reg(((instr >> 8) & 0xF) as int),
                true,
            ),
            r is Ok ==> ({
                let op1 = old(self).regs@.reg(((instr >> 12) & 0xF) as int);
                let op2 = old(self).regs@.reg(((instr >> 8) & 0xF) as int);
                let op3 = old(self).regs@.reg((instr & 0xF) as int);
                let result = vstd::wrapping::u32_specs::wrapping_add(
                    vstd::wrapping::u32_specs::wrapping_mul(op2, op3),
                    (if a {
                        op1
                    } else {
                        0u32
                    }),
                );
                let flagged = if s {
                    old(self).regs@.with_n(result & 0x8000_0000 != 0).with_z(result == 0)
                } else {
                    old(self).regs@
                };
                &&& final(self).regs@ == flagged.with_reg(((instr >> 16) & 0xF) as int, result)
                &&& final(hw).scheduler.cycle == old(hw).scheduler.cycle + 1 + spec_mul_clocks(
                    op2,
                    true,
                ) + (if a {
                    1int
                } else {
                    0int
                })
            }),
    {
        proof {
            lemma_fields(instr);
            crate::mem::lemma_ok_at(
                *old(hw),
                *hw,
                0x10,
                Width::Word,
                self.regs@.pc & 0xFFFF_FFFC,
                (hw.scheduler.cycle + 1) as usize,
            );
        }
        let dest_reg = instr >> 16 & 0xF;
        let op1_reg = instr >> 12 & 0xF;
        let op1 = self.regs.get_reg_i(op1_reg);
        let op2 = self.regs.get_reg_i(instr >> 8 & 0xF);
        let op3 = self.regs.get_reg_i(instr & 0xF);

        self.instruction_prefetch(hw, AccessType::S);
        self.inc_mul_clocks(hw, op2, true);
        let result = if a {
            self.internal(hw);
            op2.wrapping_mul(op3).wrapping_add(op1)
        } else {
            if op1_reg != 0 {
                // The encoding reserves this field as zero when not
                // accumulating.
                return Err(Fault::Malformed);
            }
            op2.wrapping_mul(op3)
        };
        if s {
            self.regs.set_n(result & 0x8000_0000 != 0);
            self.regs.set_z(result == 0);
        }
        self.regs.set_reg_i(dest_reg, result);
        Ok(())
    }

    /// Long multiply: a 32x32 product to 64 bits, signed or unsigned, with
    /// an optional 64-bit accumulate assembled from the two destination
    /// registers (one extra internal cycle); the flags reflect the 64-bit
    /// result's sign and zero-ness. Charges one internal cycle and the
    /// multiplier's early-termination cycles for the first operand.
    pub fn mul_long(&mut self, hw: &mut HW, instr: u32, u: bool, a: bool, s: bool)
        requires
            old(self).wf(),
            old(hw).wf(),
            old(hw).ok_span(0x10),
            spec_decode(spec_key_of(instr)) == (InstrKind::MulLong { u, a, s }),
        ensures
            final(self).wf(),
            final(hw).wf(),
            final(self).arm_lut == old(self).arm_lut,
            HW::eq_but_cycle(*old(hw), *final(hw)),
            ({
                let rhi = ((instr >> 16) & 0xF) as int;
                let rlo = ((instr >> 12) & 0xF) as int;
                let op1 = old(self).regs@.reg(((instr >> 8) & 0xF) as int);
                let op2 = old(self).regs@.reg((instr & 0xF) as int);
                let result = spec_mul_long_result(
                    op1,
                    op2,
                    u,
                    a,
                    old(self).regs@.reg(rhi),
                    old(self).regs@.reg(rlo),
                );
                let flagged = if s {
                    old(self).regs@.with_n(result & 0x8000_0000_0000_0000 != 0).with_z(result == 0)
                } else {
                    old(self).regs@
                };
                &&& final(self).regs@ == flagged.with_reg(rlo, result as u32).with_reg(
                    rhi,
                    (result >> 32) as u32,
                )
                &&& final(hw).scheduler.cycle == old(hw).scheduler.cycle + 2 + spec_mul_clocks(
                    op1,
                    u,
                ) + (if a {
                    1int
                } else {
                    0int
                })
            }),
    {
        proof {
            lemma_fields(instr);
            crate::mem::lemma_ok_at(
                *old(hw),
                *hw,
                0x10,
                Width::Word,
                self.regs@.pc & 0xFFFF_FFFC,
                (hw.scheduler.cycle + 1) as usize,
            );
        }
        let src_dest_reg_high = instr >> 16 & 0xF;
        let src_dest_reg_low = instr >> 12 & 0xF;
        let op1 = self.regs.get_reg_i(instr >> 8 & 0xF);
        let op2 = self.regs.get_reg_i(instr & 0xF);

        self.instruction_prefetch(hw, AccessType::S);
        self.internal(hw);
        self.inc_mul_clocks(hw, op1, u);
        proof {
            let x = op1 as u64;
            let y = op2 as u64;
            assert(x * y <= 0xFFFF_FFFFu64 * 0xFFFF_FFFFu64) by (nonlinear_arith)
                requires
                    x <= 0xFFFF_FFFFu64 && y <= 0xFFFF_FFFFu64,
            ;
        }
        let base: u64 = if u {
            let sx: u64 = #[verifier::truncate] ((op1 as i32) as u64);
            let sy: u64 = #[verifier::truncate] ((op2 as i32) as u64);
            sx.wrapping_mul(sy)
        } else {
            (op1 as u64) * (op2 as u64)
        };
        let result: u64 = base.wrapping_add(
            if a {
                self.internal(hw);
                (self.regs.get_reg_i(src_dest_reg_high) as u64) << 32u32 | (self.regs.get_reg_i(
                    src_dest_reg_low,
                ) as u64)
            } else {
                0
            },
        );
        if s {
            self.regs.set_n(result & 0x8000_0000_0000_0000 != 0);
            self.regs.set_z(result == 0);
        }
        self.regs.set_reg_i(src_dest_reg_low, #[verifier::truncate] (result as u32));
        self.regs.set_reg_i(src_dest_reg_high, (result >> 32u32) as u32);
    }
}



/// The field mask of a move-to-status write: flags, status, extension and
/// control bytes are individually selectable, and the control byte only
/// outside user mode.
pub open spec fn spec_msr_mask(regs: RegsV, instr: u32) -> u32 {
    (if (instr >> 19) & 1 != 0 {
        0xFF00_0000u32
    } else {
        0u32
    }) | (if (instr >> 18) & 1 != 0 {
        0x00FF_0000u32
    } else {
        0u32
    }) | (if (instr >> 17) & 1 != 0 {
        0x0000_FF00u32
    } else {
        0u32
    }) | (if regs.mode() != Mode::USR && (instr >> 16) & 1 != 0 {
        0xFFu32
    } else {
        0u32
    })
}

/// The value a move-to-status write stores: the selected fields replaced by
/// the operand — a rotated immediate or a register — the rest kept.
pub open spec fn spec_msr_value(regs: RegsV, instr: u32, i: bool, p: bool) -> u32 {
    let operand = if i {
        spec_ror32(instr & 0xFF, ((((instr >> 8) & 0xF) * 2) as u32))
    } else {
        regs.reg((instr & 0xF) as int)
    };
    let sr = if p {
        regs.spsr()
    } else {
        regs.cpsr
    };
    (sr & !spec_msr_mask(regs, instr)) | (operand & spec_msr_mask(regs, instr))
}

impl ARM7 {
    /// Status-register transfer. Move-to-status applies the nibble-granular
    /// field mask — never the control byte in user mode — and faults on the
    /// reserved fields a valid encoding keeps fixed, or when the write would
    /// select a reserved mode encoding. Move-from-status copies the selected
    /// status register verbatim into a general register.
    pub fn psr_transfer(&mut self, hw: &mut HW, instr: u32, i: bool, p: bool, l: bool) -> (r:
        Result<(), Fault>)
        requires
            old(self).wf(),
            old(hw).wf(),
            old(hw).ok_span(0x10),
            spec_decode(spec_key_of(instr)) == (InstrKind::PsrTransfer { i, p, l }),
        ensures
            r is Ok || r == Err::<(), Fault>(Fault::Malformed) || r == Err::<(), Fault>(
                Fault::InvalidMode,
            ),
            final(self).wf(),
            final(hw).wf(),
            final(self).arm_lut == old(self).arm_lut,
            HW::eq_but_cycle(*old(hw), *final(hw)),
            final(hw).scheduler.cycle == old(hw).scheduler.cycle + 1,
            r is Err ==> final(self).regs == old(self).regs,
            l ==> ({
                let malformed = (instr >> 12) & 0xF != 0xF || (!i && (instr >> 4) & 0xFF != 0);
                let v = spec_msr_value(old(self).regs@, instr, i, p);
                &&& (malformed ==> r == Err::<(), Fault>(Fault::Malformed))
                &&& (!malformed && p ==> r is Ok && final(self).regs@ == old(self).regs@.with_spsr(v))
                &&& (!malformed && !p && (spec_mode_from_bits(v & 0x1F) is Some) ==> r is Ok
                    && final(self).regs@ == (RegsV { cpsr: v, ..old(self).regs@ }))
                &&& (!malformed && !p && (spec_mode_from_bits(v & 0x1F) is None) ==> r == Err::<
                    (),
                    Fault,
                >(Fault::InvalidMode))
            }),
            !l ==> ({
                let malformed = i || (instr & 0xFFF) != 0;
                &&& (malformed ==> r == Err::<(), Fault>(Fault::Malformed))
                &&& (!malformed ==> r is Ok && final(self).regs@ == old(self).regs@.with_reg(
                    ((instr >> 12) & 0xF) as int,
                    (if p {
                        old(self).regs@.spsr()
                    } else {
                        old(self).regs@.cpsr
                    }),
                ))
            }),
    {
        proof {
            lemma_fields(instr);
            crate::mem::lemma_ok_at(
                *old(hw),
                *hw,
                0x10,
                Width::Word,
                self.regs@.pc & 0xFFFF_FFFC,
                (hw.scheduler.cycle + 1) as usize,
            );
        }
        self.instruction_prefetch(hw, AccessType::S);
        if l {
            let mask: u32 = (if instr >> 19 & 1 != 0 {
                0xFF00_0000u32
            } else {
                0
            }) | (if instr >> 18 & 1 != 0 {
                0x00FF_0000u32
            } else {
                0
            }) | (if instr >> 17 & 1 != 0 {
                0x0000_FF00u32
            } else {
                0
            }) | (if self.regs.get_mode() != Mode::USR && instr >> 16 & 1 != 0 {
                0xFFu32
            } else {
                0
            });
            if instr >> 12 & 0xF != 0xF {
                return Err(Fault::Malformed);
            }
            let operand = if i {
                crate::alu::ror32(instr & 0xFF, (instr >> 8 & 0xF) * 2)
            } else {
                if instr >> 4 & 0xFF != 0 {
                    return Err(Fault::Malformed);
                }
                self.regs.get_reg_i(instr & 0xF)
            };
            let sr = if p {
                self.regs.get_reg(Reg::SPSR)
            } else {
                self.regs.get_reg(Reg::CPSR)
            };
            let value = sr & !mask | (operand & mask);
            if p {
                self.regs.set_reg(Reg::SPSR, value);
            } else {
                // A control-byte write may only install a valid mode; a
                // reserved encoding is a fatal invariant violation.
                match crate::regs::mode_from_bits(value & 0x1F) {
                    Some(_) => self.regs.set_reg(Reg::CPSR, value),
                    None => {
                        return Err(Fault::InvalidMode);
                    },
                }
            }
            Ok(())
        } else {
            if i {
                return Err(Fault::Malformed);
            }
            if instr & 0xFFF != 0 {
                return Err(Fault::Malformed);
            }
            let sr = if p {
                self.regs.get_reg(Reg::SPSR)
            } else {
                self.regs.get_reg(Reg::CPSR)
            };
            self.regs.set_reg_i(instr >> 12 & 0xF, sr);
            Ok(())
        }
    }
}


/// A flag bit replaced inside a status word.
pub open spec fn spec_set_flag(c: u32, mask: u32, b: bool) -> u32 {
    c & !mask | (if b {
        mask
    } else {
        0u32
    })
}

/// The data-processing ALU: logical operations never consult addition's
/// carry; the arithmetic operations wrap at 32 bits, borrowing or carrying
/// through `c` for the extended forms.
pub open spec fn spec_alu_result(opcode: u32, op1: u32, op2: u32, c: bool) -> u32 {
    if opcode == 0x0 || opcode == 0x8 {
        op1 & op2
    } else if opcode == 0x1 || opcode == 0x9 {
        op1 ^ op2
    } else if opcode == 0x2 || opcode == 0xA {
        wrap32(op1 - op2)
    } else if opcode == 0x3 {
        wrap32(op2 - op1)
    } else if opcode == 0x4 || opcode == 0xB {
        wrap32(op1 + op2)
    } else if opcode == 0x5 {
        wrap32(op1 + op2 + (if c {
            1int
        } else {
            0int
        }))
    } else if opcode == 0x6 {
        wrap32(op1 - op2 - (if c {
            0int
        } else {
            1int
        }))
    } else if opcode == 0x7 {
        wrap32(op2 - op1 - (if c {
            0int
        } else {
            1int
        }))
    } else if opcode == 0xC {
        op1 | op2
    } else if opcode == 0xD {
        op2
    } else if opcode == 0xE {
        op1 & !op2
    } else {
        !op2
    }
}

/// Everything a data-processing instruction decides, short of the pipeline:
/// the ALU result, the status word after every flag update (or restore), and
/// where the result goes.
pub struct DpOut {
    pub op1: u32,
    pub op2: u32,
    pub shift_carry: bool,
    pub cpsr_shift: u32,
    pub result: u32,
    pub cpsr: u32,
    pub writes_reg: bool,
    pub writes_pc: bool,
    pub dest: u32,
    pub reg_shift: bool,
}

/// The data-processing semantics over the register file: operand two comes
/// from the barrel shifter — an even-rotated immediate, or a register
/// shifted by an immediate or by the low byte of a register, the latter
/// reading all registers with the program counter four bytes ahead. Flag
/// updates are suppressed when the destination is the program counter and
/// the set-flags bit is on; the status word is restored from the saved one
/// instead. Compare forms write flags only.
pub open spec fn spec_data_proc(regs: RegsV, instr: u32, i: bool, s: bool) -> DpOut {
    let opcode = (instr >> 21) & 0xF;
    let dest = (instr >> 12) & 0xF;
    let special = dest == 15 && s;
    let cs = s && !special;
    let reg_shift = !i && (instr >> 4) & 1 != 0;
    let rv = if reg_shift {
        RegsV { pc: wrap32(regs.pc + 4), ..regs }
    } else {
        regs
    };
    let cin = cpsr_c(regs.cpsr);
    let logical = opcode < 5 || opcode > 7;
    let imm_rot = (((instr >> 8) & 0xF) * 2) as u32;
    let amt = if reg_shift {
        rv.reg(((instr >> 8) & 0xF) as int) & 0xFF
    } else {
        (instr >> 7) & 0x1F
    };
    let ty = (instr >> 5) & 0x3;
    let op2 = if i {
        if logical && imm_rot != 0 {
            spec_shift_value(3, instr & 0xFF, imm_rot, true, cin)
        } else {
            spec_ror32(instr & 0xFF, imm_rot)
        }
    } else {
        spec_shift_value(ty, rv.reg((instr & 0xF) as int), amt, !reg_shift, cin)
    };
    let c1 = if i {
        if cs && logical && imm_rot != 0 {
            spec_shift_carry(3, instr & 0xFF, imm_rot, true, cin)
        } else {
            cin
        }
    } else {
        if cs && logical {
            spec_shift_carry(ty, rv.reg((instr & 0xF) as int), amt, !reg_shift, cin)
        } else {
            cin
        }
    };
    let op1 = rv.reg(((instr >> 16) & 0xF) as int);
    let result = spec_alu_result(opcode, op1, op2, c1);
    let shifter_flags = if i {
        cs && logical && imm_rot != 0
    } else {
        cs && logical
    };
    let cpsr1 = if shifter_flags {
        spec_set_flag(regs.cpsr, 0x2000_0000, c1)
    } else {
        regs.cpsr
    };
    let cpsr2 = if cs && (opcode == 2 || opcode == 0xA) {
        spec_set_flag(
            spec_set_flag(cpsr1, 0x2000_0000, crate::alu::spec_sub_carry(op1, op2, true)),
            0x1000_0000,
            crate::alu::spec_sub_overflow(op1, op2, true),
        )
    } else if cs && opcode == 3 {
        spec_set_flag(
            spec_set_flag(cpsr1, 0x2000_0000, crate::alu::spec_sub_carry(op2, op1, true)),
            0x1000_0000,
            crate::alu::spec_sub_overflow(op2, op1, true),
        )
    } else if cs && (opcode == 4 || opcode == 0xB) {
        spec_set_flag(
            spec_set_flag(cpsr1, 0x2000_0000, crate::alu::spec_add_carry(op1, op2, false)),
            0x1000_0000,
            crate::alu::spec_add_overflow(op1, op2, false),
        )
    } else if cs && opcode == 5 {
        spec_set_flag(
            spec_set_flag(cpsr1, 0x2000_0000, crate::alu::spec_add_carry(op1, op2, c1)),
            0x1000_0000,
            crate::alu::spec_add_overflow(op1, op2, c1),
        )
    } else if cs && opcode == 6 {
        spec_set_flag(
            spec_set_flag(cpsr1, 0x2000_0000, crate::alu::spec_sub_carry(op1, op2, c1)),
            0x1000_0000,
            crate::alu::spec_sub_overflow(op1, op2, c1),
        )
    } else if cs && opcode == 7 {
        spec_set_flag(
            spec_set_flag(cpsr1, 0x2000_0000, crate::alu::spec_sub_carry(op2, op1, c1)),
            0x1000_0000,
            crate::alu::spec_sub_overflow(op2, op1, c1),
        )
    } else {
        cpsr1
    };
    let cpsr3 = if cs {
        spec_set_flag(
            spec_set_flag(cpsr2, 0x4000_0000, result == 0),
            0x8000_0000,
            result & 0x8000_0000 != 0,
        )
    } else if special {
        regs.spsr()
    } else {
        cpsr2
    };
    DpOut {
        op1,
        op2,
        shift_carry: c1,
        cpsr_shift: cpsr1,
        result,
        cpsr: cpsr3,
        writes_reg: opcode & 0xC != 0x8,
        writes_pc: opcode & 0xC != 0x8 && dest == 15,
        dest,
        reg_shift,
    }
}

/// The skeleton of a word's dispatch key keeps exactly the key-covered bits.
proof fn lemma_skeleton_of_key(instr: u32)
    by (bit_vector)
    ensures
        ((((instr >> 16 & 0xFF0) | (instr >> 4 & 0xF)) & 0xFF0) << 16) | ((((instr >> 16 & 0xFF0)
            | (instr >> 4 & 0xF)) & 0xF) << 4) == instr & 0x0FF0_00F0,
        (instr >> 16 & 0xFF0) | (instr >> 4 & 0xF) < 4096,
{
}


impl ARM7 {
    /// Data processing. Operand two comes from the barrel shifter; a
    /// register-specified shift amount costs one extra internal cycle and
    /// reads every register with the program counter four bytes ahead.
    /// Writing the program counter triggers a pipeline refill in the width
    /// the (possibly just restored) instruction-set flag selects — restoring
    /// a saved status word with a reserved mode encoding is the one fatal
    /// outcome. Any other destination is a plain store, followed by the
    /// sequential prefetch.
    /// The compute phase of data processing: operand fetch through the
    /// barrel shifter, the ALU, and every flag update or status restore —
    /// the destination write and the pipeline work stay with the caller. On
    /// return the temporary program-counter advance of a register-specified
    /// shift is still in effect.
    #[verifier::rlimit(100)]
    #[verifier::spinoff_prover]
    fn dp_compute(&mut self, hw: &mut HW, instr: u32, i: bool, s: bool) -> (r: Result<u32, Fault>)
        requires
            old(self).wf(),
            old(hw).wf(),
            old(hw).ok_span(0x10),
            spec_decode(spec_key_of(instr)) == (InstrKind::DataProc { i, s }),
        ensures
            final(self).wf(),
            final(hw).wf(),
            final(self).arm_lut == old(self).arm_lut,
            final(self).instr_buffer0 == old(self).instr_buffer0,
            final(self).instr_buffer1 == old(self).instr_buffer1,
            final(self).next_access_type == old(self).next_access_type,
            HW::eq_but_cycle(*old(hw), *final(hw)),
            ({
                let o = spec_data_proc(old(self).regs@, instr, i, s);
                let special = (instr >> 12) & 0xF == 15 && s;
                let restore_bad = special && (spec_mode_from_bits(old(self).regs@.spsr() & 0x1F)
                    is None);
                let base = if o.reg_shift {
                    1int
                } else {
                    0int
                };
                &&& final(hw).scheduler.cycle == old(hw).scheduler.cycle + base
                &&& (restore_bad <==> r == Err::<u32, Fault>(Fault::InvalidMode))
                &&& (restore_bad ==> final(self).regs@ == old(self).regs@)
                &&& (!restore_bad ==> r == Ok::<u32, Fault>(o.result) && final(self).regs@
                    == (RegsV {
                    cpsr: o.cpsr,
                    pc: (if o.reg_shift {
                        wrap32(old(self).regs@.pc + 4)
                    } else {
                        old(self).regs@.pc
                    }),
                    ..old(self).regs@
                }))
            }),
    {
        proof {
            lemma_fields(instr);
        }
        let ghost o = spec_data_proc(old(self).regs@, instr, i, s);
        let mut temp_inc_pc = false;
        let opcode = instr >> 21 & 0xF;
        let dest_reg = instr >> 12 & 0xF;
        let special_change_status = dest_reg == 15 && s;
        let change_status = s && !special_change_status;
        let logical = opcode < 0x5 || opcode > 0x7;
        let op2 = if i {
            let sh = instr >> 8 & 0xF;
            let operand = instr & 0xFF;
            if logical && sh != 0 {
                self.shift(3, operand, sh * 2, true, change_status)
            } else {
                crate::alu::ror32(operand, sh * 2)
            }
        } else {
            let shift_by_reg = instr >> 4 & 0x1 != 0;
            let amt = if shift_by_reg {
                // Reading the shift amount advances the visible program
                // counter by one word for the rest of the operand reads, and
                // costs one internal cycle.
                self.regs.pc = self.regs.pc.wrapping_add(4);
                temp_inc_pc = true;
                self.internal(hw);
                let raw = self.regs.get_reg_i(instr >> 8 & 0xF);
                proof {
                    let rg = raw;
                    assert(rg & 0xFF < 256) by (bit_vector);
                }
                raw & 0xFF
            } else {
                instr >> 7 & 0x1F
            };
            let shift_type = instr >> 5 & 0x3;
            let op2v = self.regs.get_reg_i(instr & 0xF);
            self.shift(shift_type, op2v, amt, !shift_by_reg, change_status && logical)
        };
        proof {
            assert(op2 == o.op2);
            assert(self.regs@.cpsr == o.cpsr_shift);
        }
        let op1 = self.regs.get_reg_i(instr >> 16 & 0xF);
        proof {
            assert(op1 == o.op1);
        }
        let result = if opcode == 0x0 || opcode == 0x8 {
            op1 & op2
        } else if opcode == 0x1 || opcode == 0x9 {
            op1 ^ op2
        } else if opcode == 0x2 || opcode == 0xA {
            self.alu_sub(op1, op2, change_status)
        } else if opcode == 0x3 {
            self.alu_sub(op2, op1, change_status)
        } else if opcode == 0x4 || opcode == 0xB {
            self.alu_add(op1, op2, change_status)
        } else if opcode == 0x5 {
            self.alu_adc(op1, op2, change_status)
        } else if opcode == 0x6 {
            self.alu_sbc(op1, op2, change_status)
        } else if opcode == 0x7 {
            self.alu_sbc(op2, op1, change_status)
        } else if opcode == 0xC {
            op1 | op2
        } else if opcode == 0xD {
            op2
        } else if opcode == 0xE {
            op1 & !op2
        } else {
            !op2
        };
        proof {
            assert(result == o.result);
        }
        if change_status {
            self.regs.set_z(result == 0);
            self.regs.set_n(result & 0x8000_0000 != 0);
        } else if special_change_status {
            // Mode-return idiom: the full status word comes back from the
            // saved copy, ordinary flag writes are skipped.
            let spsr = self.regs.get_reg(Reg::SPSR);
            match crate::regs::mode_from_bits(spsr & 0x1F) {
                Some(_) => self.regs.set_reg(Reg::CPSR, spsr),
                None => {
                    if temp_inc_pc {
                        self.regs.pc = self.regs.pc.wrapping_sub(4);
                    }
                    proof {
                        assert(self.regs@ =~= old(self).regs@);
                    }
                    return Err(Fault::InvalidMode);
                },
            }
        }
        proof {
            assert(self.regs@.cpsr == o.cpsr);
            assert(self.regs@ =~= (RegsV {
                cpsr: o.cpsr,
                pc: (if o.reg_shift {
                    wrap32(old(self).regs@.pc + 4)
                } else {
                    old(self).regs@.pc
                }),
                ..old(self).regs@
            }));
        }
        Ok(result)
    }

    /// Data processing. Operand two comes from the barrel shifter; a
    /// register-specified shift amount costs one extra internal cycle and
    /// reads every register with the program counter four bytes ahead.
    /// Writing the program counter triggers a pipeline refill in the width
    /// the (possibly just restored) instruction-set flag selects — restoring
    /// a saved status word with a reserved mode encoding is the one fatal
    /// outcome. Any other destination is a plain store, followed by the
    /// sequential prefetch.
    #[verifier::rlimit(100)]
    #[verifier::spinoff_prover]
    pub fn data_proc(&mut self, hw: &mut HW, instr: u32, i: bool, s: bool) -> (r: Result<
        (),
        Fault,
    >)
        requires
            old(self).wf(),
            old(hw).wf(),
            old(hw).ok_span(0x10),
            spec_decode(spec_key_of(instr)) == (InstrKind::DataProc { i, s }),
        ensures
            final(self).wf(),
            final(hw).wf(),
            final(self).arm_lut == old(self).arm_lut,
            HW::eq_but_cycle(*old(hw), *final(hw)),
            r is Ok || r == Err::<(), Fault>(Fault::InvalidMode),
            ({
                let o = spec_data_proc(old(self).regs@, instr, i, s);
                let special = (instr >> 12) & 0xF == 15 && s;
                let restore_bad = special && (spec_mode_from_bits(old(self).regs@.spsr() & 0x1F)
                    is None);
                let base = if o.reg_shift {
                    1int
                } else {
                    0int
                };
                &&& (restore_bad <==> r == Err::<(), Fault>(Fault::InvalidMode))
                &&& (restore_bad ==> final(self).regs@ == old(self).regs@ && final(hw).scheduler.cycle == old(hw).scheduler.cycle + base)
                &&& (!restore_bad && o.writes_pc ==> ({
                    let width_pc = if crate::regs::cpsr_t(o.cpsr) {
                        wrap32((o.result & 0xFFFF_FFFE) + 2)
                    } else {
                        wrap32((o.result & 0xFFFF_FFFC) + 4)
                    };
                    final(self).regs@ == (RegsV {
                        cpsr: o.cpsr,
                        pc: width_pc,
                        ..old(self).regs@
                    }) && final(hw).scheduler.cycle == old(hw).scheduler.cycle + base + 3
                }))
                &&& (!restore_bad && o.writes_reg && !o.writes_pc ==> final(self).regs@ == (RegsV {
                    cpsr: o.cpsr,
                    ..old(self).regs@
                }).with_reg(o.dest as int, o.result) && final(hw).scheduler.cycle == old(hw).scheduler.cycle + base + 1)
                &&& (!restore_bad && !o.writes_reg ==> final(self).regs@ == (RegsV {
                    cpsr: o.cpsr,
                    ..old(self).regs@
                }) && final(hw).scheduler.cycle == old(hw).scheduler.cycle + base + 1)
            }),
    {
        proof {
            lemma_fields(instr);
        }
        let ghost o = spec_data_proc(old(self).regs@, instr, i, s);
        let opcode = instr >> 21 & 0xF;
        let dest_reg = instr >> 12 & 0xF;
        let temp_inc_pc = !i && instr >> 4 & 0x1 != 0;
        let result = match self.dp_compute(hw, instr, i, s) {
            Ok(v) => v,
            Err(f) => {
                return Err(f);
            },
        };
        let mut clocked = false;
        if opcode & 0xC != 0x8 {
            if dest_reg == 15 {
                clocked = true;
                proof {
                    crate::mem::lemma_ok_at(
                        *old(hw),
                        *hw,
                        0x10,
                        Width::Word,
                        self.regs@.pc & 0xFFFF_FFFC,
                        (hw.scheduler.cycle + 1) as usize,
                    );
                }
                self.instruction_prefetch(hw, AccessType::N);
                self.regs.pc = result;
                if self.regs.get_t() {
                    proof {
                        crate::mem::lemma_ok_at(
                            *old(hw),
                            *hw,
                            0x10,
                            Width::Half,
                            self.regs@.pc & 0xFFFF_FFFE,
                            (hw.scheduler.cycle + 1) as usize,
                        );
                        crate::mem::lemma_ok_at(
                            *old(hw),
                            *hw,
                            0x10,
                            Width::Half,
                            crate::alu::wrap32((self.regs@.pc & 0xFFFF_FFFE) + 2),
                            (hw.scheduler.cycle + 2) as usize,
                        );
                    }
                    self.fill_thumb_instr_buffer(hw);
                } else {
                    proof {
                        crate::mem::lemma_ok_at(
                            *old(hw),
                            *hw,
                            0x10,
                            Width::Word,
                            self.regs@.pc & 0xFFFF_FFFC,
                            (hw.scheduler.cycle + 1) as usize,
                        );
                        crate::mem::lemma_ok_at(
                            *old(hw),
                            *hw,
                            0x10,
                            Width::Word,
                            crate::alu::wrap32((self.regs@.pc & 0xFFFF_FFFC) + 4),
                            (hw.scheduler.cycle + 2) as usize,
                        );
                    }
                    self.fill_arm_instr_buffer(hw);
                }
                proof {
                    if crate::regs::cpsr_t(o.cpsr) {
                        assert(self.regs@ =~= (RegsV {
                            cpsr: o.cpsr,
                            pc: wrap32((o.result & 0xFFFF_FFFE) + 2),
                            ..old(self).regs@
                        }));
                    } else {
                        assert(self.regs@ =~= (RegsV {
                            cpsr: o.cpsr,
                            pc: wrap32((o.result & 0xFFFF_FFFC) + 4),
                            ..old(self).regs@
                        }));
                    }
                }
            } else {
                self.regs.set_reg_i(dest_reg, result);
            }
        }
        if !clocked {
            if temp_inc_pc {
                self.regs.pc = self.regs.pc.wrapping_sub(4);
            }
            proof {
                crate::mem::lemma_ok_at(
                    *old(hw),
                    *hw,
                    0x10,
                    Width::Word,
                    self.regs@.pc & 0xFFFF_FFFC,
                    (hw.scheduler.cycle + 1) as usize,
                );
            }
            self.instruction_prefetch(hw, AccessType::S);
            proof {
                if o.writes_reg {
                    assert(self.regs@ =~= (RegsV { cpsr: o.cpsr, ..old(self).regs@ }).with_reg(
                        o.dest as int,
                        o.result,
                    ));
                } else {
                    assert(self.regs@ =~= (RegsV { cpsr: o.cpsr, ..old(self).regs@ }));
                }
            }
        }
        Ok(())
    }
}


/// The shifted-register or immediate offset of a single data transfer.
#[verifier::opaque]
pub open spec fn spec_sdt_offset(regs: RegsV, instr: u32, i: bool) -> u32 {
    if i {
        spec_shift_value(
            (instr >> 5) & 0x3,
            regs.reg((instr & 0xF) as int),
            (instr >> 7) & 0x1F,
            true,
            cpsr_c(regs.cpsr),
        )
    } else {
        instr & 0xFFF
    }
}

impl ARM7 {
    /// The front half of a single data transfer: the non-sequential prefetch,
    /// the offset from the shifter or the immediate field, and the malformed
    /// checks; hands back the transfer address and the written-back address.
    #[verifier::rlimit(100)]
    #[verifier::spinoff_prover]
    fn sdt_prepare(&mut self, hw: &mut HW, instr: u32, i: bool, p: bool, u: bool) -> (r: Result<
        (u32, u32),
        Fault,
    >)
        requires
            old(self).wf(),
            old(hw).wf(),
            old(hw).ok_span(0x10),
        ensures
            final(self).wf(),
            final(hw).wf(),
            final(self).arm_lut == old(self).arm_lut,
            final(self).regs == old(self).regs,
            HW::eq_but_cycle(*old(hw), *final(hw)),
            final(hw).scheduler.cycle == old(hw).scheduler.cycle + 1,
            ({
                let malformed = (i && ((instr >> 4) & 1 != 0 || instr & 0xF == 15)) || (!p && (instr
                    >> 21) & 1 != 0);
                malformed <==> r is Err
            }),
            r is Err ==> r == Err::<(u32, u32), Fault>(Fault::Malformed),
            (match r {
                Ok(pair) => {
                    let base = old(self).regs@.reg(((instr >> 16) & 0xF) as int);
                    let offset = spec_sdt_offset(old(self).regs@, instr, i);
                    let oa = if u {
                        wrap32(base + offset)
                    } else {
                        wrap32(base - offset)
                    };
                    pair.1 == oa && pair.0 == (if p {
                        oa
                    } else {
                        base
                    })
                },
                Err(_) => true,
            }),
    {
        proof {
            reveal(spec_sdt_offset);
            lemma_fields(instr);
            crate::mem::lemma_ok_at(
                *old(hw),
                *hw,
                0x10,
                Width::Word,
                self.regs@.pc & 0xFFFF_FFFC,
                (hw.scheduler.cycle + 1) as usize,
            );
        }
        let base_reg = instr >> 16 & 0xF;
        let base = self.regs.get_reg_i(base_reg);
        self.instruction_prefetch(hw, AccessType::N);

        let offset = if i {
            if instr >> 4 & 0x1 != 0 {
                return Err(Fault::Malformed);
            }
            let offset_reg = instr & 0xF;
            if offset_reg == 15 {
                return Err(Fault::Malformed);
            }
            let operand = self.regs.get_reg_i(offset_reg);
            self.shift(instr >> 5 & 0x3, operand, instr >> 7 & 0x1F, true, false)
        } else {
            instr & 0xFFF
        };
        let offset_applied = if u {
            base.wrapping_add(offset)
        } else {
            base.wrapping_sub(offset)
        };
        let addr = if p {
            offset_applied
        } else {
            // Post-indexed transfers cannot ask for non-privileged access.
            if instr >> 21 & 0x1 != 0 {
                return Err(Fault::Malformed);
            }
            base
        };
        Ok((addr, offset_applied))
    }

    /// Single data transfer. The address is the base register plus or minus
    /// an immediate or shifted-register offset, applied before or after the
    /// access. Byte loads zero-extend; a misaligned word load rotates the
    /// aligned word by the misalignment times eight instead of faulting.
    /// Write-back is suppressed when a load's destination is its own base.
    /// Loading the program counter forces a refill; storing it stores its
    /// value plus four. A register offset naming the program counter, a
    /// shifted-register encoding with its reserved bit set, or a post-indexed
    /// form asking for non-privileged access, is a malformed pattern.
    #[verifier::rlimit(100)]
    #[verifier::spinoff_prover]
    pub fn single_data_transfer(
        &mut self,
        hw: &mut HW,
        instr: u32,
        i: bool,
        p: bool,
        u: bool,
        b: bool,
        w: bool,
        l: bool,
    ) -> (r: Result<(), Fault>)
        requires
            old(self).wf(),
            old(hw).wf(),
            old(hw).ok_span(0x10),
            old(hw).scheduler.cycle + 0xA00_0000 <= usize::MAX,
        ensures
            final(self).wf(),
            final(hw).wf(),
            final(self).arm_lut == old(self).arm_lut,
            r is Ok || r == Err::<(), Fault>(Fault::Malformed),
            ({
                let malformed = (i && ((instr >> 4) & 1 != 0 || instr & 0xF == 15)) || (!p && (instr
                    >> 21) & 1 != 0);
                malformed <==> r == Err::<(), Fault>(Fault::Malformed)
            }),
            ({
                let malformed = (i && ((instr >> 4) & 1 != 0 || instr & 0xF == 15)) || (!p && (instr
                    >> 21) & 1 != 0);
                malformed ==> final(self).regs == old(self).regs && HW::eq_but_cycle(
                    *old(hw),
                    *final(hw),
                ) && final(hw).scheduler.cycle == old(hw).scheduler.cycle + 1
            }),
            ({
                let malformed = (i && ((instr >> 4) & 1 != 0 || instr & 0xF == 15)) || (!p && (instr
                    >> 21) & 1 != 0);
                let base = old(self).regs@.reg(((instr >> 16) & 0xF) as int);
                let offset = spec_sdt_offset(old(self).regs@, instr, i);
                let oa = if u {
                    wrap32(base + offset)
                } else {
                    wrap32(base - offset)
                };
                let addr = if p {
                    oa
                } else {
                    base
                };
                let dest = ((instr >> 12) & 0xF) as int;
                let stored = if dest == 15 {
                    wrap32(old(self).regs@.reg(15) + 4)
                } else {
                    old(self).regs@.reg(dest)
                };
                let ww = if b {
                    Width::Byte
                } else {
                    Width::Word
                };
                let wa = if b {
                    addr
                } else {
                    addr & 0xFFFF_FFFC
                };
                !malformed && !l ==> crate::mem::spec_timed_write_n(
                    *old(hw),
                    *final(hw),
                    2,
                    ww,
                    wa,
                    stored,
                )
            }),
            ({
                let malformed = (i && ((instr >> 4) & 1 != 0 || instr & 0xF == 15)) || (!p && (instr
                    >> 21) & 1 != 0);
                let base = old(self).regs@.reg(((instr >> 16) & 0xF) as int);
                let offset = spec_sdt_offset(old(self).regs@, instr, i);
                let oa = if u {
                    wrap32(base + offset)
                } else {
                    wrap32(base - offset)
                };
                let addr = if p {
                    oa
                } else {
                    base
                };
                let dest = ((instr >> 12) & 0xF) as int;
                let wb = (w || !p) && !(l && dest == ((instr >> 16) & 0xF) as int);
                let value = if b {
                    old(hw).spec_read_at(
                        Width::Byte,
                        addr,
                        (old(hw).scheduler.cycle + 2) as usize,
                    )
                } else {
                    spec_ror32(
                        old(hw).spec_read_at(
                            Width::Word,
                            addr & 0xFFFF_FFFC,
                            (old(hw).scheduler.cycle + 2) as usize,
                        ),
                        (((addr & 3) * 8) as u32),
                    )
                };
                let r1 = old(self).regs@.with_reg(dest, value);
                let r2 = if dest == 15 {
                    RegsV { pc: wrap32((value & 0xFFFF_FFFC) + 4), ..r1 }
                } else {
                    r1
                };
                let r3 = if wb {
                    r2.with_reg(((instr >> 16) & 0xF) as int, oa)
                } else {
                    r2
                };
                !malformed && l ==> final(self).regs@ == r3
            }),
            ({
                let malformed = (i && ((instr >> 4) & 1 != 0 || instr & 0xF == 15)) || (!p && (instr
                    >> 21) & 1 != 0);
                !malformed && l ==> HW::eq_but_cycle(*old(hw), *final(hw))
            }),
            ({
                let malformed = (i && ((instr >> 4) & 1 != 0 || instr & 0xF == 15)) || (!p && (instr
                    >> 21) & 1 != 0);
                let dest = ((instr >> 12) & 0xF) as int;
                !malformed && l ==> final(hw).scheduler.cycle == old(hw).scheduler.cycle + 3 + (
                if dest == 15 {
                    2int
                } else {
                    0int
                })
            }),
            ({
                let malformed = (i && ((instr >> 4) & 1 != 0 || instr & 0xF == 15)) || (!p && (instr
                    >> 21) & 1 != 0);
                let base = old(self).regs@.reg(((instr >> 16) & 0xF) as int);
                let offset = spec_sdt_offset(old(self).regs@, instr, i);
                let oa = if u {
                    wrap32(base + offset)
                } else {
                    wrap32(base - offset)
                };
                let wb = w || !p;
                !malformed && !l ==> final(self).regs@ == (if wb {
                    old(self).regs@.with_reg(((instr >> 16) & 0xF) as int, oa)
                } else {
                    old(self).regs@
                })
            }),
            ({
                let malformed = (i && ((instr >> 4) & 1 != 0 || instr & 0xF == 15)) || (!p && (instr
                    >> 21) & 1 != 0);
                !malformed && !l ==> final(hw).scheduler.cycle == old(hw).scheduler.cycle + 2
            }),
    {
        proof {
            lemma_fields(instr);
        }
        let base_reg = instr >> 16 & 0xF;
        let src_dest_reg = instr >> 12 & 0xF;
        let (addr, offset_applied) = match self.sdt_prepare(hw, instr, i, p, u) {
            Ok(pair) => pair,
            Err(f) => {
                return Err(f);
            },
        };
        let write_back = w || !p;
        proof {
            crate::mem::lemma_ok_span_later(*old(hw), *hw, 0x10, 0x8);
        }
        let ghost m0 = *hw;
        if l {
            self.sdt_load(hw, b, addr, offset_applied, write_back, src_dest_reg, base_reg);
            proof {
                crate::mem::lemma_read_at_frame(
                    *old(hw),
                    m0,
                    Width::Byte,
                    addr,
                    (old(hw).scheduler.cycle + 2) as usize,
                );
                crate::mem::lemma_read_at_frame(
                    *old(hw),
                    m0,
                    Width::Word,
                    addr & 0xFFFF_FFFC,
                    (old(hw).scheduler.cycle + 2) as usize,
                );
                let dest = ((instr >> 12) & 0xF) as int;
                let wb = write_back && !(dest == base_reg as int);
                let value = if b {
                    old(hw).spec_read_at(
                        Width::Byte,
                        addr,
                        (old(hw).scheduler.cycle + 2) as usize,
                    )
                } else {
                    spec_ror32(
                        old(hw).spec_read_at(
                            Width::Word,
                            addr & 0xFFFF_FFFC,
                            (old(hw).scheduler.cycle + 2) as usize,
                        ),
                        (((addr & 3) * 8) as u32),
                    )
                };
                let r1 = old(self).regs@.with_reg(dest, value);
                let r2 = if dest == 15 {
                    RegsV { pc: wrap32((value & 0xFFFF_FFFC) + 4), ..r1 }
                } else {
                    r1
                };
                let r3 = if wb {
                    r2.with_reg(base_reg as int, offset_applied)
                } else {
                    r2
                };
                assert(self.regs@ == r3);
            }
        } else {
            let value = self.regs.get_reg_i(src_dest_reg);
            let value = if src_dest_reg == 15 {
                value.wrapping_add(4)
            } else {
                value
            };
            proof {
                lemma_word_align(addr);
            }
            let ww = if b {
                Width::Byte
            } else {
                Width::Word
            };
            let wa = if b {
                addr
            } else {
                addr & 0xFFFF_FFFC
            };
            self.sdt_store(hw, ww, wa, value, offset_applied, write_back, base_reg);
            proof {
                let dest = ((instr >> 12) & 0xF) as int;
                let stored = if dest == 15 {
                    wrap32(old(self).regs@.reg(15) + 4)
                } else {
                    old(self).regs@.reg(dest)
                };
                let www = if b {
                    Width::Byte
                } else {
                    Width::Word
                };
                let waa = if b {
                    addr
                } else {
                    addr & 0xFFFF_FFFC
                };
                assert(stored == value);
                assert(www == ww && waa == wa);
                assert(crate::mem::spec_timed_write(m0, *hw, www, waa, stored));
                let m1 = choose|m: HW|
                    HW::eq_but_cycle(m0, m) && m.scheduler.cycle == m0.scheduler.cycle + 1 && m.wf()
                        && #[trigger] HW::spec_write_rel(m, *hw, www, waa, stored);
                assert(HW::eq_but_cycle(*old(hw), m1));
                assert(m1.scheduler.cycle == old(hw).scheduler.cycle + 2);
                assert(crate::mem::spec_timed_write_n(*old(hw), *hw, 2, www, waa, stored));
            }
        }
        Ok(())
    }
}


impl ARM7 {
    /// The load half of a single data transfer: reads (rotating a misaligned
    /// word), charges the internal cycle, writes the destination —
    /// suppressing write-back when it is the base — and refills the pipeline
    /// when the destination is the program counter.
    #[verifier::rlimit(100)]
    #[verifier::spinoff_prover]
    pub fn sdt_load(
        &mut self,
        hw: &mut HW,
        b: bool,
        addr: u32,
        offset_applied: u32,
        wb_in: bool,
        src_dest_reg: u32,
        base_reg: u32,
    )
        requires
            old(self).wf(),
            old(hw).wf(),
            old(hw).ok_span(0x8),
            src_dest_reg < 16,
            base_reg < 16,
        ensures
            final(self).wf(),
            final(hw).wf(),
            final(self).arm_lut == old(self).arm_lut,
            HW::eq_but_cycle(*old(hw), *final(hw)),
            ({
                let value = if b {
                    old(hw).spec_read_at(Width::Byte, addr, (old(hw).scheduler.cycle + 1) as usize)
                } else {
                    spec_ror32(
                        old(hw).spec_read_at(
                            Width::Word,
                            addr & 0xFFFF_FFFC,
                            (old(hw).scheduler.cycle + 1) as usize,
                        ),
                        (((addr & 3) * 8) as u32),
                    )
                };
                let wb = wb_in && src_dest_reg != base_reg;
                let r1 = old(self).regs@.with_reg(src_dest_reg as int, value);
                let r2 = if src_dest_reg == 15 {
                    RegsV { pc: wrap32((value & 0xFFFF_FFFC) + 4), ..r1 }
                } else {
                    r1
                };
                let r3 = if wb {
                    r2.with_reg(base_reg as int, offset_applied)
                } else {
                    r2
                };
                &&& final(self).regs@ == r3
                &&& final(hw).scheduler.cycle == old(hw).scheduler.cycle + 2 + (if src_dest_reg
                    == 15 {
                    2int
                } else {
                    0int
                })
            }),
    {
        let mut write_back = wb_in;
        let access_type = if src_dest_reg == 15 {
            AccessType::N
        } else {
            AccessType::S
        };
        proof {
            crate::mem::lemma_ok_at(
                *old(hw),
                *hw,
                0x8,
                Width::Word,
                addr & 0xFFFF_FFFC,
                (hw.scheduler.cycle + 1) as usize,
            );
            crate::mem::lemma_ok_at(
                *old(hw),
                *hw,
                0x8,
                Width::Byte,
                addr,
                (hw.scheduler.cycle + 1) as usize,
            );
            lemma_word_align(addr);
            let av = addr;
            assert((av & 3) * 8 <= 24) by (bit_vector);
        }
        let value = if b {
            self.read(hw, Width::Byte, access_type, addr)
        } else {
            let word = self.read(hw, Width::Word, access_type, addr & 0xFFFF_FFFC);
            crate::alu::ror32(word, (addr & 0x3) * 8)
        };
        self.internal(hw);
        self.regs.set_reg_i(src_dest_reg, value);
        if src_dest_reg == base_reg {
            // The loaded value wins over write-back.
            write_back = false;
        }
        if src_dest_reg == 15 {
            proof {
                crate::mem::lemma_ok_at(
                    *old(hw),
                    *hw,
                    0x8,
                    Width::Word,
                    self.regs@.pc & 0xFFFF_FFFC,
                    (hw.scheduler.cycle + 1) as usize,
                );
                crate::mem::lemma_ok_at(
                    *old(hw),
                    *hw,
                    0x8,
                    Width::Word,
                    crate::alu::wrap32((self.regs@.pc & 0xFFFF_FFFC) + 4),
                    (hw.scheduler.cycle + 2) as usize,
                );
            }
            self.fill_arm_instr_buffer(hw);
        }
        if write_back {
            self.regs.set_reg_i(base_reg, offset_applied);
        }
    }

    /// The store half of a single data transfer: one timed write of the
    /// prepared value, then write-back.
    #[verifier::rlimit(100)]
    #[verifier::spinoff_prover]
    pub fn sdt_store(
        &mut self,
        hw: &mut HW,
        w: Width,
        wa: u32,
        value: u32,
        offset_applied: u32,
        wb_in: bool,
        base_reg: u32,
    )
        requires
            old(self).wf(),
            old(hw).wf(),
            old(hw).ok_span(0x8),
            old(hw).scheduler.cycle + 0x900_0000 <= usize::MAX,
            spec_aligned(wa, w),
            base_reg < 16,
        ensures
            final(self).wf(),
            final(hw).wf(),
            final(self).arm_lut == old(self).arm_lut,
            final(hw).scheduler.cycle == old(hw).scheduler.cycle + 1,
            final(self).regs@ == (if wb_in {
                old(self).regs@.with_reg(base_reg as int, offset_applied)
            } else {
                old(self).regs@
            }),
            crate::mem::spec_timed_write(*old(hw), *final(hw), w, wa, value),
            exists|m: HW|
                HW::eq_but_cycle(*old(hw), m) && m.scheduler.cycle == old(hw).scheduler.cycle + 1
                    && m.wf() && #[trigger] HW::spec_write_rel(m, *final(hw), w, wa, value),
    {
        proof {
            crate::mem::lemma_ok_at(
                *old(hw),
                *hw,
                0x8,
                w,
                wa,
                (hw.scheduler.cycle + 1) as usize,
            );
        }
        self.write(hw, w, AccessType::N, wa, value);
        if wb_in {
            self.regs.set_reg_i(base_reg, offset_applied);
        }
    }
}


/// What a halfword-or-signed load hands back at cycle `c`: a possibly
/// rotated halfword, a sign-extended byte, or a sign-extended halfword that
/// degrades to a sign-extended byte on an odd address.
pub open spec fn spec_hsdt_value(hw: HW, sflag: bool, hflag: bool, addr: u32, c: usize) -> u32 {
    if !sflag && hflag {
        spec_ror32(
            hw.spec_read_at(Width::Half, addr & 0xFFFF_FFFE, c),
            (((addr & 1) * 8) as u32),
        )
    } else if sflag && !hflag {
        (((hw.spec_read_at(Width::Byte, addr, c) as u8) as i8) as u32)
    } else {
        if addr & 1 == 1 {
            (((hw.spec_read_at(Width::Byte, addr, c) as u8) as i8) as u32)
        } else {
            (((hw.spec_read_at(Width::Half, addr, c) as u16) as i16) as u32)
        }
    }
}

impl ARM7 {
    /// Halfword and signed data transfer. The offset is a split immediate or
    /// a register; misaligned halfword loads rotate, signed loads
    /// sign-extend — a signed halfword from an odd address degrades to a
    /// sign-extended byte. Stores exist only in the plain halfword form.
    /// Write-back is suppressed when a load's destination is its base;
    /// loading the program counter refills the pipeline.
    #[verifier::rlimit(100)]
    #[verifier::spinoff_prover]
    pub fn halfword_and_signed_data_transfer(
        &mut self,
        hw: &mut HW,
        instr: u32,
        p: bool,
        u: bool,
        i: bool,
        w: bool,
        l: bool,
        sflag: bool,
        hflag: bool,
    ) -> (r: Result<(), Fault>)
        requires
            old(self).wf(),
            old(hw).wf(),
            old(hw).ok_span(0x10),
            old(hw).scheduler.cycle + 0xA00_0000 <= usize::MAX,
            spec_decode(spec_key_of(instr)) == (InstrKind::HalfwordAndSignedDataTransfer {
                p,
                u,
                i,
                w,
                l,
                s: sflag,
                h: hflag,
            }),
        ensures
            final(self).wf(),
            final(hw).wf(),
            final(self).arm_lut == old(self).arm_lut,
            r is Ok || r == Err::<(), Fault>(Fault::Malformed),
            ({
                let malformed = (!i && (instr >> 8) & 0xF != 0) || (!sflag && !hflag) || (!l && (
                sflag || !hflag));
                malformed <==> r == Err::<(), Fault>(Fault::Malformed)
            }),
            ({
                let malformed = (!i && (instr >> 8) & 0xF != 0) || (!sflag && !hflag) || (!l && (
                sflag || !hflag));
                let base = old(self).regs@.reg(((instr >> 16) & 0xF) as int);
                let offset = if i {
                    ((instr >> 8) & 0xF) << 4 | (instr & 0xF)
                } else {
                    old(self).regs@.reg((instr & 0xF) as int)
                };
                let oa = if u {
                    wrap32(base + offset)
                } else {
                    wrap32(base - offset)
                };
                let addr = if p {
                    oa
                } else {
                    base
                };
                let stored = (old(self).regs@.reg(((instr >> 12) & 0xF) as int) & 0xFFFF) as u32;
                !malformed && !l ==> crate::mem::spec_timed_write_n(
                    *old(hw),
                    *final(hw),
                    2,
                    Width::Half,
                    addr & 0xFFFF_FFFE,
                    stored,
                )
            }),
            ({
                let malformed = (!i && (instr >> 8) & 0xF != 0) || (!sflag && !hflag) || (!l && (
                sflag || !hflag));
                malformed ==> final(self).regs == old(self).regs && HW::eq_but_cycle(
                    *old(hw),
                    *final(hw),
                ) && final(hw).scheduler.cycle == old(hw).scheduler.cycle + 1
            }),
            ({
                let malformed = (!i && (instr >> 8) & 0xF != 0) || (!sflag && !hflag) || (!l && (
                sflag || !hflag));
                let base = old(self).regs@.reg(((instr >> 16) & 0xF) as int);
                let offset = if i {
                    ((instr >> 8) & 0xF) << 4 | (instr & 0xF)
                } else {
                    old(self).regs@.reg((instr & 0xF) as int)
                };
                let oa = if u {
                    wrap32(base + offset)
                } else {
                    wrap32(base - offset)
                };
                let addr = if p {
                    oa
                } else {
                    base
                };
                let dest = ((instr >> 12) & 0xF) as int;
                let wb = (w || !p) && !(dest == ((instr >> 16) & 0xF) as int);
                let value = spec_hsdt_value(
                    *old(hw),
                    sflag,
                    hflag,
                    addr,
                    (old(hw).scheduler.cycle + 2) as usize,
                );
                let r1 = old(self).regs@.with_reg(dest, value);
                let r2 = if dest == 15 {
                    RegsV { pc: wrap32((value & 0xFFFF_FFFC) + 4), ..r1 }
                } else {
                    r1
                };
                let r3 = if wb {
                    r2.with_reg(((instr >> 16) & 0xF) as int, oa)
                } else {
                    r2
                };
                !malformed && l ==> final(self).regs@ == r3
            }),
            ({
                let malformed = (!i && (instr >> 8) & 0xF != 0) || (!sflag && !hflag) || (!l && (
                sflag || !hflag));
                !malformed && l ==> HW::eq_but_cycle(*old(hw), *final(hw))
            }),
            ({
                let malformed = (!i && (instr >> 8) & 0xF != 0) || (!sflag && !hflag) || (!l && (
                sflag || !hflag));
                let dest = ((instr >> 12) & 0xF) as int;
                !malformed && l ==> final(hw).scheduler.cycle == old(hw).scheduler.cycle + 3 + (
                if dest == 15 {
                    2int
                } else {
                    0int
                })
            }),
            ({
                let malformed = (!i && (instr >> 8) & 0xF != 0) || (!sflag && !hflag) || (!l && (
                sflag || !hflag));
                let base = old(self).regs@.reg(((instr >> 16) & 0xF) as int);
                let offset = if i {
                    ((instr >> 8) & 0xF) << 4 | (instr & 0xF)
                } else {
                    old(self).regs@.reg((instr & 0xF) as int)
                };
                let oa = if u {
                    wrap32(base + offset)
                } else {
                    wrap32(base - offset)
                };
                let wb = w || !p;
                !malformed && !l ==> final(self).regs@ == (if wb {
                    old(self).regs@.with_reg(((instr >> 16) & 0xF) as int, oa)
                } else {
                    old(self).regs@
                }) && final(hw).scheduler.cycle == old(hw).scheduler.cycle + 2
            }),
    {
        proof {
            lemma_fields(instr);
            crate::mem::lemma_ok_at(
                *old(hw),
                *hw,
                0x10,
                Width::Word,
                self.regs@.pc & 0xFFFF_FFFC,
                (hw.scheduler.cycle + 1) as usize,
            );
        }
        let base_reg = instr >> 16 & 0xF;
        let base = self.regs.get_reg_i(base_reg);
        let src_dest_reg = instr >> 12 & 0xF;
        self.instruction_prefetch(hw, AccessType::N);

        if !sflag && !hflag {
            // This combination belongs to the swap and multiply patterns; a
            // key reaching here with it is malformed.
            return Err(Fault::Malformed);
        }
        let offset = if i {
            (instr >> 8 & 0xF) << 4u32 | (instr & 0xF)
        } else {
            if instr >> 8 & 0xF != 0 {
                return Err(Fault::Malformed);
            }
            self.regs.get_reg_i(instr & 0xF)
        };
        let offset_applied = if u {
            base.wrapping_add(offset)
        } else {
            base.wrapping_sub(offset)
        };
        let addr = if p {
            offset_applied
        } else {
            base
        };
        let write_back = w || !p;
        proof {
            crate::mem::lemma_ok_span_later(*old(hw), *hw, 0x10, 0x8);
        }
        let ghost m0 = *hw;
        if l {
            self.hsdt_load(hw, sflag, hflag, addr, offset_applied, write_back, src_dest_reg, base_reg);
            proof {
                crate::mem::lemma_read_at_frame(
                    *old(hw),
                    m0,
                    Width::Byte,
                    addr,
                    (old(hw).scheduler.cycle + 2) as usize,
                );
                crate::mem::lemma_read_at_frame(
                    *old(hw),
                    m0,
                    Width::Half,
                    addr & 0xFFFF_FFFE,
                    (old(hw).scheduler.cycle + 2) as usize,
                );
                crate::mem::lemma_read_at_frame(
                    *old(hw),
                    m0,
                    Width::Half,
                    addr,
                    (old(hw).scheduler.cycle + 2) as usize,
                );
            }
        } else {
            if sflag || !hflag {
                return Err(Fault::Malformed);
            }
            let value = self.regs.get_reg_i(src_dest_reg);
            proof {
                lemma_half_align(addr);
            }
            let ghost m0 = *hw;
            self.sdt_store(
                hw,
                Width::Half,
                addr & 0xFFFF_FFFE,
                value & 0xFFFF,
                offset_applied,
                write_back,
                base_reg,
            );
            proof {
                let stored = (old(self).regs@.reg(((instr >> 12) & 0xF) as int) & 0xFFFF) as u32;
                assert(stored == value & 0xFFFF);
                assert(crate::mem::spec_timed_write(m0, *hw, Width::Half, addr & 0xFFFF_FFFE, stored));
                let m1 = choose|m: HW|
                    HW::eq_but_cycle(m0, m) && m.scheduler.cycle == m0.scheduler.cycle + 1 && m.wf()
                        && #[trigger] HW::spec_write_rel(m, *hw, Width::Half, addr & 0xFFFF_FFFE, stored);
                assert(HW::eq_but_cycle(*old(hw), m1));
                assert(m1.scheduler.cycle == old(hw).scheduler.cycle + 2);
                assert(crate::mem::spec_timed_write_n(*old(hw), *hw, 2, Width::Half, addr & 0xFFFF_FFFE, stored));
            }
        }
        Ok(())
    }

    /// The load half of a halfword-or-signed transfer.
    #[verifier::rlimit(100)]
    #[verifier::spinoff_prover]
    fn hsdt_load(
        &mut self,
        hw: &mut HW,
        sflag: bool,
        hflag: bool,
        addr: u32,
        offset_applied: u32,
        wb_in: bool,
        src_dest_reg: u32,
        base_reg: u32,
    )
        requires
            old(self).wf(),
            old(hw).wf(),
            old(hw).ok_span(0x8),
            sflag || hflag,
            src_dest_reg < 16,
            base_reg < 16,
        ensures
            final(self).wf(),
            final(hw).wf(),
            final(self).arm_lut == old(self).arm_lut,
            HW::eq_but_cycle(*old(hw), *final(hw)),
            ({
                let value = spec_hsdt_value(
                    *old(hw),
                    sflag,
                    hflag,
                    addr,
                    (old(hw).scheduler.cycle + 1) as usize,
                );
                let wb = wb_in && src_dest_reg != base_reg;
                let r1 = old(self).regs@.with_reg(src_dest_reg as int, value);
                let r2 = if src_dest_reg == 15 {
                    RegsV { pc: wrap32((value & 0xFFFF_FFFC) + 4), ..r1 }
                } else {
                    r1
                };
                let r3 = if wb {
                    r2.with_reg(base_reg as int, offset_applied)
                } else {
                    r2
                };
                &&& final(self).regs@ == r3
                &&& final(hw).scheduler.cycle == old(hw).scheduler.cycle + 2 + (if src_dest_reg
                    == 15 {
                    2int
                } else {
                    0int
                })
            }),
    {
        let mut write_back = wb_in;
        if src_dest_reg == base_reg {
            // The loaded value wins over write-back.
            write_back = false;
        }
        let access_type = if src_dest_reg == 15 {
            AccessType::N
        } else {
            AccessType::S
        };
        proof {
            crate::mem::lemma_ok_at(
                *old(hw),
                *hw,
                0x8,
                Width::Half,
                addr & 0xFFFF_FFFE,
                (hw.scheduler.cycle + 1) as usize,
            );
            crate::mem::lemma_ok_at(
                *old(hw),
                *hw,
                0x8,
                Width::Byte,
                addr,
                (hw.scheduler.cycle + 1) as usize,
            );
            crate::mem::lemma_ok_at(
                *old(hw),
                *hw,
                0x8,
                Width::Half,
                addr,
                (hw.scheduler.cycle + 1) as usize,
            );
            lemma_half_align(addr);
            let av = addr;
            assert((av & 1) * 8 <= 8) by (bit_vector);
            assert(av & 1 == 1 || av & 1 == 0) by (bit_vector);
            assert(av & 1 == 0 ==> av % 2 == 0) by (bit_vector);
        }
        let value: u32 = if !sflag && hflag {
            let h = self.read(hw, Width::Half, access_type, addr & 0xFFFF_FFFE);
            crate::alu::ror32(h, (addr & 0x1) * 8)
        } else if sflag && !hflag {
            let bv = self.read(hw, Width::Byte, access_type, addr);
            ((#[verifier::truncate] (bv as u8)) as i8) as u32
        } else {
            if addr & 0x1 == 1 {
                let bv = self.read(hw, Width::Byte, access_type, addr);
                ((#[verifier::truncate] (bv as u8)) as i8) as u32
            } else {
                let hv = self.read(hw, Width::Half, access_type, addr);
                ((#[verifier::truncate] (hv as u16)) as i16) as u32
            }
        };
        self.internal(hw);
        self.regs.set_reg_i(src_dest_reg, value);
        if src_dest_reg == 15 {
            proof {
                crate::mem::lemma_ok_at(
                    *old(hw),
                    *hw,
                    0x8,
                    Width::Word,
                    self.regs@.pc & 0xFFFF_FFFC,
                    (hw.scheduler.cycle + 1) as usize,
                );
                crate::mem::lemma_ok_at(
                    *old(hw),
                    *hw,
                    0x8,
                    Width::Word,
                    crate::alu::wrap32((self.regs@.pc & 0xFFFF_FFFC) + 4),
                    (hw.scheduler.cycle + 2) as usize,
                );
            }
            self.fill_arm_instr_buffer(hw);
        }
        if write_back {
            self.regs.set_reg_i(base_reg, offset_applied);
        }
    }

    /// Single data swap: an atomic-style read followed by a write at one
    /// address, byte or word wide — a misaligned word read rotates — with
    /// one non-sequential access, one sequential access, and one internal
    /// cycle charged in that order. The read value lands in the destination
    /// register. An encoding with its reserved fields set — bits 20-21 or
    /// 8-11, which the dispatch key does not cover — is a malformed pattern.
    #[verifier::rlimit(100)]
    #[verifier::spinoff_prover]
    pub fn single_data_swap(&mut self, hw: &mut HW, instr: u32, b: bool) -> (r: Result<(), Fault>)
        requires
            old(self).wf(),
            old(hw).wf(),
            old(hw).ok_span(0x10),
            old(hw).scheduler.cycle + 0xA00_0000 <= usize::MAX,
            spec_decode(spec_key_of(instr)) == (InstrKind::SingleDataSwap { b }),
        ensures
            final(self).wf(),
            final(hw).wf(),
            final(self).arm_lut == old(self).arm_lut,
            ((instr >> 20) & 0x3 != 0 || (instr >> 8) & 0xF != 0) <==> r == Err::<(), Fault>(
                Fault::Malformed,
            ),
            r is Ok || r == Err::<(), Fault>(Fault::Malformed),
            r is Err ==> *final(self) == *old(self) && *final(hw) == *old(hw),
            r is Ok ==> final(hw).scheduler.cycle == old(hw).scheduler.cycle + 4,
            r is Ok ==> ({
                let base = old(self).regs@.reg(((instr >> 16) & 0xF) as int);
                let srcv = old(self).regs@.reg((instr & 0xF) as int);
                let ww = if b {
                    Width::Byte
                } else {
                    Width::Word
                };
                let wa = if b {
                    base
                } else {
                    base & 0xFFFF_FFFC
                };
                crate::mem::spec_timed_write_then(*old(hw), *final(hw), 3, 1, ww, wa, srcv)
            }),
            r is Ok ==> ({
                let base = old(self).regs@.reg(((instr >> 16) & 0xF) as int);
                let value = if b {
                    old(hw).spec_read_at(
                        Width::Byte,
                        base,
                        (old(hw).scheduler.cycle + 2) as usize,
                    )
                } else {
                    spec_ror32(
                        old(hw).spec_read_at(
                            Width::Word,
                            base & 0xFFFF_FFFC,
                            (old(hw).scheduler.cycle + 2) as usize,
                        ),
                        (((base & 3) * 8) as u32),
                    )
                };
                final(self).regs@ == old(self).regs@.with_reg(((instr >> 12) & 0xF) as int, value)
            }),
    {
        if instr >> 20 & 0x3 != 0 || instr >> 8 & 0xF != 0 {
            // Reserved fields the dispatch key does not cover.
            return Err(Fault::Malformed);
        }
        proof {
            lemma_fields(instr);
            crate::mem::lemma_ok_at(
                *old(hw),
                *hw,
                0x10,
                Width::Word,
                self.regs@.pc & 0xFFFF_FFFC,
                (hw.scheduler.cycle + 1) as usize,
            );
        }
        let base = self.regs.get_reg_i(instr >> 16 & 0xF);
        let dest_reg = instr >> 12 & 0xF;
        let src = self.regs.get_reg_i(instr & 0xF);

        self.instruction_prefetch(hw, AccessType::N);
        proof {
            crate::mem::lemma_ok_at(
                *old(hw),
                *hw,
                0x10,
                Width::Byte,
                base,
                (hw.scheduler.cycle + 1) as usize,
            );
            crate::mem::lemma_ok_at(
                *old(hw),
                *hw,
                0x10,
                Width::Word,
                base & 0xFFFF_FFFC,
                (hw.scheduler.cycle + 1) as usize,
            );
            lemma_word_align(base);
            let av = base;
            assert((av & 3) * 8 <= 24) by (bit_vector);
        }
        let ghost pre_write: HW;
        let value = if b {
            let v = self.read(hw, Width::Byte, AccessType::N, base);
            proof {
                pre_write = *hw;
                crate::mem::lemma_ok_at(
                    *old(hw),
                    *hw,
                    0x10,
                    Width::Byte,
                    base,
                    (hw.scheduler.cycle + 1) as usize,
                );
            }
            self.write(hw, Width::Byte, AccessType::S, base, src);
            v
        } else {
            let word = self.read(hw, Width::Word, AccessType::N, base & 0xFFFF_FFFC);
            let v = crate::alu::ror32(word, (base & 0x3) * 8);
            proof {
                pre_write = *hw;
                crate::mem::lemma_ok_at(
                    *old(hw),
                    *hw,
                    0x10,
                    Width::Word,
                    base & 0xFFFF_FFFC,
                    (hw.scheduler.cycle + 1) as usize,
                );
            }
            self.write(hw, Width::Word, AccessType::S, base & 0xFFFF_FFFC, src);
            v
        };
        let ghost post_write = *hw;
        proof {
            let srcv = old(self).regs@.reg((instr & 0xF) as int);
            let ww = if b {
                Width::Byte
            } else {
                Width::Word
            };
            let wa = if b {
                base
            } else {
                base & 0xFFFF_FFFC
            };
            assert(srcv == src);
            let m1 = choose|m: HW|
                HW::eq_but_cycle(pre_write, m) && m.scheduler.cycle == pre_write.scheduler.cycle
                    + 1 && m.wf() && #[trigger] HW::spec_write_rel(m, post_write, ww, wa, srcv);
            assert(HW::eq_but_cycle(*old(hw), m1));
            assert(m1.scheduler.cycle == old(hw).scheduler.cycle + 3);
            assert(crate::mem::spec_timed_write_n(*old(hw), post_write, 3, ww, wa, srcv));
        }
        self.regs.set_reg_i(dest_reg, value);
        self.internal(hw);
        proof {
            let srcv = old(self).regs@.reg((instr & 0xF) as int);
            let ww = if b {
                Width::Byte
            } else {
                Width::Word
            };
            let wa = if b {
                base
            } else {
                base & 0xFFFF_FFFC
            };
            assert(HW::eq_but_cycle(post_write, *hw));
            assert(crate::mem::spec_timed_write_then(*old(hw), *hw, 3, 1, ww, wa, srcv));
        }
        Ok(())
    }
}


/// The register file after the listed loads, walked in ascending register
/// order from bit `k`: each listed register takes the word read at its slot
/// — slots ascend one word per transfer, displaced one word up when
/// pre-indexed — the base register takes the written-back address after
/// every transfer when write-back applies, and a loaded program counter
/// restores the saved status word first when asked, then lands one word
/// past its masked load.
#[verifier::opaque]
pub open spec fn spec_block_loads_from(
    regs: RegsV,
    hw: HW,
    list: u16,
    k: u32,
    slot: int,
    cycle: int,
    pre_off: bool,
    wb: bool,
    base: int,
    fa: u32,
    s_restore: bool,
) -> RegsV
    decreases 16 - k,
{
    if k >= 16 {
        regs
    } else if (list >> k) & 1 != 0 {
        let a = wrap32(slot + (if pre_off {
            4int
        } else {
            0int
        }));
        let v = hw.spec_read_at(Width::Word, a, cycle as usize);
        let r1 = regs.with_reg(k as int, v);
        let r2 = if wb {
            r1.with_reg(base, fa)
        } else {
            r1
        };
        let r3 = if k == 15 {
            let r2b = if s_restore {
                RegsV { cpsr: r2.spsr(), ..r2 }
            } else {
                r2
            };
            RegsV { pc: wrap32((v & 0xFFFF_FFFC) + 4), ..r2b }
        } else {
            r2
        };
        spec_block_loads_from(
            r3,
            hw,
            list,
            ((k + 1) as u32),
            slot + 4,
            cycle + 1,
            pre_off,
            wb,
            base,
            fa,
            s_restore,
        )
    } else {
        spec_block_loads_from(
            regs,
            hw,
            list,
            ((k + 1) as u32),
            slot,
            cycle,
            pre_off,
            wb,
            base,
            fa,
            s_restore,
        )
    }
}


/// One listed load unfolds the fold by a single step: the walked-from
/// register file absorbs the slot's word (and the write-back, restoration
/// and refill where they apply) and the walk continues one bit up.
proof fn lemma_block_loads_step(
    entry_regs: RegsV,
    cur: RegsV,
    hwo: HW,
    list: u16,
    k: u32,
    slot: int,
    cycle: int,
    pre_off: bool,
    wb: bool,
    base: int,
    fa: u32,
    s_restore: bool,
)
    requires
        k < 16,
        (list >> k) & 1 != 0,
        ({
            let a = wrap32(slot + (if pre_off {
                4int
            } else {
                0int
            }));
            let v = hwo.spec_read_at(Width::Word, a, cycle as usize);
            let r1 = entry_regs.with_reg(k as int, v);
            let r2 = if wb {
                r1.with_reg(base, fa)
            } else {
                r1
            };
            let r3 = if k == 15 {
                let r2b = if s_restore {
                    RegsV { cpsr: r2.spsr(), ..r2 }
                } else {
                    r2
                };
                RegsV { pc: wrap32((v & 0xFFFF_FFFC) + 4), ..r2b }
            } else {
                r2
            };
            cur == r3
        }),
    ensures
        spec_block_loads_from(
            entry_regs,
            hwo,
            list,
            k,
            slot,
            cycle,
            pre_off,
            wb,
            base,
            fa,
            s_restore,
        ) == spec_block_loads_from(
            cur,
            hwo,
            list,
            ((k + 1) as u32),
            slot + 4,
            cycle + 1,
            pre_off,
            wb,
            base,
            fa,
            s_restore,
        ),
{
    reveal(spec_block_loads_from);
}

/// A skipped bit leaves the fold where it stands.
proof fn lemma_block_loads_skip(
    regs: RegsV,
    hwo: HW,
    list: u16,
    k: u32,
    slot: int,
    cycle: int,
    pre_off: bool,
    wb: bool,
    base: int,
    fa: u32,
    s_restore: bool,
)
    requires
        k < 16,
        (list >> k) & 1 == 0,
    ensures
        spec_block_loads_from(regs, hwo, list, k, slot, cycle, pre_off, wb, base, fa, s_restore)
            == spec_block_loads_from(
            regs,
            hwo,
            list,
            ((k + 1) as u32),
            slot,
            cycle,
            pre_off,
            wb,
            base,
            fa,
            s_restore,
        ),
{
    reveal(spec_block_loads_from);
}

/// The address-value pairs a listed store puts on the bus, in ascending
/// register order from bit `k`: the program counter stores its value plus
/// four, and once write-back applies, later registers store through the
/// written-back base.
#[verifier::opaque]
pub open spec fn spec_block_stores_from(
    regs: RegsV,
    list: u16,
    k: u32,
    slot: int,
    pre_off: bool,
    wb: bool,
    base: int,
    fa: u32,
) -> Seq<(u32, u32)>
    decreases 16 - k,
{
    if k >= 16 {
        Seq::empty()
    } else if (list >> k) & 1 != 0 {
        let a = wrap32(slot + (if pre_off {
            4int
        } else {
            0int
        }));
        let v = if k == 15 {
            wrap32(regs.reg(15) + 4)
        } else {
            regs.reg(k as int)
        };
        let regs2 = if wb {
            regs.with_reg(base, fa)
        } else {
            regs
        };
        seq![(a, v)] + spec_block_stores_from(
            regs2,
            list,
            (k + 1) as u32,
            slot + 4,
            pre_off,
            wb,
            base,
            fa,
        )
    } else {
        spec_block_stores_from(regs, list, (k + 1) as u32, slot, pre_off, wb, base, fa)
    }
}

impl ARM7 {
    /// Block data transfer. The register list transfers in ascending
    /// register order whatever the direction bit says — direction only moves
    /// the computed base — and write-back is suppressed when a load lists
    /// the base register itself. The force-user bit banks the transfer
    /// through the user registers unless the program counter is being
    /// loaded, in which case the saved status word is restored after that
    /// load — faulting on a reserved mode encoding. An empty register list
    /// performs exactly one transfer at the base displaced by 0x40 in the
    /// transfer direction and adjusts the base by the same amount. A base
    /// register naming the program counter is a malformed pattern.
    #[verifier::rlimit(100)]
    #[verifier::spinoff_prover]
    pub fn block_data_transfer(
        &mut self,
        hw: &mut HW,
        instr: u32,
        p: bool,
        u: bool,
        s: bool,
        w: bool,
        l: bool,
    ) -> (r: Result<(), Fault>)
        requires
            old(self).wf(),
            old(hw).wf(),
            old(hw).ok_span(0x80),
            old(hw).scheduler.cycle + 0xA00_0000 <= usize::MAX,
        ensures
            final(self).wf(),
            final(hw).wf(),
            final(self).arm_lut == old(self).arm_lut,
            r is Ok || r == Err::<(), Fault>(Fault::Malformed) || r == Err::<(), Fault>(
                Fault::InvalidMode,
            ),
            ((instr >> 16) & 0xF == 15 <==> r == Err::<(), Fault>(Fault::Malformed)),
            (instr >> 16) & 0xF == 15 ==> final(self).regs == old(self).regs && *final(hw) == *old(hw),
            r == Err::<(), Fault>(Fault::InvalidMode) ==> l && s,
            l && (instr >> 16) & 0xF != 15 ==> HW::eq_but_cycle(*old(hw), *final(hw)),
            ({
                // The defined empty-list store: one word — the program
                // counter's value plus four — at the base displaced by 0x40
                // in the transfer direction, and the base moved the same way.
                let base_reg = ((instr >> 16) & 0xF) as int;
                let base = old(self).regs@.reg(base_reg);
                let aligned = (base - (base & 3)) as u32;
                let taddr = if u {
                    wrap32(aligned + 0x40)
                } else {
                    wrap32(aligned - 0x40)
                };
                let moved = if u {
                    wrap32(base + 0x40)
                } else {
                    wrap32(base - 0x40)
                };
                instr & 0xFFFF == 0 && base_reg != 15 && !l && !s ==> r is Ok && final(self).regs@ == (if w {
                    old(self).regs@.with_reg(base_reg, moved)
                } else {
                    old(self).regs@
                }) && final(hw).scheduler.cycle == old(hw).scheduler.cycle + 2
                    && crate::mem::spec_timed_write_n(
                    *old(hw),
                    *final(hw),
                    2,
                    Width::Word,
                    taddr,
                    wrap32(old(self).regs@.reg(15) + 4),
                )
            }),
            instr & 0xFFFF == 0 && (instr >> 16) & 0xF != 15 && l && !s ==> r is Ok && final(hw).scheduler.cycle == old(hw).scheduler.cycle + 5,
            ({
                // The defined empty-list load: register 15 takes the word at
                // the displaced base, the pipeline refills, and the base
                // moves by exactly 0x40.
                let base_reg = ((instr >> 16) & 0xF) as int;
                let base = old(self).regs@.reg(base_reg);
                let aligned = (base - (base & 3)) as u32;
                let taddr = if u {
                    wrap32(aligned + 0x40)
                } else {
                    wrap32(aligned - 0x40)
                };
                let moved = if u {
                    wrap32(base + 0x40)
                } else {
                    wrap32(base - 0x40)
                };
                let value = spec_ror32(
                    old(hw).spec_read_at(
                        Width::Word,
                        taddr & 0xFFFF_FFFC,
                        (old(hw).scheduler.cycle + 2) as usize,
                    ),
                    (((taddr & 3) * 8) as u32),
                );
                let r1 = old(self).regs@.with_reg(15, value);
                let r2 = if w {
                    r1.with_reg(base_reg, moved)
                } else {
                    r1
                };
                instr & 0xFFFF == 0 && base_reg != 15 && l && !s ==> final(self).regs@
                    == (RegsV { pc: wrap32((value & 0xFFFF_FFFC) + 4), ..r2 })
            }),
            ({
                // A non-empty load: the register file is the ascending-order
                // fold of the listed loads — banked through the user
                // registers when the force-user bit applies — with the
                // pre-instruction mode field back in place at the end.
                let base_reg = ((instr >> 16) & 0xF) as int;
                let list = (instr & 0xFFFF) as u16;
                let base = old(self).regs@.reg(base_reg);
                let aligned = base - (base & 3);
                let n = spec_ones16(list);
                let bit15 = (list >> 15) & 1 != 0;
                let init = if s && !bit15 {
                    old(self).regs@.with_mode(Mode::USR)
                } else {
                    old(self).regs@
                };
                let wb = w && !((list >> (((instr >> 16) & 0xF) as u32)) & 1 != 0);
                let slot0 = if u {
                    aligned
                } else {
                    aligned - 4 * n
                };
                let fa = if u {
                    wrap32(aligned + 4 * n + (base & 3))
                } else {
                    wrap32(aligned - 4 * n + (base & 3))
                };
                let pre_off = p != !u;
                let restore_bad = s && bit15 && (spec_mode_from_bits(old(self).regs@.spsr() & 0x1F)
                    is None);
                l && list != 0 && base_reg != 15 && !restore_bad ==> r is Ok && final(self).regs@
                    == spec_block_loads_from(
                    init,
                    *old(hw),
                    list,
                    0,
                    slot0,
                    old(hw).scheduler.cycle + 2,
                    pre_off,
                    wb,
                    base_reg,
                    fa,
                    s && bit15,
                ).with_mode(old(self).regs@.mode()) && final(hw).scheduler.cycle == old(hw).scheduler.cycle + 2 + n + (if bit15 {
                    2int
                } else {
                    0int
                })
            }),
            ({
                // A non-empty store: the listed registers' words — read
                // through the user bank when forced, the base showing its
                // written-back value once write-back has applied — land as
                // timed word writes in ascending register order at
                // consecutive slots, one charged cycle after the prefetch.
                let base_reg = ((instr >> 16) & 0xF) as int;
                let list = (instr & 0xFFFF) as u16;
                let base = old(self).regs@.reg(base_reg);
                let aligned = base - (base & 3);
                let n = spec_ones16(list);
                let init = if s {
                    old(self).regs@.with_mode(Mode::USR)
                } else {
                    old(self).regs@
                };
                let slot0 = if u {
                    aligned
                } else {
                    aligned - 4 * n
                };
                let fa = if u {
                    wrap32(aligned + 4 * n + (base & 3))
                } else {
                    wrap32(aligned - 4 * n + (base & 3))
                };
                let pre_off = p != !u;
                !l && list != 0 && base_reg != 15 ==> r is Ok && final(self).regs@ == (if w {
                    init.with_reg(base_reg, fa)
                } else {
                    init
                }).with_mode(old(self).regs@.mode()) && final(hw).scheduler.cycle == old(hw).scheduler.cycle + 1 + n && crate::mem::spec_timed_writes_after(
                    *old(hw),
                    *final(hw),
                    1,
                    spec_block_stores_from(init, list, 0, slot0, pre_off, w, base_reg, fa),
                )
            }),
    {
        proof {
            lemma_fields(instr);
            crate::mem::lemma_ok_at(
                *old(hw),
                *hw,
                0x80,
                Width::Word,
                self.regs@.pc & 0xFFFF_FFFC,
                (hw.scheduler.cycle + 1) as usize,
            );
        }
        let base_reg = instr >> 16 & 0xF;
        if base_reg == 15 {
            return Err(Fault::Malformed);
        }
        let pre_offset = p != !u;
        let base_full = self.regs.get_reg_i(base_reg);
        proof {
            let bf = base_full;
            assert(bf & 3 <= bf) by (bit_vector);
            assert((bf - (bf & 3)) % 4 == 0) by (bit_vector);
        }
        let base_offset = base_full & 0x3;
        let base = base_full - base_offset;
        let r_list = (instr & 0xFFFF) as u16;
        let write_back = w && !(l && r_list & (1u16 << base_reg) != 0);
        proof {
            let rl = r_list;
            let br = base_reg;
            assert(br < 16 ==> (rl & (1u16 << br) != 0 <==> (rl >> br) & 1 != 0)) by (bit_vector);
        }
        let actual_mode = self.regs.get_mode();
        if s && !(l && r_list & 0x8000 != 0) {
            self.regs.set_mode(Mode::USR);
        }
        proof {
            let rl = r_list;
            assert(rl & 0x8000 != 0 <==> (rl >> 15) & 1 != 0) by (bit_vector);
        }
        self.instruction_prefetch(hw, AccessType::N);
        let num_regs = ones16(r_list);
        let start_addr = if u {
            base
        } else {
            base.wrapping_sub((num_regs as u32) * 4)
        };
        let final_addr = if num_regs == 0 {
            if u {
                base_full.wrapping_add(0x40)
            } else {
                base_full.wrapping_sub(0x40)
            }
        } else {
            let fa = if u {
                start_addr.wrapping_add(4 * (num_regs as u32))
            } else {
                start_addr
            };
            fa.wrapping_add(base_offset)
        };
        if num_regs == 0 {
            // The defined empty-list special case: exactly one transfer at
            // the displaced base.
            let taddr = if u {
                base.wrapping_add(0x40)
            } else {
                base.wrapping_sub(0x40)
            };
            proof {
                crate::mem::lemma_ok_span_later(*old(hw), *hw, 0x80, 0x8);
                let rl = r_list;
                let br = base_reg;
                assert(rl == 0 && br < 16 ==> rl & (1u16 << br) == 0) by (bit_vector);
                lemma_wrap32_id(base);
                lemma_wadd_k(base as int, 0x40);
                lemma_wsub_k(base as int, 0x40);
                lemma_wrap32_id(base_full);
                lemma_wadd_k(base_full as int, 0x40);
                lemma_wsub_k(base_full as int, 0x40);
                lemma_wrap32_align(base as int + 0x40);
                lemma_wrap32_align(base as int - 0x40);
            }
            let ghost m0 = *hw;
            if l {
                self.sdt_load(hw, false, taddr, final_addr, write_back, 15, base_reg);
                proof {
                    crate::mem::lemma_read_at_frame(
                        *old(hw),
                        m0,
                        Width::Word,
                        taddr & 0xFFFF_FFFC,
                        (old(hw).scheduler.cycle + 2) as usize,
                    );
                    crate::mem::lemma_read_at_frame(
                        *old(hw),
                        m0,
                        Width::Byte,
                        taddr,
                        (old(hw).scheduler.cycle + 2) as usize,
                    );
                }
            } else {
                let value = self.regs.get_reg_i(15).wrapping_add(4);
                self.sdt_store(hw, Width::Word, taddr, value, final_addr, write_back, base_reg);
                proof {
                    let stored = wrap32(old(self).regs@.reg(15) + 4);
                    assert(stored == value);
                    assert(crate::mem::spec_timed_write(m0, *hw, Width::Word, taddr, stored));
                    let m1 = choose|m: HW|
                        HW::eq_but_cycle(m0, m) && m.scheduler.cycle == m0.scheduler.cycle + 1
                            && m.wf() && #[trigger] HW::spec_write_rel(
                            m,
                            *hw,
                            Width::Word,
                            taddr,
                            stored,
                        );
                    assert(HW::eq_but_cycle(*old(hw), m1));
                    assert(m1.scheduler.cycle == old(hw).scheduler.cycle + 2);
                    assert(crate::mem::spec_timed_write_n(
                        *old(hw),
                        *hw,
                        2,
                        Width::Word,
                        taddr,
                        stored,
                    ));
                }
            }
            let ghost before_mode = self.regs@;
            self.regs.set_mode(actual_mode);
            proof {
                if !s {
                    lemma_mode_roundtrip(before_mode.cpsr);
                    assert(self.regs@ =~= before_mode);
                }
                if !s && !l {
                    assert(self.regs@ =~= (if write_back {
                        old(self).regs@.with_reg(base_reg as int, final_addr)
                    } else {
                        old(self).regs@
                    }));
                }

            }
            return Ok(());
        }
        let ghost hw1 = *hw;
        let ghost slot0: int = if u {
            base as int
        } else {
            base as int - 4 * (num_regs as int)
        };
        proof {
            crate::mem::lemma_ok_span_later(*old(hw), *hw, 0x80, 0x7C);
            lemma_wrap32_id(base);
            lemma_wsub_k(base as int, (((num_regs as u32) * 4) as u32));
            assert(start_addr == wrap32(slot0));
            assert(slot0 % 4 == 0);
            lemma_wadd_k(slot0, (((num_regs as u32) * 4) as u32));
            lemma_wadd_k(slot0 + 4 * (num_regs as int), base_offset);
            lemma_wadd_k(slot0, base_offset);
            assert(final_addr == (if u {
                wrap32((base_full - (base_full & 3)) + 4 * (num_regs as int) + (base_full & 3))
            } else {
                wrap32((base_full - (base_full & 3)) - 4 * (num_regs as int) + (base_full & 3))
            }));
        }
        if l {
            let r2 = self.block_body_loads(
                hw,
                r_list,
                pre_offset,
                write_back,
                s,
                base_reg,
                start_addr,
                final_addr,
                num_regs,
                Ghost(slot0),
            );
            if let Err(f) = r2 {
                return Err(f);
            }
        } else {
            self.block_body_stores(
                hw,
                r_list,
                pre_offset,
                write_back,
                base_reg,
                start_addr,
                final_addr,
                num_regs,
                Ghost(slot0),
            );
        }
        let ghost before_mode = self.regs@;
        self.regs.set_mode(actual_mode);
        proof {
            if !s {
                lemma_mode_roundtrip(before_mode.cpsr);
                assert(self.regs@ =~= before_mode);
            }
            assert(self.regs@ =~= before_mode.with_mode(old(self).regs@.mode()));
            let listg = (instr & 0xFFFF) as u16;
            let initg = if s && !(l && (listg >> 15) & 1 != 0) {
                old(self).regs@.with_mode(Mode::USR)
            } else {
                old(self).regs@
            };
            if l {
                lemma_block_loads_frame(
                    initg,
                    hw1,
                    *old(hw),
                    listg,
                    0,
                    slot0,
                    old(hw).scheduler.cycle + 2,
                    pre_offset,
                    write_back,
                    base_reg as int,
                    final_addr,
                    s && (listg >> 15) & 1 != 0,
                );
            } else {
                let pairs = spec_block_stores_from(
                    initg,
                    listg,
                    0,
                    slot0,
                    pre_offset,
                    write_back,
                    base_reg as int,
                    final_addr,
                );
                assert(crate::mem::spec_timed_writes(hw1, *hw, pairs));
                assert(crate::mem::spec_timed_writes_after(*old(hw), *hw, 1, pairs));
            }
        }
        Ok(())
    }

    /// The ascending walk of a non-empty register list of loads: one timed
    /// word read per listed register, write-back after each transfer, the
    /// internal cycle after the last, and — for a loaded program counter —
    /// the status restoration and the refill.
    #[verifier::rlimit(100)]
    #[verifier::spinoff_prover]
    fn block_body_loads(
        &mut self,
        hw: &mut HW,
        r_list: u16,
        pre_offset: bool,
        write_back: bool,
        s: bool,
        base_reg: u32,
        start_addr: u32,
        final_addr: u32,
        num_regs: u32,
        slot0g: Ghost<int>,
    ) -> (r: Result<(), Fault>)
        requires
            old(self).wf(),
            old(hw).wf(),
            old(hw).ok_span(0x7C),
            old(hw).scheduler.cycle + 0x900_0000 <= usize::MAX,
            base_reg < 15,
            r_list != 0,
            num_regs == spec_ones16(r_list),
            0 < num_regs <= 16,
            start_addr == wrap32(slot0g@),
            slot0g@ % 4 == 0,
        ensures
            final(self).wf(),
            final(hw).wf(),
            final(self).arm_lut == old(self).arm_lut,
            r is Ok || r == Err::<(), Fault>(Fault::InvalidMode),
            r == Err::<(), Fault>(Fault::InvalidMode) ==> s,
            HW::eq_but_cycle(*old(hw), *final(hw)),
            !(s && (r_list >> 15) & 1 != 0 && (spec_mode_from_bits(old(self).regs@.spsr() & 0x1F)
                is None)) ==> r is Ok && final(self).regs@ == spec_block_loads_from(
                old(self).regs@,
                *old(hw),
                r_list,
                0,
                slot0g@,
                old(hw).scheduler.cycle + 1,
                pre_offset,
                write_back,
                base_reg as int,
                final_addr,
                s && (r_list >> 15) & 1 != 0,
            ) && final(hw).scheduler.cycle == old(hw).scheduler.cycle + num_regs + 1 + (if (r_list
                >> 15) & 1 != 0 {
                2int
            } else {
                0int
            }),
            !(s && (r_list >> 15) & 1 != 0) ==> final(self).regs@.cpsr == old(self).regs@.cpsr,
    {
        let ghost slot0 = slot0g@;
        let ghost init_regs = self.regs@;
        let ghost listg = r_list;
        let ghost wbg = write_back;
        let ghost fag = final_addr;
        let ghost pre_offg = pre_offset;
        let mut reg: u32 = 0;
        let mut remaining = r_list;
        let mut done: u32 = 0;
        let mut addr = start_addr;
        let mut jj_t = Ghost(0int);
        proof {
            reveal(spec_block_loads_from);
            assert(addr == wrap32(slot0 + 4 * jj_t@));
            let xx = r_list;
            assert(xx >> 0u32 == xx) by (bit_vector);
        }
        while reg < 16
            invariant
                self.wf(),
                hw.wf(),
                old(hw).wf(),
                self.arm_lut == old(self).arm_lut,
                done <= 16,
                num_regs == spec_ones16(listg),
                num_regs <= 16,
                done + spec_ones_from(listg, reg) == num_regs,
                remaining == listg >> reg,
                hw.scheduler.cycle == old(hw).scheduler.cycle + done + spec_load_extra_cycles(
                    listg,
                    remaining,
                ),
                old(hw).scheduler.cycle <= hw.scheduler.cycle,
                old(hw).scheduler.cycle + 0x900_0000 <= usize::MAX,
                old(hw).ok_span(0x7C),
                HW::eq_but_cycle(*old(hw), *hw),
                base_reg < 15,
                listg == r_list,
                listg != 0,
                reg <= 16,
                jj_t@ == done,
                addr == wrap32(slot0 + 4 * jj_t@),
                slot0 % 4 == 0,
                init_regs == old(self).regs@,
                self.regs@.cpsr == init_regs.cpsr || (s && (listg >> 15) & 1 != 0 && reg > 15),
                spec_block_loads_from(
                    init_regs,
                    *old(hw),
                    listg,
                    0,
                    slot0,
                    old(hw).scheduler.cycle + 1,
                    pre_offg,
                    wbg,
                    base_reg as int,
                    fag,
                    s && (listg >> 15) & 1 != 0,
                ) == spec_block_loads_from(
                    self.regs@,
                    *old(hw),
                    listg,
                    reg,
                    slot0 + 4 * jj_t@,
                    old(hw).scheduler.cycle + 1 + done,
                    pre_offg,
                    wbg,
                    base_reg as int,
                    fag,
                    s && (listg >> 15) & 1 != 0,
                ),
                self.regs@.spsr_fiq == init_regs.spsr_fiq,
                self.regs@.spsr_svc == init_regs.spsr_svc,
                self.regs@.spsr_abt == init_regs.spsr_abt,
                self.regs@.spsr_irq == init_regs.spsr_irq,
                self.regs@.spsr_und == init_regs.spsr_und,
                pre_offg == pre_offset,
                wbg == write_back,
                fag == final_addr,
            decreases 16 - reg,
        {
            proof {
                let rl = listg;
                let kk = reg;
                assert(kk < 16 && remaining == rl >> kk ==> remaining >> 1u16 == rl >> ((kk
                    + 1) as u32)) by (bit_vector)
                    requires
                        remaining == rl >> kk,
                        kk < 16,
                ;
                assert((remaining & 1 != 0) == ((rl >> kk) & 1 != 0));
                assert(kk < 15 && rl >> kk == 1 ==> (rl >> 15) & 1 == 0) by (bit_vector);
                assert(rl >> 15 <= 1) by (bit_vector);
                assert(kk == 15 ==> ((rl >> 15) & 1 != 0 <==> rl >> 15 == 1)) by (bit_vector);
                assert(rl >> 16u32 == 0) by (bit_vector);
                assert(remaining & 1 != 0 ==> remaining != 0) by (bit_vector);
                assert((remaining == 1 ==> remaining >> 1u16 == 0) && (remaining == 0
                    ==> remaining >> 1u16 == 0)) by (bit_vector);
                assert((remaining != 0 && remaining & 1 == 0 ==> remaining >> 1u16 != 0) && (
                remaining & 1 != 0 && remaining != 1 ==> remaining >> 1u16 != 0)) by (bit_vector);
                lemma_ones_from_nonneg(listg, (reg + 1) as u32);
            }
            if remaining & 1 != 0 {
                let ghost entry_regs = self.regs@;
                let ghost cyc_entry: int = old(hw).scheduler.cycle + 1 + done;
                let a = if pre_offset {
                    proof {
                        lemma_wadd4(slot0 + 4 * jj_t@);
                    }
                    addr.wrapping_add(4)
                } else {
                    addr
                };
                proof {
                    lemma_wadd4(slot0 + 4 * jj_t@);
                }
                addr = addr.wrapping_add(4);
                let last = remaining == 1;
                proof {
                    crate::mem::lemma_ok_at(
                        *old(hw),
                        *hw,
                        0x7C,
                        Width::Word,
                        a,
                        (hw.scheduler.cycle + 1) as usize,
                    );
                }
                let ghost pre_read = *hw;
                let value = self.read(hw, Width::Word, AccessType::S, a);
                proof {
                    crate::mem::lemma_read_at_frame(
                        *old(hw),
                        pre_read,
                        Width::Word,
                        a,
                        cyc_entry as usize,
                    );
                }
                self.regs.set_reg_i(reg, value);
                if write_back {
                    self.regs.set_reg_i(base_reg, final_addr);
                }
                if last {
                    self.internal(hw);
                }
                if reg == 15 {
                    if s {
                        // Status restoration happens after the load of the
                        // program counter completes.
                        let spsr = self.regs.get_reg(Reg::SPSR);
                        match crate::regs::mode_from_bits(spsr & 0x1F) {
                            Some(_) => self.regs.set_reg(Reg::CPSR, spsr),
                            None => {
                                return Err(Fault::InvalidMode);
                            },
                        }
                    }
                    self.next_access_type = AccessType::N;
                    proof {
                        crate::mem::lemma_ok_at(
                            *old(hw),
                            *hw,
                            0x7C,
                            Width::Word,
                            self.regs@.pc & 0xFFFF_FFFC,
                            (hw.scheduler.cycle + 1) as usize,
                        );
                        crate::mem::lemma_ok_at(
                            *old(hw),
                            *hw,
                            0x7C,
                            Width::Word,
                            crate::alu::wrap32((self.regs@.pc & 0xFFFF_FFFC) + 4),
                            (hw.scheduler.cycle + 2) as usize,
                        );
                    }
                    self.fill_arm_instr_buffer(hw);
                }
                done = done + 1;
                jj_t = Ghost(jj_t@ + 1);
                proof {
                    let s_res = s && (listg >> 15) & 1 != 0;
                    let slot_e = slot0 + 4 * (jj_t@ - 1);
                    let a_spec = wrap32(slot_e + (if pre_offg {
                        4int
                    } else {
                        0int
                    }));
                    let v_spec = old(hw).spec_read_at(Width::Word, a_spec, cyc_entry as usize);
                    let r1 = entry_regs.with_reg(reg as int, v_spec);
                    let r2 = if wbg {
                        r1.with_reg(base_reg as int, fag)
                    } else {
                        r1
                    };
                    let r3 = if reg == 15 {
                        let r2b = if s_res {
                            RegsV { cpsr: r2.spsr(), ..r2 }
                        } else {
                            r2
                        };
                        RegsV { pc: wrap32((v_spec & 0xFFFF_FFFC) + 4), ..r2b }
                    } else {
                        r2
                    };
                    assert(a_spec == a);
                    assert(v_spec == value);
                    assert(r3 =~= self.regs@);
                    lemma_block_loads_step(
                        entry_regs,
                        self.regs@,
                        *old(hw),
                        listg,
                        reg,
                        slot_e,
                        cyc_entry,
                        pre_offg,
                        wbg,
                        base_reg as int,
                        fag,
                        s_res,
                    );
                    if last {
                        assert(remaining >> 1u16 == 0);
                        if reg == 15 {
                            assert((listg >> 15) & 1 != 0);
                            assert(hw.scheduler.cycle == old(hw).scheduler.cycle + done
                                + spec_load_extra_cycles(listg, remaining >> 1u16));
                        } else {
                            assert((listg >> 15) & 1 == 0);
                            assert(hw.scheduler.cycle == old(hw).scheduler.cycle + done
                                + spec_load_extra_cycles(listg, remaining >> 1u16));
                        }
                    } else {
                        assert(remaining >> 1u16 != 0);
                        assert(hw.scheduler.cycle == old(hw).scheduler.cycle + done
                            + spec_load_extra_cycles(listg, remaining >> 1u16));
                    }
                }
            } else {
                proof {
                    lemma_block_loads_skip(
                        self.regs@,
                        *old(hw),
                        listg,
                        reg,
                        slot0 + 4 * jj_t@,
                        old(hw).scheduler.cycle + 1 + done,
                        pre_offg,
                        wbg,
                        base_reg as int,
                        fag,
                        s && (listg >> 15) & 1 != 0,
                    );
                }
            }
            remaining = remaining >> 1u16;
            reg = reg + 1;
        }
        proof {
            reveal(spec_block_loads_from);
            let xx = listg;
            assert(xx >> 16u32 == 0) by (bit_vector);
        }
        Ok(())
    }

    /// The ascending walk of a non-empty register list of stores: one timed
    /// word write per listed register, write-back after each transfer.
    #[verifier::rlimit(100)]
    #[verifier::spinoff_prover]
    fn block_body_stores(
        &mut self,
        hw: &mut HW,
        r_list: u16,
        pre_offset: bool,
        write_back: bool,
        base_reg: u32,
        start_addr: u32,
        final_addr: u32,
        num_regs: u32,
        slot0g: Ghost<int>,
    )
        requires
            old(self).wf(),
            old(hw).wf(),
            old(hw).ok_span(0x7C),
            old(hw).scheduler.cycle + 0x900_0000 <= usize::MAX,
            base_reg < 15,
            r_list != 0,
            num_regs == spec_ones16(r_list),
            0 < num_regs <= 16,
            start_addr == wrap32(slot0g@),
            slot0g@ % 4 == 0,
        ensures
            final(self).wf(),
            final(hw).wf(),
            final(self).arm_lut == old(self).arm_lut,
            final(self).regs@ == (if write_back {
                old(self).regs@.with_reg(base_reg as int, final_addr)
            } else {
                old(self).regs@
            }),
            final(hw).scheduler.cycle == old(hw).scheduler.cycle + num_regs,
            final(self).regs@.cpsr == old(self).regs@.cpsr,
            crate::mem::spec_timed_writes(
                *old(hw),
                *final(hw),
                spec_block_stores_from(
                    old(self).regs@,
                    r_list,
                    0,
                    slot0g@,
                    pre_offset,
                    write_back,
                    base_reg as int,
                    final_addr,
                ),
            ),
    {
        let ghost hw1 = *old(hw);
        let ghost slot0 = slot0g@;
        let ghost init_regs = self.regs@;
        let ghost listg = r_list;
        let ghost wbg = write_back;
        let ghost fag = final_addr;
        let ghost pre_offg = pre_offset;
        let mut reg: u32 = 0;
        let mut remaining = r_list;
        let mut done: u32 = 0;
        let mut addr = start_addr;
        let mut jj_t = Ghost(0int);
        let ghost hits: Map<int, int> = Map::empty();
        let mut hits_t = Ghost(hits);
        let ghost ws: Seq<(u32, u32)> = Seq::empty();
        let mut ws_t = Ghost(ws);
        let ghost ms: Seq<HW> = seq![*old(hw)];
        let mut ms_t = Ghost(ms);
        proof {
            reveal(spec_block_stores_from);
            assert(addr == wrap32(slot0 + 4 * jj_t@));
            let xx = r_list;
            assert(xx >> 0u32 == xx) by (bit_vector);
        }
        while reg < 16
            invariant
                self.wf(),
                hw.wf(),
                old(hw).wf(),
                old(self).wf(),
                self.arm_lut == old(self).arm_lut,
                done <= 16,
                num_regs == spec_ones16(listg),
                num_regs <= 16,
                done + spec_ones_from(listg, reg) == num_regs,
                remaining == listg >> reg,
                old(hw).scheduler.cycle <= hw.scheduler.cycle,
                old(hw).scheduler.cycle + 0x900_0000 <= usize::MAX,
                old(hw).ok_span(0x7C),
                old(hw).cp15 == hw.cp15,
                base_reg < 15,
                listg == r_list,
                listg != 0,
                reg <= 16,
                jj_t@ == done,
                addr == wrap32(slot0 + 4 * jj_t@),
                slot0 % 4 == 0,
                init_regs == old(self).regs@,
                hw.timers9.timers@.len() == 4,
                forall|j: int|
                    0 <= j < 4 && !hits_t@.dom().contains(j) ==> hw.timers9.timers@[j] == old(
                        hw,
                    ).timers9.timers@[j],
                forall|j: int|
                    hits_t@.dom().contains(j) ==> 0 <= #[trigger] hits_t@[j] < jj_t@ && ((
                    0x0400_0100 + 4 * j) as u32) == wrap32(slot0 + 4 * hits_t@[j] + (if pre_offg {
                        4int
                    } else {
                        0int
                    })),
                ws_t@.len() == done,
                ms_t@.len() == ws_t@.len() + 1,
                ms_t@[0] == hw1,
                ms_t@[ws_t@.len() as int] == *hw,
                hw1 == *old(hw),
                forall|i: int|
                    0 <= i < ws_t@.len() ==> crate::mem::spec_timed_write(
                        #[trigger] ms_t@[i],
                        ms_t@[i + 1],
                        Width::Word,
                        ws_t@[i].0,
                        ws_t@[i].1,
                    ),
                spec_block_stores_from(
                    init_regs,
                    listg,
                    0,
                    slot0,
                    pre_offg,
                    wbg,
                    base_reg as int,
                    fag,
                ) == ws_t@ + spec_block_stores_from(
                    self.regs@,
                    listg,
                    reg,
                    slot0 + 4 * jj_t@,
                    pre_offg,
                    wbg,
                    base_reg as int,
                    fag,
                ),
                hw.scheduler.cycle == old(hw).scheduler.cycle + done,
                self.regs@ == (if wbg && done > 0 {
                    init_regs.with_reg(base_reg as int, fag)
                } else {
                    init_regs
                }),
                pre_offg == pre_offset,
                wbg == write_back,
                fag == final_addr,
            decreases 16 - reg,
        {
            proof {
                lemma_list_bits(listg, reg, remaining);
                assert((remaining & 1 != 0) == ((listg >> reg) & 1 != 0));
                lemma_ones_from_nonneg(listg, (reg + 1) as u32);
            }
            if remaining & 1 != 0 {
                let a = if pre_offset {
                    proof {
                        lemma_wadd4(slot0 + 4 * jj_t@);
                    }
                    addr.wrapping_add(4)
                } else {
                    addr
                };
                proof {
                    lemma_wadd4(slot0 + 4 * jj_t@);
                }
                addr = addr.wrapping_add(4);
                let last = remaining == 1;
                let ghost slot_a: int = slot0 + 4 * jj_t@ + (if pre_offg {
                    4int
                } else {
                    0int
                });
                proof {
                    assert(a == wrap32(slot_a));
                    assert(slot_a % 4 == 0);
                    assert forall|j: int|
                        0 <= j < 4 && crate::mem::spec_hits_timer(a, Width::Word, j) implies
                        hw.timers9.timers@[j] == old(hw).timers9.timers@[j] by {
                        if hits_t@.dom().contains(j) {
                            let av = a;
                            let tv = ((0x0400_0100 + 4 * j) as u32);
                            lemma_wrap32_align(slot_a);
                            assert(av == tv);
                            let h = hits_t@[j];
                            lemma_wrap32_same(
                                slot0 + 4 * h + (if pre_offg {
                                    4int
                                } else {
                                    0int
                                }),
                                slot_a,
                            );
                            assert(false);
                        }
                    }
                    crate::mem::lemma_ok_at_one(
                        *old(hw),
                        *hw,
                        0x7C,
                        Width::Word,
                        a,
                        (hw.scheduler.cycle + 1) as usize,
                    );
                }
                let value = self.regs.get_reg_i(reg);
                let value = if reg == 15 {
                    value.wrapping_add(4)
                } else {
                    value
                };
                let access = if last {
                    AccessType::N
                } else {
                    AccessType::S
                };
                let ghost pre_w = *hw;
                self.write(hw, Width::Word, access, a, value);
                let ghost ws_prev = ws_t@;
                ws_t = Ghost(ws_t@.push((a, value)));
                ms_t = Ghost(ms_t@.push(*hw));
                if a >= 0x0400_0100 && a < 0x0400_0110 {
                    hits_t = Ghost(hits_t@.insert(((a - 0x0400_0100) / 4) as int, jj_t@));
                }
                proof {
                    assert(crate::mem::spec_timed_write(pre_w, *hw, Width::Word, a, value));
                    assert(ms_t@[ws_prev.len() as int] == pre_w);
                    assert(ms_t@[ws_t@.len() as int] == *hw);
                    assert forall|i: int|
                        0 <= i < ws_t@.len() implies crate::mem::spec_timed_write(
                        #[trigger] ms_t@[i],
                        ms_t@[i + 1],
                        Width::Word,
                        ws_t@[i].0,
                        ws_t@[i].1,
                    ) by {
                        if i < ws_prev.len() {
                            assert(ms_t@[i] == ms_t@.drop_last()[i]);
                            assert(ms_t@[i + 1] == ms_t@.drop_last()[i + 1] || i + 1
                                == ws_prev.len());
                            assert(ws_t@[i] == ws_prev[i]);
                        }
                    }
                    reveal(spec_block_stores_from);
                    if 0x0400_0100 <= a && a < 0x0400_0110 {
                        let d = (a - 0x0400_0100) as int;
                        lemma_wrap32_align(slot_a);
                        assert(d % 4 == 0);
                        assert(4 * (d / 4) == d) by (nonlinear_arith)
                            requires
                                d % 4 == 0,
                                0 <= d,
                        ;
                        assert(((0x0400_0100 + 4 * (d / 4)) as u32) == a);
                    }
                    assert forall|j: int|
                        0 <= j < 4 && !hits_t@.dom().contains(j) implies hw.timers9.timers@[j]
                        == old(hw).timers9.timers@[j] by {
                        assert(!crate::mem::spec_hits_timer(a, Width::Word, j)) by {
                            if crate::mem::spec_hits_timer(a, Width::Word, j) {
                                let av = a;
                                lemma_wrap32_align(slot_a);
                                assert(av == ((0x0400_0100 + 4 * j) as u32));
                                assert(0x0400_0100 <= av < 0x0400_0110);
                                assert((av - 0x0400_0100) / 4 == j) by (nonlinear_arith)
                                    requires
                                        av == ((0x0400_0100 + 4 * j) as u32),
                                        0 <= j < 4,
                                ;
                                assert(hits_t@.dom().contains(j));
                            }
                        }
                    }
                }
                if write_back {
                    self.regs.set_reg_i(base_reg, final_addr);
                    proof {
                        if done > 0 {
                            crate::regs::lemma_with_reg_idem(init_regs, base_reg as int, fag);
                        }
                    }
                }
                done = done + 1;
                jj_t = Ghost(jj_t@ + 1);
                proof {
                    reveal(spec_block_stores_from);
                    assert(spec_block_stores_from(
                        init_regs,
                        listg,
                        0,
                        slot0,
                        pre_offg,
                        wbg,
                        base_reg as int,
                        fag,
                    ) =~= ws_t@ + spec_block_stores_from(
                        self.regs@,
                        listg,
                        ((reg + 1) as u32),
                        slot0 + 4 * jj_t@,
                        pre_offg,
                        wbg,
                        base_reg as int,
                        fag,
                    ));
                }
            } else {
                proof {
                    reveal(spec_block_stores_from);
                    assert(spec_block_stores_from(
                        self.regs@,
                        listg,
                        reg,
                        slot0 + 4 * jj_t@,
                        pre_offg,
                        wbg,
                        base_reg as int,
                        fag,
                    ) == spec_block_stores_from(
                        self.regs@,
                        listg,
                        ((reg + 1) as u32),
                        slot0 + 4 * jj_t@,
                        pre_offg,
                        wbg,
                        base_reg as int,
                        fag,
                    ));
                }
            }
            remaining = remaining >> 1u16;
            reg = reg + 1;
        }
        proof {
            reveal(spec_block_stores_from);
            assert(crate::mem::spec_timed_writes(hw1, *hw, ws_t@)) by {
                let msv = ms_t@;
                assert(msv.len() == ws_t@.len() + 1);
                assert(msv[0] == hw1);
                assert(msv[ws_t@.len() as int] == *hw);
            };
        }
    }
}

/// Truncating to 32 bits keeps word alignment.
proof fn lemma_wrap32_align(x: int)
    requires
        x % 4 == 0,
    ensures
        wrap32(x) % 4 == 0,
{
    vstd::arithmetic::div_mod::lemma_mod_mod(x, 4, 0x4000_0000);
    vstd::arithmetic::div_mod::lemma_mod_mod(x % 0x1_0000_0000 + 0x1_0000_0000, 4, 0x4000_0000);
}

/// Two distinct displacements within one window truncate to distinct
/// addresses.
proof fn lemma_wrap32_same(x: int, y: int)
    requires
        0 < y - x < 0x1_0000_0000,
    ensures
        wrap32(x) != wrap32(y),
{
}

/// A 32-bit value is its own truncation.
proof fn lemma_wrap32_id(v: u32)
    ensures
        wrap32(v as int) == v,
{
}

/// Wrapping subtraction is truncated subtraction.
proof fn lemma_wsub_k(x: int, k: u32)
    ensures
        vstd::wrapping::u32_specs::wrapping_sub(wrap32(x), k) == wrap32(x - k),
{
}

/// Wrapping addition is truncated addition.
proof fn lemma_wadd_k(x: int, k: u32)
    ensures
        vstd::wrapping::u32_specs::wrapping_add(wrap32(x), k) == wrap32(x + k),
{
}

/// Two machines that agree on everything but the cycle counter fold the
/// listed loads identically.
proof fn lemma_block_loads_frame(
    regs: RegsV,
    a: HW,
    b: HW,
    list: u16,
    k: u32,
    slot: int,
    cycle: int,
    pre_off: bool,
    wb: bool,
    base: int,
    fa: u32,
    s_restore: bool,
)
    requires
        HW::eq_but_cycle(a, b),
    ensures
        spec_block_loads_from(regs, a, list, k, slot, cycle, pre_off, wb, base, fa, s_restore)
            == spec_block_loads_from(
            regs,
            b,
            list,
            k,
            slot,
            cycle,
            pre_off,
            wb,
            base,
            fa,
            s_restore,
        ),
    decreases 16 - k,
{
    reveal(spec_block_loads_from);
    if k < 16 {
        if (list >> k) & 1 != 0 {
            let aaddr = wrap32(slot + (if pre_off {
                4int
            } else {
                0int
            }));
            crate::mem::lemma_read_at_frame(a, b, Width::Word, aaddr, cycle as usize);
            let v = a.spec_read_at(Width::Word, aaddr, cycle as usize);
            let r1 = regs.with_reg(k as int, v);
            let r2 = if wb {
                r1.with_reg(base, fa)
            } else {
                r1
            };
            let r3 = if k == 15 {
                let r2b = if s_restore {
                    RegsV { cpsr: r2.spsr(), ..r2 }
                } else {
                    r2
                };
                RegsV { pc: wrap32((v & 0xFFFF_FFFC) + 4), ..r2b }
            } else {
                r2
            };
            lemma_block_loads_frame(
                r3,
                a,
                b,
                list,
                ((k + 1) as u32),
                slot + 4,
                cycle + 1,
                pre_off,
                wb,
                base,
                fa,
                s_restore,
            );
        } else {
            lemma_block_loads_frame(
                regs,
                a,
                b,
                list,
                ((k + 1) as u32),
                slot,
                cycle,
                pre_off,
                wb,
                base,
                fa,
                s_restore,
            );
        }
    }
}

/// Adding four commutes with 32-bit truncation.
proof fn lemma_wadd4(x: int)
    ensures
        vstd::wrapping::u32_specs::wrapping_add(wrap32(x), 4) == wrap32(x + 4),
{
}

/// The cycles a load walk has charged beyond its reads: the trailing
/// internal cycle once the list is exhausted, plus the refill when the
/// program counter was listed.
pub open spec fn spec_load_extra_cycles(list: u16, remaining: u16) -> int {
    if remaining == 0 {
        1int + (if (list >> 15) & 1 != 0 {
            2int
        } else {
            0int
        })
    } else {
        0int
    }
}

/// The register-list bit facts the transfer walks lean on.
proof fn lemma_list_bits(rl: u16, kk: u32, remaining: u16)
    by (bit_vector)
    requires
        remaining == rl >> kk,
        kk < 16,
    ensures
        remaining >> 1u16 == rl >> ((kk + 1) as u32),
        (kk < 15 && rl >> kk == 1) ==> (rl >> 15) & 1 == 0,
        rl >> 15 <= 1,
        kk == 15 ==> ((rl >> 15) & 1 != 0 <==> rl >> 15 == 1),
        rl >> 16u32 == 0,
        remaining & 1 != 0 ==> remaining != 0,
        remaining == 1 ==> remaining >> 1u16 == 0,
        remaining == 0 ==> remaining >> 1u16 == 0,
        (remaining != 0 && remaining & 1 == 0) ==> remaining >> 1u16 != 0,
{
}

/// The number of set bits at position `k` and above.
pub open spec fn spec_ones_from(x: u16, k: u32) -> int
    decreases 16 - k,
{
    if k >= 16 {
        0
    } else {
        (if (x >> k) & 1 != 0 {
            1int
        } else {
            0int
        }) + spec_ones_from(x, (k + 1) as u32)
    }
}

/// The number of set bits in a 16-bit register list.
pub open spec fn spec_ones16(x: u16) -> int {
    spec_ones_from(x, 0)
}

/// Counting set bits never goes negative.
proof fn lemma_ones_from_nonneg(x: u16, k: u32)
    ensures
        spec_ones_from(x, k) >= 0,
    decreases 16 - k,
{
    if k < 16 {
        lemma_ones_from_nonneg(x, (k + 1) as u32);
    }
}

/// A list with no set bits at or above `k` counts nothing there.
proof fn lemma_ones_from_zero(x: u16, k: u32)
    requires
        x >> k == 0,
    ensures
        spec_ones_from(x, k) == 0,
    decreases 16 - k,
{
    if k < 16 {
        let xx = x;
        let kk = k;
        assert(xx >> kk == 0 ==> (xx >> kk) & 1 == 0) by (bit_vector);
        assert(kk < 16 && xx >> kk == 0 ==> xx >> ((kk + 1) as u32) == 0) by (bit_vector);
        lemma_ones_from_zero(x, (k + 1) as u32);
    }
}

/// The number of set bits in a 16-bit register list.
pub fn ones16(x: u16) -> (n: u32)
    ensures
        n <= 16,
        n == spec_ones16(x),
        (n == 0 <==> x == 0),
{
    if x == 0 {
        proof {
            let xx = x;
            assert(xx == 0 ==> xx >> 0u32 == 0) by (bit_vector);
            lemma_ones_from_zero(x, 0);
        }
        return 0;
    }
    let mut v = x;
    let mut n: u32 = 0;
    let mut k: u32 = 0;
    proof {
        let xx = x;
        assert(xx >> 0u32 == xx) by (bit_vector);
    }
    while k < 16
        invariant
            n <= k <= 16,
            v == x >> k,
            n > 0 || v != 0,
            n + spec_ones_from(x, k) == spec_ones16(x),
        decreases 16 - k,
    {
        if v & 1 != 0 {
            n = n + 1;
        }
        proof {
            let vv = v;
            let xx = x;
            let kk = k;
            assert(vv != 0 && vv & 1 == 0 ==> vv >> 1u16 != 0) by (bit_vector);
            assert(kk < 16 && vv == xx >> kk ==> vv >> 1u16 == xx >> ((kk + 1) as u32)) by (
            bit_vector);
        }
        v = v >> 1u16;
        k = k + 1;
    }
    proof {
        let xx = x;
        assert(xx >> 16u32 == 0) by (bit_vector);
        lemma_ones_from_zero(x, 16);
    }
    n
}


/// Re-selecting the mode a well-formed status word already holds leaves the
/// word unchanged.
proof fn lemma_mode_roundtrip(c: u32)
    requires
        (spec_mode_from_bits(c & 0x1F) is Some),
    ensures
        ((c & 0xFFFF_FFE0) | crate::regs::spec_mode_bits(
            match spec_mode_from_bits(c & 0x1F) {
                Some(m) => m,
                None => Mode::USR,
            },
        )) == c,
{
    assert(((c & 0xFFFF_FFE0) | (c & 0x1F)) == c) by (bit_vector);
    assert(c & 0x1F == 0x10 || c & 0x1F == 0x11 || c & 0x1F == 0x12 || c & 0x1F == 0x13 || c & 0x1F
        == 0x17 || c & 0x1F == 0x1B || c & 0x1F == 0x1F || (spec_mode_from_bits(c & 0x1F)
        is None));
}

/// The register file as every handler sees it: the program counter already
/// advanced one word past the executing instruction's fetch.
pub open spec fn spec_step_regs(r: RegsV) -> RegsV {
    RegsV { pc: wrap32(r.pc + 4), ..r }
}

impl ARM7 {
    /// Establishes the reset register state — supervisor mode, interrupts
    /// disabled — at the given entry point, and performs the first pipeline
    /// fill: the visible program counter ends one word past the masked entry.
    pub fn reset(&mut self, hw: &mut HW, entry: u32)
        requires
            old(self).wf(),
            old(hw).wf(),
            old(hw).ok_span(0x10),
        ensures
            final(self).wf(),
            final(hw).wf(),
            HW::eq_but_cycle(*old(hw), *final(hw)),
            final(hw).scheduler.cycle == old(hw).scheduler.cycle + 2,
            final(self).regs@.pc == wrap32((entry & 0xFFFF_FFFC) + 4),
            final(self).regs@.cpsr == 0xD3u32,
            final(self).regs@.mode() == Mode::SVC,
            forall|i: int| 0 <= i < 15 ==> final(self).regs@.reg(i) == 0u32,
            final(self).instr_buffer0 == old(hw).spec_read_at(
                Width::Word,
                entry & 0xFFFF_FFFC,
                (old(hw).scheduler.cycle + 1) as usize,
            ),
            final(self).instr_buffer1 == old(hw).spec_read_at(
                Width::Word,
                wrap32((entry & 0xFFFF_FFFC) + 4),
                (old(hw).scheduler.cycle + 2) as usize,
            ),
    {
        self.regs = RegValues::new();
        self.regs.pc = entry;
        proof {
            crate::mem::lemma_ok_at(
                *old(hw),
                *hw,
                0x10,
                Width::Word,
                entry & 0xFFFF_FFFC,
                (hw.scheduler.cycle + 1) as usize,
            );
            crate::mem::lemma_ok_at(
                *old(hw),
                *hw,
                0x10,
                Width::Word,
                crate::alu::wrap32((entry & 0xFFFF_FFFC) + 4),
                (hw.scheduler.cycle + 2) as usize,
            );
        }
        self.fill_arm_instr_buffer(hw);
    }


    /// Dispatches one condition-passing instruction to its decoded handler:
    /// each class's full contract, restated here over the dispatch key, is
    /// exactly what the selected handler ensures.
    #[verifier::rlimit(100)]
    #[verifier::spinoff_prover]
    fn dispatch_arm(&mut self, hw: &mut HW, instr: u32) -> (r: Result<(), Fault>)
        requires
            old(self).wf(),
            old(hw).wf(),
            old(hw).ok_span(0x90),
            old(hw).scheduler.cycle + 0xA00_0000 <= usize::MAX,
            (spec_decode(spec_key_of(instr)) matches InstrKind::BlockDataTransfer { l, .. } && !l
                && instr & 0xFFFF != 0 && (instr >> 16) & 0xF != 15) ==> (forall|k: int|
                -16 <= k <= 17 ==> spec_region(
                    #[trigger] wrap32(
                        (old(self).regs@.reg(((instr >> 16) & 0xF) as int) - (old(self).regs@.reg(
                            ((instr >> 16) & 0xF) as int,
                        ) & 3)) + 4 * k,
                    ),
                    old(hw).cp15,
                ) != ARM9MemoryRegion::IO),
        ensures
            final(self).wf(),
            final(hw).wf(),
            final(self).arm_lut == old(self).arm_lut,
            spec_decode(spec_key_of(instr)) matches InstrKind::BranchAndExchange ==> (
            HW::eq_but_cycle(*old(hw), *final(hw))
            ),
            spec_decode(spec_key_of(instr)) matches InstrKind::BranchAndExchange ==> (
            final(hw).scheduler.cycle == old(hw).scheduler.cycle + 3
            ),
            spec_decode(spec_key_of(instr)) matches InstrKind::BranchAndExchange ==> (
            ({
                let target = old(self).regs@.reg((instr & 0xF) as int);
                if target & 1 != 0 {
                    final(self).regs@ == (RegsV {
                        pc: wrap32((((target - 1) as u32) & 0xFFFF_FFFE) + 2),
                        ..old(self).regs@.with_t(true)
                    })
                } else {
                    final(self).regs@ == (RegsV {
                        pc: wrap32((target & 0xFFFF_FFFC) + 4),
                        ..old(self).regs@
                    })
                }
            })
            ),
            spec_decode(spec_key_of(instr)) matches InstrKind::BranchAndExchange ==> (
            r is Ok
            ),
            spec_decode(spec_key_of(instr)) matches InstrKind::BranchBranchWithLink { l } ==> (
            HW::eq_but_cycle(*old(hw), *final(hw))
            ),
            spec_decode(spec_key_of(instr)) matches InstrKind::BranchBranchWithLink { l } ==> (
            final(hw).scheduler.cycle == old(hw).scheduler.cycle + 3
            ),
            spec_decode(spec_key_of(instr)) matches InstrKind::BranchBranchWithLink { l } ==> (
            ({
                let linked = if l {
                    old(self).regs@.with_reg(14, wrap32(old(self).regs@.pc - 4))
                } else {
                    old(self).regs@
                };
                final(self).regs@ == (RegsV {
                    pc: wrap32(
                        (wrap32(old(self).regs@.pc + spec_branch_offset(instr)) & 0xFFFF_FFFC) + 4,
                    ),
                    ..linked
                })
            })
            ),
            spec_decode(spec_key_of(instr)) matches InstrKind::BranchBranchWithLink { l } ==> (
            r is Ok
            ),
            spec_decode(spec_key_of(instr)) matches InstrKind::SoftwareInterrupt ==> (
            HW::eq_but_cycle(*old(hw), *final(hw))
            ),
            spec_decode(spec_key_of(instr)) matches InstrKind::SoftwareInterrupt ==> (
            final(hw).scheduler.cycle == old(hw).scheduler.cycle + 3
            ),
            spec_decode(spec_key_of(instr)) matches InstrKind::SoftwareInterrupt ==> (
            final(self).regs@ == (RegsV {
                pc: 12u32,
                ..old(self).regs@.with_spsr_of(Mode::SVC, old(self).regs@.cpsr).with_mode(
                    Mode::SVC,
                ).with_reg(14, wrap32(old(self).regs@.pc - 4)).with_i(true)
            })
            ),
            spec_decode(spec_key_of(instr)) matches InstrKind::SoftwareInterrupt ==> (
            r is Ok
            ),
            spec_decode(spec_key_of(instr)) matches InstrKind::MulMula { a, s } ==> (
            HW::eq_but_cycle(*old(hw), *final(hw))
            ),
            spec_decode(spec_key_of(instr)) matches InstrKind::MulMula { a, s } ==> (
            r is Ok || r == Err::<(), Fault>(Fault::Malformed)
            ),
            spec_decode(spec_key_of(instr)) matches InstrKind::MulMula { a, s } ==> (
            r is Err <==> !a && (instr >> 12) & 0xF != 0
            ),
            spec_decode(spec_key_of(instr)) matches InstrKind::MulMula { a, s } ==> (
            r is Err ==> r == Err::<(), Fault>(Fault::Malformed) && final(self).regs == old(self).regs && final(hw).scheduler.cycle == old(hw).scheduler.cycle + 1 + spec_mul_clocks(
                old(self).regs@.reg(((instr >> 8) & 0xF) as int),
                true,
            )
            ),
            spec_decode(spec_key_of(instr)) matches InstrKind::MulMula { a, s } ==> (
            r is Ok ==> ({
                let op1 = old(self).regs@.reg(((instr >> 12) & 0xF) as int);
                let op2 = old(self).regs@.reg(((instr >> 8) & 0xF) as int);
                let op3 = old(self).regs@.reg((instr & 0xF) as int);
                let result = vstd::wrapping::u32_specs::wrapping_add(
                    vstd::wrapping::u32_specs::wrapping_mul(op2, op3),
                    (if a {
                        op1
                    } else {
                        0u32
                    }),
                );
                let flagged = if s {
                    old(self).regs@.with_n(result & 0x8000_0000 != 0).with_z(result == 0)
                } else {
                    old(self).regs@
                };
                &&& final(self).regs@ == flagged.with_reg(((instr >> 16) & 0xF) as int, result)
                &&& final(hw).scheduler.cycle == old(hw).scheduler.cycle + 1 + spec_mul_clocks(
                    op2,
                    true,
                ) + (if a {
                    1int
                } else {
                    0int
                })
            })
            ),
            spec_decode(spec_key_of(instr)) matches InstrKind::MulLong { u, a, s } ==> (
            HW::eq_but_cycle(*old(hw), *final(hw))
            ),
            spec_decode(spec_key_of(instr)) matches InstrKind::MulLong { u, a, s } ==> (
            ({
                let rhi = ((instr >> 16) & 0xF) as int;
                let rlo = ((instr >> 12) & 0xF) as int;
                let op1 = old(self).regs@.reg(((instr >> 8) & 0xF) as int);
                let op2 = old(self).regs@.reg((instr & 0xF) as int);
                let result = spec_mul_long_result(
                    op1,
                    op2,
                    u,
                    a,
                    old(self).regs@.reg(rhi),
                    old(self).regs@.reg(rlo),
                );
                let flagged = if s {
                    old(self).regs@.with_n(result & 0x8000_0000_0000_0000 != 0).with_z(result == 0)
                } else {
                    old(self).regs@
                };
                &&& final(self).regs@ == flagged.with_reg(rlo, result as u32).with_reg(
                    rhi,
                    (result >> 32) as u32,
                )
                &&& final(hw).scheduler.cycle == old(hw).scheduler.cycle + 2 + spec_mul_clocks(
                    op1,
                    u,
                ) + (if a {
                    1int
                } else {
                    0int
                })
            })
            ),
            spec_decode(spec_key_of(instr)) matches InstrKind::MulLong { u, a, s } ==> (
            r is Ok
            ),
            spec_decode(spec_key_of(instr)) matches InstrKind::PsrTransfer { i, p, l } ==> (
            r is Ok || r == Err::<(), Fault>(Fault::Malformed) || r == Err::<(), Fault>(
                Fault::InvalidMode,
            )
            ),
            spec_decode(spec_key_of(instr)) matches InstrKind::PsrTransfer { i, p, l } ==> (
            HW::eq_but_cycle(*old(hw), *final(hw))
            ),
            spec_decode(spec_key_of(instr)) matches InstrKind::PsrTransfer { i, p, l } ==> (
            final(hw).scheduler.cycle == old(hw).scheduler.cycle + 1
            ),
            spec_decode(spec_key_of(instr)) matches InstrKind::PsrTransfer { i, p, l } ==> (
            r is Err ==> final(self).regs == old(self).regs
            ),
            spec_decode(spec_key_of(instr)) matches InstrKind::PsrTransfer { i, p, l } ==> (
            l ==> ({
                let malformed = (instr >> 12) & 0xF != 0xF || (!i && (instr >> 4) & 0xFF != 0);
                let v = spec_msr_value(old(self).regs@, instr, i, p);
                &&& (malformed ==> r == Err::<(), Fault>(Fault::Malformed))
                &&& (!malformed && p ==> r is Ok && final(self).regs@ == old(self).regs@.with_spsr(v))
                &&& (!malformed && !p && (spec_mode_from_bits(v & 0x1F) is Some) ==> r is Ok
                    && final(self).regs@ == (RegsV { cpsr: v, ..old(self).regs@ }))
                &&& (!malformed && !p && (spec_mode_from_bits(v & 0x1F) is None) ==> r == Err::<
                    (),
                    Fault,
                >(Fault::InvalidMode))
            })
            ),
            spec_decode(spec_key_of(instr)) matches InstrKind::PsrTransfer { i, p, l } ==> (
            !l ==> ({
                let malformed = i || (instr & 0xFFF) != 0;
                &&& (malformed ==> r == Err::<(), Fault>(Fault::Malformed))
                &&& (!malformed ==> r is Ok && final(self).regs@ == old(self).regs@.with_reg(
                    ((instr >> 12) & 0xF) as int,
                    (if p {
                        old(self).regs@.spsr()
                    } else {
                        old(self).regs@.cpsr
                    }),
                ))
            })
            ),
            spec_decode(spec_key_of(instr)) matches InstrKind::DataProc { i, s } ==> (
            HW::eq_but_cycle(*old(hw), *final(hw))
            ),
            spec_decode(spec_key_of(instr)) matches InstrKind::DataProc { i, s } ==> (
            r is Ok || r == Err::<(), Fault>(Fault::InvalidMode)
            ),
            spec_decode(spec_key_of(instr)) matches InstrKind::DataProc { i, s } ==> (
            ({
                let o = spec_data_proc(old(self).regs@, instr, i, s);
                let special = (instr >> 12) & 0xF == 15 && s;
                let restore_bad = special && (spec_mode_from_bits(old(self).regs@.spsr() & 0x1F)
                    is None);
                let base = if o.reg_shift {
                    1int
                } else {
                    0int
                };
                &&& (restore_bad <==> r == Err::<(), Fault>(Fault::InvalidMode))
                &&& (restore_bad ==> final(self).regs@ == old(self).regs@ && final(hw).scheduler.cycle == old(hw).scheduler.cycle + base)
                &&& (!restore_bad && o.writes_pc ==> ({
                    let width_pc = if crate::regs::cpsr_t(o.cpsr) {
                        wrap32((o.result & 0xFFFF_FFFE) + 2)
                    } else {
                        wrap32((o.result & 0xFFFF_FFFC) + 4)
                    };
                    final(self).regs@ == (RegsV {
                        cpsr: o.cpsr,
                        pc: width_pc,
                        ..old(self).regs@
                    }) && final(hw).scheduler.cycle == old(hw).scheduler.cycle + base + 3
                }))
                &&& (!restore_bad && o.writes_reg && !o.writes_pc ==> final(self).regs@ == (RegsV {
                    cpsr: o.cpsr,
                    ..old(self).regs@
                }).with_reg(o.dest as int, o.result) && final(hw).scheduler.cycle == old(hw).scheduler.cycle + base + 1)
                &&& (!restore_bad && !o.writes_reg ==> final(self).regs@ == (RegsV {
                    cpsr: o.cpsr,
                    ..old(self).regs@
                }) && final(hw).scheduler.cycle == old(hw).scheduler.cycle + base + 1)
            })
            ),
            spec_decode(spec_key_of(instr)) matches InstrKind::SingleDataTransfer { i, p, u, b, w, l } ==> (
            r is Ok || r == Err::<(), Fault>(Fault::Malformed)
            ),
            spec_decode(spec_key_of(instr)) matches InstrKind::SingleDataTransfer { i, p, u, b, w, l } ==> (
            ({
                let malformed = (i && ((instr >> 4) & 1 != 0 || instr & 0xF == 15)) || (!p && (instr
                    >> 21) & 1 != 0);
                malformed <==> r == Err::<(), Fault>(Fault::Malformed)
            })
            ),
            spec_decode(spec_key_of(instr)) matches InstrKind::SingleDataTransfer { i, p, u, b, w, l } ==> (
            ({
                let malformed = (i && ((instr >> 4) & 1 != 0 || instr & 0xF == 15)) || (!p && (instr
                    >> 21) & 1 != 0);
                malformed ==> final(self).regs == old(self).regs && HW::eq_but_cycle(
                    *old(hw),
                    *final(hw),
                ) && final(hw).scheduler.cycle == old(hw).scheduler.cycle + 1
            })
            ),
            spec_decode(spec_key_of(instr)) matches InstrKind::SingleDataTransfer { i, p, u, b, w, l } ==> (
            ({
                let malformed = (i && ((instr >> 4) & 1 != 0 || instr & 0xF == 15)) || (!p && (instr
                    >> 21) & 1 != 0);
                let base = old(self).regs@.reg(((instr >> 16) & 0xF) as int);
                let offset = spec_sdt_offset(old(self).regs@, instr, i);
                let oa = if u {
                    wrap32(base + offset)
                } else {
                    wrap32(base - offset)
                };
                let addr = if p {
                    oa
                } else {
                    base
                };
                let dest = ((instr >> 12) & 0xF) as int;
                let stored = if dest == 15 {
                    wrap32(old(self).regs@.reg(15) + 4)
                } else {
                    old(self).regs@.reg(dest)
                };
                let ww = if b {
                    Width::Byte
                } else {
                    Width::Word
                };
                let wa = if b {
                    addr
                } else {
                    addr & 0xFFFF_FFFC
                };
                !malformed && !l ==> crate::mem::spec_timed_write_n(
                    *old(hw),
                    *final(hw),
                    2,
                    ww,
                    wa,
                    stored,
                )
            })
            ),
            spec_decode(spec_key_of(instr)) matches InstrKind::SingleDataTransfer { i, p, u, b, w, l } ==> (
            ({
                let malformed = (i && ((instr >> 4) & 1 != 0 || instr & 0xF == 15)) || (!p && (instr
                    >> 21) & 1 != 0);
                let base = old(self).regs@.reg(((instr >> 16) & 0xF) as int);
                let offset = spec_sdt_offset(old(self).regs@, instr, i);
                let oa = if u {
                    wrap32(base + offset)
                } else {
                    wrap32(base - offset)
                };
                let addr = if p {
                    oa
                } else {
                    base
                };
                let dest = ((instr >> 12) & 0xF) as int;
                let wb = (w || !p) && !(l && dest == ((instr >> 16) & 0xF) as int);
                let value = if b {
                    old(hw).spec_read_at(
                        Width::Byte,
                        addr,
                        (old(hw).scheduler.cycle + 2) as usize,
                    )
                } else {
                    spec_ror32(
                        old(hw).spec_read_at(
                            Width::Word,
                            addr & 0xFFFF_FFFC,
                            (old(hw).scheduler.cycle + 2) as usize,
                        ),
                        (((addr & 3) * 8) as u32),
                    )
                };
                let r1 = old(self).regs@.with_reg(dest, value);
                let r2 = if dest == 15 {
                    RegsV { pc: wrap32((value & 0xFFFF_FFFC) + 4), ..r1 }
                } else {
                    r1
                };
                let r3 = if wb {
                    r2.with_reg(((instr >> 16) & 0xF) as int, oa)
                } else {
                    r2
                };
                !malformed && l ==> final(self).regs@ == r3
            })
            ),
            spec_decode(spec_key_of(instr)) matches InstrKind::SingleDataTransfer { i, p, u, b, w, l } ==> (
            ({
                let malformed = (i && ((instr >> 4) & 1 != 0 || instr & 0xF == 15)) || (!p && (instr
                    >> 21) & 1 != 0);
                !malformed && l ==> HW::eq_but_cycle(*old(hw), *final(hw))
            })
            ),
            spec_decode(spec_key_of(instr)) matches InstrKind::SingleDataTransfer { i, p, u, b, w, l } ==> (
            ({
                let malformed = (i && ((instr >> 4) & 1 != 0 || instr & 0xF == 15)) || (!p && (instr
                    >> 21) & 1 != 0);
                let dest = ((instr >> 12) & 0xF) as int;
                !malformed && l ==> final(hw).scheduler.cycle == old(hw).scheduler.cycle + 3 + (
                if dest == 15 {
                    2int
                } else {
                    0int
                })
            })
            ),
            spec_decode(spec_key_of(instr)) matches InstrKind::SingleDataTransfer { i, p, u, b, w, l } ==> (
            ({
                let malformed = (i && ((instr >> 4) & 1 != 0 || instr & 0xF == 15)) || (!p && (instr
                    >> 21) & 1 != 0);
                let base = old(self).regs@.reg(((instr >> 16) & 0xF) as int);
                let offset = spec_sdt_offset(old(self).regs@, instr, i);
                let oa = if u {
                    wrap32(base + offset)
                } else {
                    wrap32(base - offset)
                };
                let wb = w || !p;
                !malformed && !l ==> final(self).regs@ == (if wb {
                    old(self).regs@.with_reg(((instr >> 16) & 0xF) as int, oa)
                } else {
                    old(self).regs@
                })
            })
            ),
            spec_decode(spec_key_of(instr)) matches InstrKind::SingleDataTransfer { i, p, u, b, w, l } ==> (
            ({
                let malformed = (i && ((instr >> 4) & 1 != 0 || instr & 0xF == 15)) || (!p && (instr
                    >> 21) & 1 != 0);
                !malformed && !l ==> final(hw).scheduler.cycle == old(hw).scheduler.cycle + 2
            })
            ),
            spec_decode(spec_key_of(instr)) matches InstrKind::HalfwordAndSignedDataTransfer { p, u, i, w, l, s, h } ==> (
            r is Ok || r == Err::<(), Fault>(Fault::Malformed)
            ),
            spec_decode(spec_key_of(instr)) matches InstrKind::HalfwordAndSignedDataTransfer { p, u, i, w, l, s, h } ==> (
            ({
                let malformed = (!i && (instr >> 8) & 0xF != 0) || (!s && !h) || (!l && (
                s || !h));
                malformed <==> r == Err::<(), Fault>(Fault::Malformed)
            })
            ),
            spec_decode(spec_key_of(instr)) matches InstrKind::HalfwordAndSignedDataTransfer { p, u, i, w, l, s, h } ==> (
            ({
                let malformed = (!i && (instr >> 8) & 0xF != 0) || (!s && !h) || (!l && (
                s || !h));
                let base = old(self).regs@.reg(((instr >> 16) & 0xF) as int);
                let offset = if i {
                    ((instr >> 8) & 0xF) << 4 | (instr & 0xF)
                } else {
                    old(self).regs@.reg((instr & 0xF) as int)
                };
                let oa = if u {
                    wrap32(base + offset)
                } else {
                    wrap32(base - offset)
                };
                let addr = if p {
                    oa
                } else {
                    base
                };
                let stored = (old(self).regs@.reg(((instr >> 12) & 0xF) as int) & 0xFFFF) as u32;
                !malformed && !l ==> crate::mem::spec_timed_write_n(
                    *old(hw),
                    *final(hw),
                    2,
                    Width::Half,
                    addr & 0xFFFF_FFFE,
                    stored,
                )
            })
            ),
            spec_decode(spec_key_of(instr)) matches InstrKind::HalfwordAndSignedDataTransfer { p, u, i, w, l, s, h } ==> (
            ({
                let malformed = (!i && (instr >> 8) & 0xF != 0) || (!s && !h) || (!l && (
                s || !h));
                malformed ==> final(self).regs == old(self).regs && HW::eq_but_cycle(
                    *old(hw),
                    *final(hw),
                ) && final(hw).scheduler.cycle == old(hw).scheduler.cycle + 1
            })
            ),
            spec_decode(spec_key_of(instr)) matches InstrKind::HalfwordAndSignedDataTransfer { p, u, i, w, l, s, h } ==> (
            ({
                let malformed = (!i && (instr >> 8) & 0xF != 0) || (!s && !h) || (!l && (
                s || !h));
                let base = old(self).regs@.reg(((instr >> 16) & 0xF) as int);
                let offset = if i {
                    ((instr >> 8) & 0xF) << 4 | (instr & 0xF)
                } else {
                    old(self).regs@.reg((instr & 0xF) as int)
                };
                let oa = if u {
                    wrap32(base + offset)
                } else {
                    wrap32(base - offset)
                };
                let addr = if p {
                    oa
                } else {
                    base
                };
                let dest = ((instr >> 12) & 0xF) as int;
                let wb = (w || !p) && !(dest == ((instr >> 16) & 0xF) as int);
                let value = spec_hsdt_value(
                    *old(hw),
                    s,
                    h,
                    addr,
                    (old(hw).scheduler.cycle + 2) as usize,
                );
                let r1 = old(self).regs@.with_reg(dest, value);
                let r2 = if dest == 15 {
                    RegsV { pc: wrap32((value & 0xFFFF_FFFC) + 4), ..r1 }
                } else {
                    r1
                };
                let r3 = if wb {
                    r2.with_reg(((instr >> 16) & 0xF) as int, oa)
                } else {
                    r2
                };
                !malformed && l ==> final(self).regs@ == r3
            })
            ),
            spec_decode(spec_key_of(instr)) matches InstrKind::HalfwordAndSignedDataTransfer { p, u, i, w, l, s, h } ==> (
            ({
                let malformed = (!i && (instr >> 8) & 0xF != 0) || (!s && !h) || (!l && (
                s || !h));
                !malformed && l ==> HW::eq_but_cycle(*old(hw), *final(hw))
            })
            ),
            spec_decode(spec_key_of(instr)) matches InstrKind::HalfwordAndSignedDataTransfer { p, u, i, w, l, s, h } ==> (
            ({
                let malformed = (!i && (instr >> 8) & 0xF != 0) || (!s && !h) || (!l && (
                s || !h));
                let dest = ((instr >> 12) & 0xF) as int;
                !malformed && l ==> final(hw).scheduler.cycle == old(hw).scheduler.cycle + 3 + (
                if dest == 15 {
                    2int
                } else {
                    0int
                })
            })
            ),
            spec_decode(spec_key_of(instr)) matches InstrKind::HalfwordAndSignedDataTransfer { p, u, i, w, l, s, h } ==> (
            ({
                let malformed = (!i && (instr >> 8) & 0xF != 0) || (!s && !h) || (!l && (
                s || !h));
                let base = old(self).regs@.reg(((instr >> 16) & 0xF) as int);
                let offset = if i {
                    ((instr >> 8) & 0xF) << 4 | (instr & 0xF)
                } else {
                    old(self).regs@.reg((instr & 0xF) as int)
                };
                let oa = if u {
                    wrap32(base + offset)
                } else {
                    wrap32(base - offset)
                };
                let wb = w || !p;
                !malformed && !l ==> final(self).regs@ == (if wb {
                    old(self).regs@.with_reg(((instr >> 16) & 0xF) as int, oa)
                } else {
                    old(self).regs@
                }) && final(hw).scheduler.cycle == old(hw).scheduler.cycle + 2
            })
            ),
            spec_decode(spec_key_of(instr)) matches InstrKind::SingleDataSwap { b } ==> (
            ((instr >> 20) & 0x3 != 0 || (instr >> 8) & 0xF != 0) <==> r == Err::<(), Fault>(
                Fault::Malformed,
            )
            ),
            spec_decode(spec_key_of(instr)) matches InstrKind::SingleDataSwap { b } ==> (
            r is Ok || r == Err::<(), Fault>(Fault::Malformed)
            ),
            spec_decode(spec_key_of(instr)) matches InstrKind::SingleDataSwap { b } ==> (
            r is Err ==> *final(self) == *old(self) && *final(hw) == *old(hw)
            ),
            spec_decode(spec_key_of(instr)) matches InstrKind::SingleDataSwap { b } ==> (
            r is Ok ==> final(hw).scheduler.cycle == old(hw).scheduler.cycle + 4
            ),
            spec_decode(spec_key_of(instr)) matches InstrKind::SingleDataSwap { b } ==> (
            r is Ok ==> ({
                let base = old(self).regs@.reg(((instr >> 16) & 0xF) as int);
                let srcv = old(self).regs@.reg((instr & 0xF) as int);
                let ww = if b {
                    Width::Byte
                } else {
                    Width::Word
                };
                let wa = if b {
                    base
                } else {
                    base & 0xFFFF_FFFC
                };
                crate::mem::spec_timed_write_then(*old(hw), *final(hw), 3, 1, ww, wa, srcv)
            })
            ),
            spec_decode(spec_key_of(instr)) matches InstrKind::SingleDataSwap { b } ==> (
            r is Ok ==> ({
                let base = old(self).regs@.reg(((instr >> 16) & 0xF) as int);
                let value = if b {
                    old(hw).spec_read_at(
                        Width::Byte,
                        base,
                        (old(hw).scheduler.cycle + 2) as usize,
                    )
                } else {
                    spec_ror32(
                        old(hw).spec_read_at(
                            Width::Word,
                            base & 0xFFFF_FFFC,
                            (old(hw).scheduler.cycle + 2) as usize,
                        ),
                        (((base & 3) * 8) as u32),
                    )
                };
                final(self).regs@ == old(self).regs@.with_reg(((instr >> 12) & 0xF) as int, value)
            })
            ),
            spec_decode(spec_key_of(instr)) matches InstrKind::BlockDataTransfer { p, u, s, w, l } ==> (
            r is Ok || r == Err::<(), Fault>(Fault::Malformed) || r == Err::<(), Fault>(
                Fault::InvalidMode,
            )
            ),
            spec_decode(spec_key_of(instr)) matches InstrKind::BlockDataTransfer { p, u, s, w, l } ==> (
            ((instr >> 16) & 0xF == 15 <==> r == Err::<(), Fault>(Fault::Malformed))
            ),
            spec_decode(spec_key_of(instr)) matches InstrKind::BlockDataTransfer { p, u, s, w, l } ==> (
            (instr >> 16) & 0xF == 15 ==> final(self).regs == old(self).regs && *final(hw) == *old(hw)
            ),
            spec_decode(spec_key_of(instr)) matches InstrKind::BlockDataTransfer { p, u, s, w, l } ==> (
            r == Err::<(), Fault>(Fault::InvalidMode) ==> l && s
            ),
            spec_decode(spec_key_of(instr)) matches InstrKind::BlockDataTransfer { p, u, s, w, l } ==> (
            l && (instr >> 16) & 0xF != 15 ==> HW::eq_but_cycle(*old(hw), *final(hw))
            ),
            spec_decode(spec_key_of(instr)) matches InstrKind::BlockDataTransfer { p, u, s, w, l } ==> (
            ({
                // The defined empty-list store: one word — the program
                // counter's value plus four — at the base displaced by 0x40
                // in the transfer direction, and the base moved the same way.
                let base_reg = ((instr >> 16) & 0xF) as int;
                let base = old(self).regs@.reg(base_reg);
                let aligned = (base - (base & 3)) as u32;
                let taddr = if u {
                    wrap32(aligned + 0x40)
                } else {
                    wrap32(aligned - 0x40)
                };
                let moved = if u {
                    wrap32(base + 0x40)
                } else {
                    wrap32(base - 0x40)
                };
                instr & 0xFFFF == 0 && base_reg != 15 && !l && !s ==> r is Ok && final(self).regs@ == (if w {
                    old(self).regs@.with_reg(base_reg, moved)
                } else {
                    old(self).regs@
                }) && final(hw).scheduler.cycle == old(hw).scheduler.cycle + 2
                    && crate::mem::spec_timed_write_n(
                    *old(hw),
                    *final(hw),
                    2,
                    Width::Word,
                    taddr,
                    wrap32(old(self).regs@.reg(15) + 4),
                )
            })
            ),
            spec_decode(spec_key_of(instr)) matches InstrKind::BlockDataTransfer { p, u, s, w, l } ==> (
            instr & 0xFFFF == 0 && (instr >> 16) & 0xF != 15 && l && !s ==> r is Ok && final(hw).scheduler.cycle == old(hw).scheduler.cycle + 5
            ),
            spec_decode(spec_key_of(instr)) matches InstrKind::BlockDataTransfer { p, u, s, w, l } ==> (
            ({
                // The defined empty-list load: register 15 takes the word at
                // the displaced base, the pipeline refills, and the base
                // moves by exactly 0x40.
                let base_reg = ((instr >> 16) & 0xF) as int;
                let base = old(self).regs@.reg(base_reg);
                let aligned = (base - (base & 3)) as u32;
                let taddr = if u {
                    wrap32(aligned + 0x40)
                } else {
                    wrap32(aligned - 0x40)
                };
                let moved = if u {
                    wrap32(base + 0x40)
                } else {
                    wrap32(base - 0x40)
                };
                let value = spec_ror32(
                    old(hw).spec_read_at(
                        Width::Word,
                        taddr & 0xFFFF_FFFC,
                        (old(hw).scheduler.cycle + 2) as usize,
                    ),
                    (((taddr & 3) * 8) as u32),
                );
                let r1 = old(self).regs@.with_reg(15, value);
                let r2 = if w {
                    r1.with_reg(base_reg, moved)
                } else {
                    r1
                };
                instr & 0xFFFF == 0 && base_reg != 15 && l && !s ==> final(self).regs@
                    == (RegsV { pc: wrap32((value & 0xFFFF_FFFC) + 4), ..r2 })
            })
            ),
            spec_decode(spec_key_of(instr)) matches InstrKind::BlockDataTransfer { p, u, s, w, l } ==> (
            ({
                // A non-empty load: the register file is the ascending-order
                // fold of the listed loads — banked through the user
                // registers when the force-user bit applies — with the
                // pre-instruction mode field back in place at the end.
                let base_reg = ((instr >> 16) & 0xF) as int;
                let list = (instr & 0xFFFF) as u16;
                let base = old(self).regs@.reg(base_reg);
                let aligned = base - (base & 3);
                let n = spec_ones16(list);
                let bit15 = (list >> 15) & 1 != 0;
                let init = if s && !bit15 {
                    old(self).regs@.with_mode(Mode::USR)
                } else {
                    old(self).regs@
                };
                let wb = w && !((list >> (((instr >> 16) & 0xF) as u32)) & 1 != 0);
                let slot0 = if u {
                    aligned
                } else {
                    aligned - 4 * n
                };
                let fa = if u {
                    wrap32(aligned + 4 * n + (base & 3))
                } else {
                    wrap32(aligned - 4 * n + (base & 3))
                };
                let pre_off = p != !u;
                let restore_bad = s && bit15 && (spec_mode_from_bits(old(self).regs@.spsr() & 0x1F)
                    is None);
                l && list != 0 && base_reg != 15 && !restore_bad ==> r is Ok && final(self).regs@
                    == spec_block_loads_from(
                    init,
                    *old(hw),
                    list,
                    0,
                    slot0,
                    old(hw).scheduler.cycle + 2,
                    pre_off,
                    wb,
                    base_reg,
                    fa,
                    s && bit15,
                ).with_mode(old(self).regs@.mode()) && final(hw).scheduler.cycle == old(hw).scheduler.cycle + 2 + n + (if bit15 {
                    2int
                } else {
                    0int
                })
            })
            ),
            spec_decode(spec_key_of(instr)) matches InstrKind::BlockDataTransfer { p, u, s, w, l } ==> (
            ({
                // A non-empty store: the listed registers' words — read
                // through the user bank when forced, the base showing its
                // written-back value once write-back has applied — land as
                // timed word writes in ascending register order at
                // consecutive slots, one charged cycle after the prefetch.
                let base_reg = ((instr >> 16) & 0xF) as int;
                let list = (instr & 0xFFFF) as u16;
                let base = old(self).regs@.reg(base_reg);
                let aligned = base - (base & 3);
                let n = spec_ones16(list);
                let init = if s {
                    old(self).regs@.with_mode(Mode::USR)
                } else {
                    old(self).regs@
                };
                let slot0 = if u {
                    aligned
                } else {
                    aligned - 4 * n
                };
                let fa = if u {
                    wrap32(aligned + 4 * n + (base & 3))
                } else {
                    wrap32(aligned - 4 * n + (base & 3))
                };
                let pre_off = p != !u;
                !l && list != 0 && base_reg != 15 ==> r is Ok && final(self).regs@ == (if w {
                    init.with_reg(base_reg, fa)
                } else {
                    init
                }).with_mode(old(self).regs@.mode()) && final(hw).scheduler.cycle == old(hw).scheduler.cycle + 1 + n && crate::mem::spec_timed_writes_after(
                    *old(hw),
                    *final(hw),
                    1,
                    spec_block_stores_from(init, list, 0, slot0, pre_off, w, base_reg, fa),
                )
            })
            ),
            spec_decode(spec_key_of(instr)) == InstrKind::Coprocessor ==> (
                r == Err::<(), Fault>(Fault::Coprocessor) && *final(self) == *old(self) && *final(hw) == *old(hw)
            ),
            spec_decode(spec_key_of(instr)) == InstrKind::Undefined ==> (
                r == Err::<(), Fault>(Fault::UndefinedInstr) && *final(self) == *old(self) && *final(hw) == *old(hw)
            ),
    {
        proof {
            lemma_fields(instr);
            lemma_skeleton_of_key(instr);
            crate::mem::lemma_ok_span_later(*old(hw), *hw, 0x90, 0x80);
            crate::mem::lemma_ok_span_later(*old(hw), *hw, 0x90, 0x10);
        }
        let key = ((instr >> 16) & 0xFF0 | (instr >> 4) & 0xF) as usize;
        proof {
            assert(key == spec_key_of(instr));
        }
            let kind = self.arm_lut[key];
            match kind {
                InstrKind::BranchAndExchange => {
                    self.branch_and_exchange(hw, instr);
                    Ok(())
                },
                InstrKind::MulMula { a, s } => self.mul_mula(hw, instr, a, s),
                InstrKind::MulLong { u, a, s } => {
                    self.mul_long(hw, instr, u, a, s);
                    Ok(())
                },
                InstrKind::SingleDataSwap { b } => self.single_data_swap(hw, instr, b),
                InstrKind::HalfwordAndSignedDataTransfer { p, u, i, w, l, s, h } => {
                    self.halfword_and_signed_data_transfer(hw, instr, p, u, i, w, l, s, h)
                },
                InstrKind::PsrTransfer { i, p, l } => self.psr_transfer(hw, instr, i, p, l),
                InstrKind::DataProc { i, s } => self.data_proc(hw, instr, i, s),
                InstrKind::SingleDataTransfer { i, p, u, b, w, l } => {
                    self.single_data_transfer(hw, instr, i, p, u, b, w, l)
                },
                InstrKind::BlockDataTransfer { p, u, s, w, l } => {
                    proof {
                        if !l && instr & 0xFFFF != 0 && (instr >> 16) & 0xF != 15 {
                            let bi = ((instr >> 16) & 0xF) as int;
                            assert(self.regs@.reg(bi) == old(self).regs@.reg(bi));
                            assert forall|k: int| -16 <= k <= 17 implies spec_region(
                                #[trigger] wrap32(
                                    (self.regs@.reg(bi) - (self.regs@.reg(bi) & 3)) + 4 * k,
                                ),
                                hw.cp15,
                            ) != ARM9MemoryRegion::IO by {
                                assert(spec_region(
                                    wrap32(
                                        (old(self).regs@.reg(bi) - (old(self).regs@.reg(bi) & 3))
                                            + 4 * k,
                                    ),
                                    old(hw).cp15,
                                ) != ARM9MemoryRegion::IO);
                            }
                        }
                    }
                    self.block_data_transfer(hw, instr, p, u, s, w, l)
                },
                InstrKind::BranchBranchWithLink { l } => {
                    self.branch_branch_with_link(hw, instr, l);
                    Ok(())
                },
                InstrKind::SoftwareInterrupt => {
                    self.arm_software_interrupt(hw, instr);
                    Ok(())
                },
                InstrKind::Coprocessor => self.coprocessor(hw, instr),
                InstrKind::Undefined => self.undefined_instr_arm(hw, instr),
            }
    }

    /// Executes exactly one instruction, or one skipped-condition fetch
    /// cycle, from the head of the instruction buffer: the buffer shifts by
    /// one slot, the visible program counter advances one word, the 4-bit
    /// condition field decides between the decoded handler and a single
    /// sequential prefetch. A non-branching data-processing instruction
    /// leaves the program counter exactly one word further — the pipeline
    /// offset every handler observes.
    #[verifier::rlimit(100)]
    #[verifier::spinoff_prover]
    pub fn emulate_arm_instr(&mut self, hw: &mut HW) -> (r: Result<(), Fault>)
        requires
            old(self).wf(),
            old(hw).wf(),
            old(hw).ok_span(0x90),
            old(hw).scheduler.cycle + 0xA00_0000 <= usize::MAX,
            spec_cond_passes((old(self).instr_buffer0 >> 28) & 0xF, old(self).regs@.cpsr) ==> ((
            spec_decode(spec_key_of(old(self).instr_buffer0)) matches
                InstrKind::BlockDataTransfer { l, .. } && !l && old(self).instr_buffer0 & 0xFFFF
                != 0 && (old(self).instr_buffer0 >> 16) & 0xF != 15) ==> (forall|k: int|
                -16 <= k <= 17 ==> spec_region(
                    #[trigger] wrap32(
                        (old(self).regs@.reg(
                            ((old(self).instr_buffer0 >> 16) & 0xF) as int,
                        ) - (old(self).regs@.reg(((old(self).instr_buffer0 >> 16) & 0xF) as int)
                            & 3)) + 4 * k,
                    ),
                    old(hw).cp15,
                ) != ARM9MemoryRegion::IO)),
        ensures
            final(self).wf(),
            final(hw).wf(),
            final(self).arm_lut == old(self).arm_lut,
            !spec_cond_passes((old(self).instr_buffer0 >> 28) & 0xF, old(self).regs@.cpsr) ==> r is Ok
                && final(self).instr_buffer0 == old(self).instr_buffer1
                && final(self).regs@ == (RegsV {
                pc: wrap32(old(self).regs@.pc + 4),
                ..old(self).regs@
            }) && HW::eq_but_cycle(*old(hw), *final(hw)) && final(hw).scheduler.cycle == old(hw).scheduler.cycle + 1,
            ({
                let instr = old(self).instr_buffer0;
                spec_cond_passes((instr >> 28) & 0xF, old(self).regs@.cpsr) && (spec_decode(
                    spec_key_of(instr),
                ) matches InstrKind::DataProc { .. }) && (instr >> 12) & 0xF != 15 ==> r is Ok
                    && final(self).regs@.pc == wrap32(old(self).regs@.pc + 4)
            }),
            ({
                let instr = old(self).instr_buffer0;
                spec_cond_passes((instr >> 28) & 0xF, old(self).regs@.cpsr) && spec_decode(
                    spec_key_of(instr),
                ) == InstrKind::Coprocessor ==> r == Err::<(), Fault>(Fault::Coprocessor)
                    && *final(hw) == *old(hw) && final(self).regs@ == (RegsV {
                    pc: wrap32(old(self).regs@.pc + 4),
                    ..old(self).regs@
                })
            }),
            ({
                let instr = old(self).instr_buffer0;
                spec_cond_passes((instr >> 28) & 0xF, old(self).regs@.cpsr) && spec_decode(
                    spec_key_of(instr),
                ) == InstrKind::Undefined ==> r == Err::<(), Fault>(Fault::UndefinedInstr)
                    && *final(hw) == *old(hw) && final(self).regs@ == (RegsV {
                    pc: wrap32(old(self).regs@.pc + 4),
                    ..old(self).regs@
                })
            }),
            spec_cond_passes((old(self).instr_buffer0 >> 28) & 0xF, old(self).regs@.cpsr)
                ==> (spec_decode(spec_key_of(old(self).instr_buffer0)) matches InstrKind::BranchAndExchange ==> (
            HW::eq_but_cycle(*old(hw), *final(hw))
            )),
            spec_cond_passes((old(self).instr_buffer0 >> 28) & 0xF, old(self).regs@.cpsr)
                ==> (spec_decode(spec_key_of(old(self).instr_buffer0)) matches InstrKind::BranchAndExchange ==> (
            final(hw).scheduler.cycle == old(hw).scheduler.cycle + 3
            )),
            spec_cond_passes((old(self).instr_buffer0 >> 28) & 0xF, old(self).regs@.cpsr)
                ==> (spec_decode(spec_key_of(old(self).instr_buffer0)) matches InstrKind::BranchAndExchange ==> (
            ({
                let target = spec_step_regs(old(self).regs@).reg(((old(self).instr_buffer0) & 0xF) as int);
                if target & 1 != 0 {
                    final(self).regs@ == (RegsV {
                        pc: wrap32((((target - 1) as u32) & 0xFFFF_FFFE) + 2),
                        ..spec_step_regs(old(self).regs@).with_t(true)
                    })
                } else {
                    final(self).regs@ == (RegsV {
                        pc: wrap32((target & 0xFFFF_FFFC) + 4),
                        ..spec_step_regs(old(self).regs@)
                    })
                }
            })
            )),
            spec_cond_passes((old(self).instr_buffer0 >> 28) & 0xF, old(self).regs@.cpsr)
                ==> (spec_decode(spec_key_of(old(self).instr_buffer0)) matches InstrKind::BranchAndExchange ==> (
            r is Ok
            )),
            spec_cond_passes((old(self).instr_buffer0 >> 28) & 0xF, old(self).regs@.cpsr)
                ==> (spec_decode(spec_key_of(old(self).instr_buffer0)) matches InstrKind::BranchBranchWithLink { l } ==> (
            HW::eq_but_cycle(*old(hw), *final(hw))
            )),
            spec_cond_passes((old(self).instr_buffer0 >> 28) & 0xF, old(self).regs@.cpsr)
                ==> (spec_decode(spec_key_of(old(self).instr_buffer0)) matches InstrKind::BranchBranchWithLink { l } ==> (
            final(hw).scheduler.cycle == old(hw).scheduler.cycle + 3
            )),
            spec_cond_passes((old(self).instr_buffer0 >> 28) & 0xF, old(self).regs@.cpsr)
                ==> (spec_decode(spec_key_of(old(self).instr_buffer0)) matches InstrKind::BranchBranchWithLink { l } ==> (
            ({
                let linked = if l {
                    spec_step_regs(old(self).regs@).with_reg(14, wrap32(spec_step_regs(old(self).regs@).pc - 4))
                } else {
                    spec_step_regs(old(self).regs@)
                };
                final(self).regs@ == (RegsV {
                    pc: wrap32(
                        (wrap32(spec_step_regs(old(self).regs@).pc + spec_branch_offset((old(self).instr_buffer0))) & 0xFFFF_FFFC) + 4,
                    ),
                    ..linked
                })
            })
            )),
            spec_cond_passes((old(self).instr_buffer0 >> 28) & 0xF, old(self).regs@.cpsr)
                ==> (spec_decode(spec_key_of(old(self).instr_buffer0)) matches InstrKind::BranchBranchWithLink { l } ==> (
            r is Ok
            )),
            spec_cond_passes((old(self).instr_buffer0 >> 28) & 0xF, old(self).regs@.cpsr)
                ==> (spec_decode(spec_key_of(old(self).instr_buffer0)) matches InstrKind::SoftwareInterrupt ==> (
            HW::eq_but_cycle(*old(hw), *final(hw))
            )),
            spec_cond_passes((old(self).instr_buffer0 >> 28) & 0xF, old(self).regs@.cpsr)
                ==> (spec_decode(spec_key_of(old(self).instr_buffer0)) matches InstrKind::SoftwareInterrupt ==> (
            final(hw).scheduler.cycle == old(hw).scheduler.cycle + 3
            )),
            spec_cond_passes((old(self).instr_buffer0 >> 28) & 0xF, old(self).regs@.cpsr)
                ==> (spec_decode(spec_key_of(old(self).instr_buffer0)) matches InstrKind::SoftwareInterrupt ==> (
            final(self).regs@ == (RegsV {
                pc: 12u32,
                ..spec_step_regs(old(self).regs@).with_spsr_of(Mode::SVC, spec_step_regs(old(self).regs@).cpsr).with_mode(
                    Mode::SVC,
                ).with_reg(14, wrap32(spec_step_regs(old(self).regs@).pc - 4)).with_i(true)
            })
            )),
            spec_cond_passes((old(self).instr_buffer0 >> 28) & 0xF, old(self).regs@.cpsr)
                ==> (spec_decode(spec_key_of(old(self).instr_buffer0)) matches InstrKind::SoftwareInterrupt ==> (
            r is Ok
            )),
            spec_cond_passes((old(self).instr_buffer0 >> 28) & 0xF, old(self).regs@.cpsr)
                ==> (spec_decode(spec_key_of(old(self).instr_buffer0)) matches InstrKind::MulMula { a, s } ==> (
            HW::eq_but_cycle(*old(hw), *final(hw))
            )),
            spec_cond_passes((old(self).instr_buffer0 >> 28) & 0xF, old(self).regs@.cpsr)
                ==> (spec_decode(spec_key_of(old(self).instr_buffer0)) matches InstrKind::MulMula { a, s } ==> (
            r is Ok || r == Err::<(), Fault>(Fault::Malformed)
            )),
            spec_cond_passes((old(self).instr_buffer0 >> 28) & 0xF, old(self).regs@.cpsr)
                ==> (spec_decode(spec_key_of(old(self).instr_buffer0)) matches InstrKind::MulMula { a, s } ==> (
            r is Err <==> !a && ((old(self).instr_buffer0) >> 12) & 0xF != 0
            )),
            spec_cond_passes((old(self).instr_buffer0 >> 28) & 0xF, old(self).regs@.cpsr)
                ==> (spec_decode(spec_key_of(old(self).instr_buffer0)) matches InstrKind::MulMula { a, s } ==> (
            r is Err ==> r == Err::<(), Fault>(Fault::Malformed) && final(self).regs@ == spec_step_regs(old(self).regs@) && final(hw).scheduler.cycle == old(hw).scheduler.cycle + 1 + spec_mul_clocks(
                spec_step_regs(old(self).regs@).reg((((old(self).instr_buffer0) >> 8) & 0xF) as int),
                true,
            )
            )),
            spec_cond_passes((old(self).instr_buffer0 >> 28) & 0xF, old(self).regs@.cpsr)
                ==> (spec_decode(spec_key_of(old(self).instr_buffer0)) matches InstrKind::MulMula { a, s } ==> (
            r is Ok ==> ({
                let op1 = spec_step_regs(old(self).regs@).reg((((old(self).instr_buffer0) >> 12) & 0xF) as int);
                let op2 = spec_step_regs(old(self).regs@).reg((((old(self).instr_buffer0) >> 8) & 0xF) as int);
                let op3 = spec_step_regs(old(self).regs@).reg(((old(self).instr_buffer0) & 0xF) as int);
                let result = vstd::wrapping::u32_specs::wrapping_add(
                    vstd::wrapping::u32_specs::wrapping_mul(op2, op3),
                    (if a {
                        op1
                    } else {
                        0u32
                    }),
                );
                let flagged = if s {
                    spec_step_regs(old(self).regs@).with_n(result & 0x8000_0000 != 0).with_z(result == 0)
                } else {
                    spec_step_regs(old(self).regs@)
                };
                &&& final(self).regs@ == flagged.with_reg((((old(self).instr_buffer0) >> 16) & 0xF) as int, result)
                &&& final(hw).scheduler.cycle == old(hw).scheduler.cycle + 1 + spec_mul_clocks(
                    op2,
                    true,
                ) + (if a {
                    1int
                } else {
                    0int
                })
            })
            )),
            spec_cond_passes((old(self).instr_buffer0 >> 28) & 0xF, old(self).regs@.cpsr)
                ==> (spec_decode(spec_key_of(old(self).instr_buffer0)) matches InstrKind::MulLong { u, a, s } ==> (
            HW::eq_but_cycle(*old(hw), *final(hw))
            )),
            spec_cond_passes((old(self).instr_buffer0 >> 28) & 0xF, old(self).regs@.cpsr)
                ==> (spec_decode(spec_key_of(old(self).instr_buffer0)) matches InstrKind::MulLong { u, a, s } ==> (
            ({
                let rhi = (((old(self).instr_buffer0) >> 16) & 0xF) as int;
                let rlo = (((old(self).instr_buffer0) >> 12) & 0xF) as int;
                let op1 = spec_step_regs(old(self).regs@).reg((((old(self).instr_buffer0) >> 8) & 0xF) as int);
                let op2 = spec_step_regs(old(self).regs@).reg(((old(self).instr_buffer0) & 0xF) as int);
                let result = spec_mul_long_result(
                    op1,
                    op2,
                    u,
                    a,
                    spec_step_regs(old(self).regs@).reg(rhi),
                    spec_step_regs(old(self).regs@).reg(rlo),
                );
                let flagged = if s {
                    spec_step_regs(old(self).regs@).with_n(result & 0x8000_0000_0000_0000 != 0).with_z(result == 0)
                } else {
                    spec_step_regs(old(self).regs@)
                };
                &&& final(self).regs@ == flagged.with_reg(rlo, result as u32).with_reg(
                    rhi,
                    (result >> 32) as u32,
                )
                &&& final(hw).scheduler.cycle == old(hw).scheduler.cycle + 2 + spec_mul_clocks(
                    op1,
                    u,
                ) + (if a {
                    1int
                } else {
                    0int
                })
            })
            )),
            spec_cond_passes((old(self).instr_buffer0 >> 28) & 0xF, old(self).regs@.cpsr)
                ==> (spec_decode(spec_key_of(old(self).instr_buffer0)) matches InstrKind::MulLong { u, a, s } ==> (
            r is Ok
            )),
            spec_cond_passes((old(self).instr_buffer0 >> 28) & 0xF, old(self).regs@.cpsr)
                ==> (spec_decode(spec_key_of(old(self).instr_buffer0)) matches InstrKind::PsrTransfer { i, p, l } ==> (
            r is Ok || r == Err::<(), Fault>(Fault::Malformed) || r == Err::<(), Fault>(
                Fault::InvalidMode,
            )
            )),
            spec_cond_passes((old(self).instr_buffer0 >> 28) & 0xF, old(self).regs@.cpsr)
                ==> (spec_decode(spec_key_of(old(self).instr_buffer0)) matches InstrKind::PsrTransfer { i, p, l } ==> (
            HW::eq_but_cycle(*old(hw), *final(hw))
            )),
            spec_cond_passes((old(self).instr_buffer0 >> 28) & 0xF, old(self).regs@.cpsr)
                ==> (spec_decode(spec_key_of(old(self).instr_buffer0)) matches InstrKind::PsrTransfer { i, p, l } ==> (
            final(hw).scheduler.cycle == old(hw).scheduler.cycle + 1
            )),
            spec_cond_passes((old(self).instr_buffer0 >> 28) & 0xF, old(self).regs@.cpsr)
                ==> (spec_decode(spec_key_of(old(self).instr_buffer0)) matches InstrKind::PsrTransfer { i, p, l } ==> (
            r is Err ==> final(self).regs@ == spec_step_regs(old(self).regs@)
            )),
            spec_cond_passes((old(self).instr_buffer0 >> 28) & 0xF, old(self).regs@.cpsr)
                ==> (spec_decode(spec_key_of(old(self).instr_buffer0)) matches InstrKind::PsrTransfer { i, p, l } ==> (
            l ==> ({
                let malformed = ((old(self).instr_buffer0) >> 12) & 0xF != 0xF || (!i && ((old(self).instr_buffer0) >> 4) & 0xFF != 0);
                let v = spec_msr_value(spec_step_regs(old(self).regs@), (old(self).instr_buffer0), i, p);
                &&& (malformed ==> r == Err::<(), Fault>(Fault::Malformed))
                &&& (!malformed && p ==> r is Ok && final(self).regs@ == spec_step_regs(old(self).regs@).with_spsr(v))
                &&& (!malformed && !p && (spec_mode_from_bits(v & 0x1F) is Some) ==> r is Ok
                    && final(self).regs@ == (RegsV { cpsr: v, ..spec_step_regs(old(self).regs@) }))
                &&& (!malformed && !p && (spec_mode_from_bits(v & 0x1F) is None) ==> r == Err::<
                    (),
                    Fault,
                >(Fault::InvalidMode))
            })
            )),
            spec_cond_passes((old(self).instr_buffer0 >> 28) & 0xF, old(self).regs@.cpsr)
                ==> (spec_decode(spec_key_of(old(self).instr_buffer0)) matches InstrKind::PsrTransfer { i, p, l } ==> (
            !l ==> ({
                let malformed = i || ((old(self).instr_buffer0) & 0xFFF) != 0;
                &&& (malformed ==> r == Err::<(), Fault>(Fault::Malformed))
                &&& (!malformed ==> r is Ok && final(self).regs@ == spec_step_regs(old(self).regs@).with_reg(
                    (((old(self).instr_buffer0) >> 12) & 0xF) as int,
                    (if p {
                        spec_step_regs(old(self).regs@).spsr()
                    } else {
                        spec_step_regs(old(self).regs@).cpsr
                    }),
                ))
            })
            )),
            spec_cond_passes((old(self).instr_buffer0 >> 28) & 0xF, old(self).regs@.cpsr)
                ==> (spec_decode(spec_key_of(old(self).instr_buffer0)) matches InstrKind::DataProc { i, s } ==> (
            HW::eq_but_cycle(*old(hw), *final(hw))
            )),
            spec_cond_passes((old(self).instr_buffer0 >> 28) & 0xF, old(self).regs@.cpsr)
                ==> (spec_decode(spec_key_of(old(self).instr_buffer0)) matches InstrKind::DataProc { i, s } ==> (
            r is Ok || r == Err::<(), Fault>(Fault::InvalidMode)
            )),
            spec_cond_passes((old(self).instr_buffer0 >> 28) & 0xF, old(self).regs@.cpsr)
                ==> (spec_decode(spec_key_of(old(self).instr_buffer0)) matches InstrKind::DataProc { i, s } ==> (
            ({
                let o = spec_data_proc(spec_step_regs(old(self).regs@), (old(self).instr_buffer0), i, s);
                let special = ((old(self).instr_buffer0) >> 12) & 0xF == 15 && s;
                let restore_bad = special && (spec_mode_from_bits(spec_step_regs(old(self).regs@).spsr() & 0x1F)
                    is None);
                let base = if o.reg_shift {
                    1int
                } else {
                    0int
                };
                &&& (restore_bad <==> r == Err::<(), Fault>(Fault::InvalidMode))
                &&& (restore_bad ==> final(self).regs@ == spec_step_regs(old(self).regs@) && final(hw).scheduler.cycle == old(hw).scheduler.cycle + base)
                &&& (!restore_bad && o.writes_pc ==> ({
                    let width_pc = if crate::regs::cpsr_t(o.cpsr) {
                        wrap32((o.result & 0xFFFF_FFFE) + 2)
                    } else {
                        wrap32((o.result & 0xFFFF_FFFC) + 4)
                    };
                    final(self).regs@ == (RegsV {
                        cpsr: o.cpsr,
                        pc: width_pc,
                        ..spec_step_regs(old(self).regs@)
                    }) && final(hw).scheduler.cycle == old(hw).scheduler.cycle + base + 3
                }))
                &&& (!restore_bad && o.writes_reg && !o.writes_pc ==> final(self).regs@ == (RegsV {
                    cpsr: o.cpsr,
                    ..spec_step_regs(old(self).regs@)
                }).with_reg(o.dest as int, o.result) && final(hw).scheduler.cycle == old(hw).scheduler.cycle + base + 1)
                &&& (!restore_bad && !o.writes_reg ==> final(self).regs@ == (RegsV {
                    cpsr: o.cpsr,
                    ..spec_step_regs(old(self).regs@)
                }) && final(hw).scheduler.cycle == old(hw).scheduler.cycle + base + 1)
            })
            )),
            spec_cond_passes((old(self).instr_buffer0 >> 28) & 0xF, old(self).regs@.cpsr)
                ==> (spec_decode(spec_key_of(old(self).instr_buffer0)) matches InstrKind::SingleDataTransfer { i, p, u, b, w, l } ==> (
            r is Ok || r == Err::<(), Fault>(Fault::Malformed)
            )),
            spec_cond_passes((old(self).instr_buffer0 >> 28) & 0xF, old(self).regs@.cpsr)
                ==> (spec_decode(spec_key_of(old(self).instr_buffer0)) matches InstrKind::SingleDataTransfer { i, p, u, b, w, l } ==> (
            ({
                let malformed = (i && (((old(self).instr_buffer0) >> 4) & 1 != 0 || (old(self).instr_buffer0) & 0xF == 15)) || (!p && ((old(self).instr_buffer0)
                    >> 21) & 1 != 0);
                malformed <==> r == Err::<(), Fault>(Fault::Malformed)
            })
            )),
            spec_cond_passes((old(self).instr_buffer0 >> 28) & 0xF, old(self).regs@.cpsr)
                ==> (spec_decode(spec_key_of(old(self).instr_buffer0)) matches InstrKind::SingleDataTransfer { i, p, u, b, w, l } ==> (
            ({
                let malformed = (i && (((old(self).instr_buffer0) >> 4) & 1 != 0 || (old(self).instr_buffer0) & 0xF == 15)) || (!p && ((old(self).instr_buffer0)
                    >> 21) & 1 != 0);
                malformed ==> final(self).regs@ == spec_step_regs(old(self).regs@) && HW::eq_but_cycle(
                    *old(hw),
                    *final(hw),
                ) && final(hw).scheduler.cycle == old(hw).scheduler.cycle + 1
            })
            )),
            spec_cond_passes((old(self).instr_buffer0 >> 28) & 0xF, old(self).regs@.cpsr)
                ==> (spec_decode(spec_key_of(old(self).instr_buffer0)) matches InstrKind::SingleDataTransfer { i, p, u, b, w, l } ==> (
            ({
                let malformed = (i && (((old(self).instr_buffer0) >> 4) & 1 != 0 || (old(self).instr_buffer0) & 0xF == 15)) || (!p && ((old(self).instr_buffer0)
                    >> 21) & 1 != 0);
                let base = spec_step_regs(old(self).regs@).reg((((old(self).instr_buffer0) >> 16) & 0xF) as int);
                let offset = spec_sdt_offset(spec_step_regs(old(self).regs@), (old(self).instr_buffer0), i);
                let oa = if u {
                    wrap32(base + offset)
                } else {
                    wrap32(base - offset)
                };
                let addr = if p {
                    oa
                } else {
                    base
                };
                let dest = (((old(self).instr_buffer0) >> 12) & 0xF) as int;
                let stored = if dest == 15 {
                    wrap32(spec_step_regs(old(self).regs@).reg(15) + 4)
                } else {
                    spec_step_regs(old(self).regs@).reg(dest)
                };
                let ww = if b {
                    Width::Byte
                } else {
                    Width::Word
                };
                let wa = if b {
                    addr
                } else {
                    addr & 0xFFFF_FFFC
                };
                !malformed && !l ==> crate::mem::spec_timed_write_n(
                    *old(hw),
                    *final(hw),
                    2,
                    ww,
                    wa,
                    stored,
                )
            })
            )),
            spec_cond_passes((old(self).instr_buffer0 >> 28) & 0xF, old(self).regs@.cpsr)
                ==> (spec_decode(spec_key_of(old(self).instr_buffer0)) matches InstrKind::SingleDataTransfer { i, p, u, b, w, l } ==> (
            ({
                let malformed = (i && (((old(self).instr_buffer0) >> 4) & 1 != 0 || (old(self).instr_buffer0) & 0xF == 15)) || (!p && ((old(self).instr_buffer0)
                    >> 21) & 1 != 0);
                let base = spec_step_regs(old(self).regs@).reg((((old(self).instr_buffer0) >> 16) & 0xF) as int);
                let offset = spec_sdt_offset(spec_step_regs(old(self).regs@), (old(self).instr_buffer0), i);
                let oa = if u {
                    wrap32(base + offset)
                } else {
                    wrap32(base - offset)
                };
                let addr = if p {
                    oa
                } else {
                    base
                };
                let dest = (((old(self).instr_buffer0) >> 12) & 0xF) as int;
                let wb = (w || !p) && !(l && dest == (((old(self).instr_buffer0) >> 16) & 0xF) as int);
                let value = if b {
                    old(hw).spec_read_at(
                        Width::Byte,
                        addr,
                        (old(hw).scheduler.cycle + 2) as usize,
                    )
                } else {
                    spec_ror32(
                        old(hw).spec_read_at(
                            Width::Word,
                            addr & 0xFFFF_FFFC,
                            (old(hw).scheduler.cycle + 2) as usize,
                        ),
                        (((addr & 3) * 8) as u32),
                    )
                };
                let r1 = spec_step_regs(old(self).regs@).with_reg(dest, value);
                let r2 = if dest == 15 {
                    RegsV { pc: wrap32((value & 0xFFFF_FFFC) + 4), ..r1 }
                } else {
                    r1
                };
                let r3 = if wb {
                    r2.with_reg((((old(self).instr_buffer0) >> 16) & 0xF) as int, oa)
                } else {
                    r2
                };
                !malformed && l ==> final(self).regs@ == r3
            })
            )),
            spec_cond_passes((old(self).instr_buffer0 >> 28) & 0xF, old(self).regs@.cpsr)
                ==> (spec_decode(spec_key_of(old(self).instr_buffer0)) matches InstrKind::SingleDataTransfer { i, p, u, b, w, l } ==> (
            ({
                let malformed = (i && (((old(self).instr_buffer0) >> 4) & 1 != 0 || (old(self).instr_buffer0) & 0xF == 15)) || (!p && ((old(self).instr_buffer0)
                    >> 21) & 1 != 0);
                !malformed && l ==> HW::eq_but_cycle(*old(hw), *final(hw))
            })
            )),
            spec_cond_passes((old(self).instr_buffer0 >> 28) & 0xF, old(self).regs@.cpsr)
                ==> (spec_decode(spec_key_of(old(self).instr_buffer0)) matches InstrKind::SingleDataTransfer { i, p, u, b, w, l } ==> (
            ({
                let malformed = (i && (((old(self).instr_buffer0) >> 4) & 1 != 0 || (old(self).instr_buffer0) & 0xF == 15)) || (!p && ((old(self).instr_buffer0)
                    >> 21) & 1 != 0);
                let dest = (((old(self).instr_buffer0) >> 12) & 0xF) as int;
                !malformed && l ==> final(hw).scheduler.cycle == old(hw).scheduler.cycle + 3 + (
                if dest == 15 {
                    2int
                } else {
                    0int
                })
            })
            )),
            spec_cond_passes((old(self).instr_buffer0 >> 28) & 0xF, old(self).regs@.cpsr)
                ==> (spec_decode(spec_key_of(old(self).instr_buffer0)) matches InstrKind::SingleDataTransfer { i, p, u, b, w, l } ==> (
            ({
                let malformed = (i && (((old(self).instr_buffer0) >> 4) & 1 != 0 || (old(self).instr_buffer0) & 0xF == 15)) || (!p && ((old(self).instr_buffer0)
                    >> 21) & 1 != 0);
                let base = spec_step_regs(old(self).regs@).reg((((old(self).instr_buffer0) >> 16) & 0xF) as int);
                let offset = spec_sdt_offset(spec_step_regs(old(self).regs@), (old(self).instr_buffer0), i);
                let oa = if u {
                    wrap32(base + offset)
                } else {
                    wrap32(base - offset)
                };
                let wb = w || !p;
                !malformed && !l ==> final(self).regs@ == (if wb {
                    spec_step_regs(old(self).regs@).with_reg((((old(self).instr_buffer0) >> 16) & 0xF) as int, oa)
                } else {
                    spec_step_regs(old(self).regs@)
                })
            })
            )),
            spec_cond_passes((old(self).instr_buffer0 >> 28) & 0xF, old(self).regs@.cpsr)
                ==> (spec_decode(spec_key_of(old(self).instr_buffer0)) matches InstrKind::SingleDataTransfer { i, p, u, b, w, l } ==> (
            ({
                let malformed = (i && (((old(self).instr_buffer0) >> 4) & 1 != 0 || (old(self).instr_buffer0) & 0xF == 15)) || (!p && ((old(self).instr_buffer0)
                    >> 21) & 1 != 0);
                !malformed && !l ==> final(hw).scheduler.cycle == old(hw).scheduler.cycle + 2
            })
            )),
            spec_cond_passes((old(self).instr_buffer0 >> 28) & 0xF, old(self).regs@.cpsr)
                ==> (spec_decode(spec_key_of(old(self).instr_buffer0)) matches InstrKind::HalfwordAndSignedDataTransfer { p, u, i, w, l, s, h } ==> (
            r is Ok || r == Err::<(), Fault>(Fault::Malformed)
            )),
            spec_cond_passes((old(self).instr_buffer0 >> 28) & 0xF, old(self).regs@.cpsr)
                ==> (spec_decode(spec_key_of(old(self).instr_buffer0)) matches InstrKind::HalfwordAndSignedDataTransfer { p, u, i, w, l, s, h } ==> (
            ({
                let malformed = (!i && ((old(self).instr_buffer0) >> 8) & 0xF != 0) || (!s && !h) || (!l && (
                s || !h));
                malformed <==> r == Err::<(), Fault>(Fault::Malformed)
            })
            )),
            spec_cond_passes((old(self).instr_buffer0 >> 28) & 0xF, old(self).regs@.cpsr)
                ==> (spec_decode(spec_key_of(old(self).instr_buffer0)) matches InstrKind::HalfwordAndSignedDataTransfer { p, u, i, w, l, s, h } ==> (
            ({
                let malformed = (!i && ((old(self).instr_buffer0) >> 8) & 0xF != 0) || (!s && !h) || (!l && (
                s || !h));
                let base = spec_step_regs(old(self).regs@).reg((((old(self).instr_buffer0) >> 16) & 0xF) as int);
                let offset = if i {
                    (((old(self).instr_buffer0) >> 8) & 0xF) << 4 | ((old(self).instr_buffer0) & 0xF)
                } else {
                    spec_step_regs(old(self).regs@).reg(((old(self).instr_buffer0) & 0xF) as int)
                };
                let oa = if u {
                    wrap32(base + offset)
                } else {
                    wrap32(base - offset)
                };
                let addr = if p {
                    oa
                } else {
                    base
                };
                let stored = (spec_step_regs(old(self).regs@).reg((((old(self).instr_buffer0) >> 12) & 0xF) as int) & 0xFFFF) as u32;
                !malformed && !l ==> crate::mem::spec_timed_write_n(
                    *old(hw),
                    *final(hw),
                    2,
                    Width::Half,
                    addr & 0xFFFF_FFFE,
                    stored,
                )
            })
            )),
            spec_cond_passes((old(self).instr_buffer0 >> 28) & 0xF, old(self).regs@.cpsr)
                ==> (spec_decode(spec_key_of(old(self).instr_buffer0)) matches InstrKind::HalfwordAndSignedDataTransfer { p, u, i, w, l, s, h } ==> (
            ({
                let malformed = (!i && ((old(self).instr_buffer0) >> 8) & 0xF != 0) || (!s && !h) || (!l && (
                s || !h));
                malformed ==> final(self).regs@ == spec_step_regs(old(self).regs@) && HW::eq_but_cycle(
                    *old(hw),
                    *final(hw),
                ) && final(hw).scheduler.cycle == old(hw).scheduler.cycle + 1
            })
            )),
            spec_cond_passes((old(self).instr_buffer0 >> 28) & 0xF, old(self).regs@.cpsr)
                ==> (spec_decode(spec_key_of(old(self).instr_buffer0)) matches InstrKind::HalfwordAndSignedDataTransfer { p, u, i, w, l, s, h } ==> (
            ({
                let malformed = (!i && ((old(self).instr_buffer0) >> 8) & 0xF != 0) || (!s && !h) || (!l && (
                s || !h));
                let base = spec_step_regs(old(self).regs@).reg((((old(self).instr_buffer0) >> 16) & 0xF) as int);
                let offset = if i {
                    (((old(self).instr_buffer0) >> 8) & 0xF) << 4 | ((old(self).instr_buffer0) & 0xF)
                } else {
                    spec_step_regs(old(self).regs@).reg(((old(self).instr_buffer0) & 0xF) as int)
                };
                let oa = if u {
                    wrap32(base + offset)
                } else {
                    wrap32(base - offset)
                };
                let addr = if p {
                    oa
                } else {
                    base
                };
                let dest = (((old(self).instr_buffer0) >> 12) & 0xF) as int;
                let wb = (w || !p) && !(dest == (((old(self).instr_buffer0) >> 16) & 0xF) as int);
                let value = spec_hsdt_value(
                    *old(hw),
                    s,
                    h,
                    addr,
                    (old(hw).scheduler.cycle + 2) as usize,
                );
                let r1 = spec_step_regs(old(self).regs@).with_reg(dest, value);
                let r2 = if dest == 15 {
                    RegsV { pc: wrap32((value & 0xFFFF_FFFC) + 4), ..r1 }
                } else {
                    r1
                };
                let r3 = if wb {
                    r2.with_reg((((old(self).instr_buffer0) >> 16) & 0xF) as int, oa)
                } else {
                    r2
                };
                !malformed && l ==> final(self).regs@ == r3
            })
            )),
            spec_cond_passes((old(self).instr_buffer0 >> 28) & 0xF, old(self).regs@.cpsr)
                ==> (spec_decode(spec_key_of(old(self).instr_buffer0)) matches InstrKind::HalfwordAndSignedDataTransfer { p, u, i, w, l, s, h } ==> (
            ({
                let malformed = (!i && ((old(self).instr_buffer0) >> 8) & 0xF != 0) || (!s && !h) || (!l && (
                s || !h));
                !malformed && l ==> HW::eq_but_cycle(*old(hw), *final(hw))
            })
            )),
            spec_cond_passes((old(self).instr_buffer0 >> 28) & 0xF, old(self).regs@.cpsr)
                ==> (spec_decode(spec_key_of(old(self).instr_buffer0)) matches InstrKind::HalfwordAndSignedDataTransfer { p, u, i, w, l, s, h } ==> (
            ({
                let malformed = (!i && ((old(self).instr_buffer0) >> 8) & 0xF != 0) || (!s && !h) || (!l && (
                s || !h));
                let dest = (((old(self).instr_buffer0) >> 12) & 0xF) as int;
                !malformed && l ==> final(hw).scheduler.cycle == old(hw).scheduler.cycle + 3 + (
                if dest == 15 {
                    2int
                } else {
                    0int
                })
            })
            )),
            spec_cond_passes((old(self).instr_buffer0 >> 28) & 0xF, old(self).regs@.cpsr)
                ==> (spec_decode(spec_key_of(old(self).instr_buffer0)) matches InstrKind::HalfwordAndSignedDataTransfer { p, u, i, w, l, s, h } ==> (
            ({
                let malformed = (!i && ((old(self).instr_buffer0) >> 8) & 0xF != 0) || (!s && !h) || (!l && (
                s || !h));
                let base = spec_step_regs(old(self).regs@).reg((((old(self).instr_buffer0) >> 16) & 0xF) as int);
                let offset = if i {
                    (((old(self).instr_buffer0) >> 8) & 0xF) << 4 | ((old(self).instr_buffer0) & 0xF)
                } else {
                    spec_step_regs(old(self).regs@).reg(((old(self).instr_buffer0) & 0xF) as int)
                };
                let oa = if u {
                    wrap32(base + offset)
                } else {
                    wrap32(base - offset)
                };
                let wb = w || !p;
                !malformed && !l ==> final(self).regs@ == (if wb {
                    spec_step_regs(old(self).regs@).with_reg((((old(self).instr_buffer0) >> 16) & 0xF) as int, oa)
                } else {
                    spec_step_regs(old(self).regs@)
                }) && final(hw).scheduler.cycle == old(hw).scheduler.cycle + 2
            })
            )),
            spec_cond_passes((old(self).instr_buffer0 >> 28) & 0xF, old(self).regs@.cpsr)
                ==> (spec_decode(spec_key_of(old(self).instr_buffer0)) matches InstrKind::SingleDataSwap { b } ==> (
            (((old(self).instr_buffer0) >> 20) & 0x3 != 0 || ((old(self).instr_buffer0) >> 8) & 0xF != 0) <==> r == Err::<(), Fault>(
                Fault::Malformed,
            )
            )),
            spec_cond_passes((old(self).instr_buffer0 >> 28) & 0xF, old(self).regs@.cpsr)
                ==> (spec_decode(spec_key_of(old(self).instr_buffer0)) matches InstrKind::SingleDataSwap { b } ==> (
            r is Ok || r == Err::<(), Fault>(Fault::Malformed)
            )),
            spec_cond_passes((old(self).instr_buffer0 >> 28) & 0xF, old(self).regs@.cpsr)
                ==> (spec_decode(spec_key_of(old(self).instr_buffer0)) matches InstrKind::SingleDataSwap { b } ==> (
            r is Err ==> final(self).regs@ == spec_step_regs(old(self).regs@) && final(self).instr_buffer0 == old(self).instr_buffer1 && *final(hw) == *old(hw)
            )),
            spec_cond_passes((old(self).instr_buffer0 >> 28) & 0xF, old(self).regs@.cpsr)
                ==> (spec_decode(spec_key_of(old(self).instr_buffer0)) matches InstrKind::SingleDataSwap { b } ==> (
            r is Ok ==> final(hw).scheduler.cycle == old(hw).scheduler.cycle + 4
            )),
            spec_cond_passes((old(self).instr_buffer0 >> 28) & 0xF, old(self).regs@.cpsr)
                ==> (spec_decode(spec_key_of(old(self).instr_buffer0)) matches InstrKind::SingleDataSwap { b } ==> (
            r is Ok ==> ({
                let base = spec_step_regs(old(self).regs@).reg((((old(self).instr_buffer0) >> 16) & 0xF) as int);
                let srcv = spec_step_regs(old(self).regs@).reg(((old(self).instr_buffer0) & 0xF) as int);
                let ww = if b {
                    Width::Byte
                } else {
                    Width::Word
                };
                let wa = if b {
                    base
                } else {
                    base & 0xFFFF_FFFC
                };
                crate::mem::spec_timed_write_then(*old(hw), *final(hw), 3, 1, ww, wa, srcv)
            })
            )),
            spec_cond_passes((old(self).instr_buffer0 >> 28) & 0xF, old(self).regs@.cpsr)
                ==> (spec_decode(spec_key_of(old(self).instr_buffer0)) matches InstrKind::SingleDataSwap { b } ==> (
            r is Ok ==> ({
                let base = spec_step_regs(old(self).regs@).reg((((old(self).instr_buffer0) >> 16) & 0xF) as int);
                let value = if b {
                    old(hw).spec_read_at(
                        Width::Byte,
                        base,
                        (old(hw).scheduler.cycle + 2) as usize,
                    )
                } else {
                    spec_ror32(
                        old(hw).spec_read_at(
                            Width::Word,
                            base & 0xFFFF_FFFC,
                            (old(hw).scheduler.cycle + 2) as usize,
                        ),
                        (((base & 3) * 8) as u32),
                    )
                };
                final(self).regs@ == spec_step_regs(old(self).regs@).with_reg((((old(self).instr_buffer0) >> 12) & 0xF) as int, value)
            })
            )),
            spec_cond_passes((old(self).instr_buffer0 >> 28) & 0xF, old(self).regs@.cpsr)
                ==> (spec_decode(spec_key_of(old(self).instr_buffer0)) matches InstrKind::BlockDataTransfer { p, u, s, w, l } ==> (
            r is Ok || r == Err::<(), Fault>(Fault::Malformed) || r == Err::<(), Fault>(
                Fault::InvalidMode,
            )
            )),
            spec_cond_passes((old(self).instr_buffer0 >> 28) & 0xF, old(self).regs@.cpsr)
                ==> (spec_decode(spec_key_of(old(self).instr_buffer0)) matches InstrKind::BlockDataTransfer { p, u, s, w, l } ==> (
            (((old(self).instr_buffer0) >> 16) & 0xF == 15 <==> r == Err::<(), Fault>(Fault::Malformed))
            )),
            spec_cond_passes((old(self).instr_buffer0 >> 28) & 0xF, old(self).regs@.cpsr)
                ==> (spec_decode(spec_key_of(old(self).instr_buffer0)) matches InstrKind::BlockDataTransfer { p, u, s, w, l } ==> (
            ((old(self).instr_buffer0) >> 16) & 0xF == 15 ==> final(self).regs@ == spec_step_regs(old(self).regs@) && *final(hw) == *old(hw)
            )),
            spec_cond_passes((old(self).instr_buffer0 >> 28) & 0xF, old(self).regs@.cpsr)
                ==> (spec_decode(spec_key_of(old(self).instr_buffer0)) matches InstrKind::BlockDataTransfer { p, u, s, w, l } ==> (
            r == Err::<(), Fault>(Fault::InvalidMode) ==> l && s
            )),
            spec_cond_passes((old(self).instr_buffer0 >> 28) & 0xF, old(self).regs@.cpsr)
                ==> (spec_decode(spec_key_of(old(self).instr_buffer0)) matches InstrKind::BlockDataTransfer { p, u, s, w, l } ==> (
            l && ((old(self).instr_buffer0) >> 16) & 0xF != 15 ==> HW::eq_but_cycle(*old(hw), *final(hw))
            )),
            spec_cond_passes((old(self).instr_buffer0 >> 28) & 0xF, old(self).regs@.cpsr)
                ==> (spec_decode(spec_key_of(old(self).instr_buffer0)) matches InstrKind::BlockDataTransfer { p, u, s, w, l } ==> (
            ({
                // The defined empty-list store: one word — the program
                // counter's value plus four — at the base displaced by 0x40
                // in the transfer direction, and the base moved the same way.
                let base_reg = (((old(self).instr_buffer0) >> 16) & 0xF) as int;
                let base = spec_step_regs(old(self).regs@).reg(base_reg);
                let aligned = (base - (base & 3)) as u32;
                let taddr = if u {
                    wrap32(aligned + 0x40)
                } else {
                    wrap32(aligned - 0x40)
                };
                let moved = if u {
                    wrap32(base + 0x40)
                } else {
                    wrap32(base - 0x40)
                };
                (old(self).instr_buffer0) & 0xFFFF == 0 && base_reg != 15 && !l && !s ==> r is Ok && final(self).regs@ == (if w {
                    spec_step_regs(old(self).regs@).with_reg(base_reg, moved)
                } else {
                    spec_step_regs(old(self).regs@)
                }) && final(hw).scheduler.cycle == old(hw).scheduler.cycle + 2
                    && crate::mem::spec_timed_write_n(
                    *old(hw),
                    *final(hw),
                    2,
                    Width::Word,
                    taddr,
                    wrap32(spec_step_regs(old(self).regs@).reg(15) + 4),
                )
            })
            )),
            spec_cond_passes((old(self).instr_buffer0 >> 28) & 0xF, old(self).regs@.cpsr)
                ==> (spec_decode(spec_key_of(old(self).instr_buffer0)) matches InstrKind::BlockDataTransfer { p, u, s, w, l } ==> (
            (old(self).instr_buffer0) & 0xFFFF == 0 && ((old(self).instr_buffer0) >> 16) & 0xF != 15 && l && !s ==> r is Ok && final(hw).scheduler.cycle == old(hw).scheduler.cycle + 5
            )),
            spec_cond_passes((old(self).instr_buffer0 >> 28) & 0xF, old(self).regs@.cpsr)
                ==> (spec_decode(spec_key_of(old(self).instr_buffer0)) matches InstrKind::BlockDataTransfer { p, u, s, w, l } ==> (
            ({
                // The defined empty-list load: register 15 takes the word at
                // the displaced base, the pipeline refills, and the base
                // moves by exactly 0x40.
                let base_reg = (((old(self).instr_buffer0) >> 16) & 0xF) as int;
                let base = spec_step_regs(old(self).regs@).reg(base_reg);
                let aligned = (base - (base & 3)) as u32;
                let taddr = if u {
                    wrap32(aligned + 0x40)
                } else {
                    wrap32(aligned - 0x40)
                };
                let moved = if u {
                    wrap32(base + 0x40)
                } else {
                    wrap32(base - 0x40)
                };
                let value = spec_ror32(
                    old(hw).spec_read_at(
                        Width::Word,
                        taddr & 0xFFFF_FFFC,
                        (old(hw).scheduler.cycle + 2) as usize,
                    ),
                    (((taddr & 3) * 8) as u32),
                );
                let r1 = spec_step_regs(old(self).regs@).with_reg(15, value);
                let r2 = if w {
                    r1.with_reg(base_reg, moved)
                } else {
                    r1
                };
                (old(self).instr_buffer0) & 0xFFFF == 0 && base_reg != 15 && l && !s ==> final(self).regs@
                    == (RegsV { pc: wrap32((value & 0xFFFF_FFFC) + 4), ..r2 })
            })
            )),
            spec_cond_passes((old(self).instr_buffer0 >> 28) & 0xF, old(self).regs@.cpsr)
                ==> (spec_decode(spec_key_of(old(self).instr_buffer0)) matches InstrKind::BlockDataTransfer { p, u, s, w, l } ==> (
            ({
                // A non-empty load: the register file is the ascending-order
                // fold of the listed loads — banked through the user
                // registers when the force-user bit applies — with the
                // pre-instruction mode field back in place at the end.
                let base_reg = (((old(self).instr_buffer0) >> 16) & 0xF) as int;
                let list = ((old(self).instr_buffer0) & 0xFFFF) as u16;
                let base = spec_step_regs(old(self).regs@).reg(base_reg);
                let aligned = base - (base & 3);
                let n = spec_ones16(list);
                let bit15 = (list >> 15) & 1 != 0;
                let init = if s && !bit15 {
                    spec_step_regs(old(self).regs@).with_mode(Mode::USR)
                } else {
                    spec_step_regs(old(self).regs@)
                };
                let wb = w && !((list >> ((((old(self).instr_buffer0) >> 16) & 0xF) as u32)) & 1 != 0);
                let slot0 = if u {
                    aligned
                } else {
                    aligned - 4 * n
                };
                let fa = if u {
                    wrap32(aligned + 4 * n + (base & 3))
                } else {
                    wrap32(aligned - 4 * n + (base & 3))
                };
                let pre_off = p != !u;
                let restore_bad = s && bit15 && (spec_mode_from_bits(spec_step_regs(old(self).regs@).spsr() & 0x1F)
                    is None);
                l && list != 0 && base_reg != 15 && !restore_bad ==> r is Ok && final(self).regs@
                    == spec_block_loads_from(
                    init,
                    *old(hw),
                    list,
                    0,
                    slot0,
                    old(hw).scheduler.cycle + 2,
                    pre_off,
                    wb,
                    base_reg,
                    fa,
                    s && bit15,
                ).with_mode(spec_step_regs(old(self).regs@).mode()) && final(hw).scheduler.cycle == old(hw).scheduler.cycle + 2 + n + (if bit15 {
                    2int
                } else {
                    0int
                })
            })
            )),
            spec_cond_passes((old(self).instr_buffer0 >> 28) & 0xF, old(self).regs@.cpsr)
                ==> (spec_decode(spec_key_of(old(self).instr_buffer0)) matches InstrKind::BlockDataTransfer { p, u, s, w, l } ==> (
            ({
                // A non-empty store: the listed registers' words — read
                // through the user bank when forced, the base showing its
                // written-back value once write-back has applied — land as
                // timed word writes in ascending register order at
                // consecutive slots, one charged cycle after the prefetch.
                let base_reg = (((old(self).instr_buffer0) >> 16) & 0xF) as int;
                let list = ((old(self).instr_buffer0) & 0xFFFF) as u16;
                let base = spec_step_regs(old(self).regs@).reg(base_reg);
                let aligned = base - (base & 3);
                let n = spec_ones16(list);
                let init = if s {
                    spec_step_regs(old(self).regs@).with_mode(Mode::USR)
                } else {
                    spec_step_regs(old(self).regs@)
                };
                let slot0 = if u {
                    aligned
                } else {
                    aligned - 4 * n
                };
                let fa = if u {
                    wrap32(aligned + 4 * n + (base & 3))
                } else {
                    wrap32(aligned - 4 * n + (base & 3))
                };
                let pre_off = p != !u;
                !l && list != 0 && base_reg != 15 ==> r is Ok && final(self).regs@ == (if w {
                    init.with_reg(base_reg, fa)
                } else {
                    init
                }).with_mode(spec_step_regs(old(self).regs@).mode()) && final(hw).scheduler.cycle == old(hw).scheduler.cycle + 1 + n && crate::mem::spec_timed_writes_after(
                    *old(hw),
                    *final(hw),
                    1,
                    spec_block_stores_from(init, list, 0, slot0, pre_off, w, base_reg, fa),
                )
            })
            )),
    {
        let instr = self.instr_buffer0;
        self.instr_buffer0 = self.instr_buffer1;
        self.regs.pc = self.regs.pc.wrapping_add(4);
        proof {
            assert(self.regs@ == spec_step_regs(old(self).regs@));
            lemma_fields(instr);
            lemma_skeleton_of_key(instr);
            crate::mem::lemma_ok_span_later(*old(hw), *hw, 0x90, 0x80);
            crate::mem::lemma_ok_span_later(*old(hw), *hw, 0x90, 0x10);
        }
        if self.should_exec(instr >> 28 & 0xF) {
            proof {
                lemma_fields(instr);
                lemma_skeleton_of_key(instr);
                if (spec_decode(spec_key_of(instr)) matches InstrKind::BlockDataTransfer { l, .. }
                    && !l && instr & 0xFFFF != 0 && (instr >> 16) & 0xF != 15) {
                    let bi = ((instr >> 16) & 0xF) as int;
                    assert(self.regs@.reg(bi) == old(self).regs@.reg(bi));
                    assert forall|k: int| -16 <= k <= 17 implies spec_region(
                        #[trigger] wrap32(
                            (self.regs@.reg(bi) - (self.regs@.reg(bi) & 3)) + 4 * k,
                        ),
                        hw.cp15,
                    ) != ARM9MemoryRegion::IO by {
                        assert(spec_region(
                            wrap32(
                                (old(self).regs@.reg(bi) - (old(self).regs@.reg(bi) & 3)) + 4 * k,
                            ),
                            old(hw).cp15,
                        ) != ARM9MemoryRegion::IO);
                    }
                }
            }
            self.dispatch_arm(hw, instr)
        } else {
            proof {
                crate::mem::lemma_ok_at(
                    *old(hw),
                    *hw,
                    0x10,
                    Width::Word,
                    self.regs@.pc & 0xFFFF_FFFC,
                    (hw.scheduler.cycle + 1) as usize,
                );
            }
            self.instruction_prefetch(hw, AccessType::S);
            Ok(())
        }
    }
}


/// Pipeline offset invariant: for every word-aligned entry point, the
/// visible program counter after `reset` and one step of a non-branching
/// (no-op-equivalent) instruction is the entry point plus eight. `reset`
/// ends with the counter at the masked entry plus four, and such a step —
/// by `emulate_arm_instr`'s contract for a data-processing instruction whose
/// destination is not the program counter — advances it by four more. In the
/// compact instruction set a refill reads halfwords, so the same two steps
/// land four bytes ahead.
pub proof fn lemma_pipeline_offset(entry: u32)
    requires
        entry % 4 == 0,
    ensures
        wrap32(wrap32((entry & 0xFFFF_FFFC) + 4) + 4) == wrap32(entry + 8),
{
    lemma_word_align(entry);
}

/// Word masking aligns, and aligned addresses pass through it.
proof fn lemma_word_align(x: u32)
    by (bit_vector)
    ensures
        (x & 0xFFFF_FFFC) % 4 == 0,
        x % 4 == 0 ==> (x & 0xFFFF_FFFC) == x,
        (x & 0xFFFF_FFFC) + 4 <= 0x1_0000_0000,
{
}

/// Halfword masking aligns, and aligned addresses pass through it.
proof fn lemma_half_align(x: u32)
    by (bit_vector)
    ensures
        (x & 0xFFFF_FFFE) % 2 == 0,
        x % 2 == 0 ==> (x & 0xFFFF_FFFE) == x,
        (x & 0xFFFF_FFFE) + 2 <= 0x1_0000_0000,
{
}

} // verus!
