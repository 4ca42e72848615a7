//! Register file of one processor core: sixteen general-purpose registers,
//! the current status register, and the banked copies of registers 13/14
//! (8 to 14 for the fast-interrupt mode) together with one saved status
//! register per privileged mode. The mode field of the status register
//! selects which bank is visible.

use vstd::prelude::*;

verus! {

/// Privilege and banking modes of the processor.
#[derive(Clone, Copy, PartialEq, Eq, Structural, Debug)]
pub enum Mode {
    USR,
    FIQ,
    IRQ,
    SVC,
    ABT,
    UND,
    SYS,
}

/// Named registers, as instruction handlers refer to them.
#[derive(Clone, Copy, PartialEq, Eq, Structural, Debug)]
pub enum Reg {
    R0,
    R1,
    R2,
    R3,
    R4,
    R5,
    R6,
    R7,
    R8,
    R9,
    R10,
    R11,
    R12,
    R13,
    R14,
    R15,
    CPSR,
    SPSR,
}

/// The mode field encoding in the low five status-register bits.
pub open spec fn spec_mode_bits(m: Mode) -> u32 {
    match m {
        Mode::USR => 0x10,
        Mode::FIQ => 0x11,
        Mode::IRQ => 0x12,
        Mode::SVC => 0x13,
        Mode::ABT => 0x17,
        Mode::UND => 0x1B,
        Mode::SYS => 0x1F,
    }
}

/// Decodes the mode field; reserved encodings have no mode.
pub open spec fn spec_mode_from_bits(b: u32) -> Option<Mode> {
    if b == 0x10 {
        Some(Mode::USR)
    } else if b == 0x11 {
        Some(Mode::FIQ)
    } else if b == 0x12 {
        Some(Mode::IRQ)
    } else if b == 0x13 {
        Some(Mode::SVC)
    } else if b == 0x17 {
        Some(Mode::ABT)
    } else if b == 0x1B {
        Some(Mode::UND)
    } else if b == 0x1F {
        Some(Mode::SYS)
    } else {
        None
    }
}

pub fn mode_bits(m: Mode) -> (r: u32)
    ensures
        r == spec_mode_bits(m),
{
    match m {
        Mode::USR => 0x10,
        Mode::FIQ => 0x11,
        Mode::IRQ => 0x12,
        Mode::SVC => 0x13,
        Mode::ABT => 0x17,
        Mode::UND => 0x1B,
        Mode::SYS => 0x1F,
    }
}

pub fn mode_from_bits(b: u32) -> (r: Option<Mode>)
    ensures
        r == spec_mode_from_bits(b),
{
    if b == 0x10 {
        Some(Mode::USR)
    } else if b == 0x11 {
        Some(Mode::FIQ)
    } else if b == 0x12 {
        Some(Mode::IRQ)
    } else if b == 0x13 {
        Some(Mode::SVC)
    } else if b == 0x17 {
        Some(Mode::ABT)
    } else if b == 0x1B {
        Some(Mode::UND)
    } else if b == 0x1F {
        Some(Mode::SYS)
    } else {
        None
    }
}

// Status-register flag bits.
pub open spec fn cpsr_n(c: u32) -> bool {
    c & 0x8000_0000 != 0
}

pub open spec fn cpsr_z(c: u32) -> bool {
    c & 0x4000_0000 != 0
}

pub open spec fn cpsr_c(c: u32) -> bool {
    c & 0x2000_0000 != 0
}

pub open spec fn cpsr_v(c: u32) -> bool {
    c & 0x1000_0000 != 0
}

pub open spec fn cpsr_i(c: u32) -> bool {
    c & 0x80 != 0
}

pub open spec fn cpsr_t(c: u32) -> bool {
    c & 0x20 != 0
}

/// The 4-bit condition field evaluated against the status flags.
pub open spec fn spec_cond_passes(cond: u32, c: u32) -> bool {
    if cond == 0x0 {
        cpsr_z(c)
    } else if cond == 0x1 {
        !cpsr_z(c)
    } else if cond == 0x2 {
        cpsr_c(c)
    } else if cond == 0x3 {
        !cpsr_c(c)
    } else if cond == 0x4 {
        cpsr_n(c)
    } else if cond == 0x5 {
        !cpsr_n(c)
    } else if cond == 0x6 {
        cpsr_v(c)
    } else if cond == 0x7 {
        !cpsr_v(c)
    } else if cond == 0x8 {
        cpsr_c(c) && !cpsr_z(c)
    } else if cond == 0x9 {
        !cpsr_c(c) || cpsr_z(c)
    } else if cond == 0xA {
        cpsr_n(c) == cpsr_v(c)
    } else if cond == 0xB {
        cpsr_n(c) != cpsr_v(c)
    } else if cond == 0xC {
        !cpsr_z(c) && cpsr_n(c) == cpsr_v(c)
    } else if cond == 0xD {
        cpsr_z(c) || cpsr_n(c) != cpsr_v(c)
    } else if cond == 0xE {
        true
    } else {
        false
    }
}

pub fn cond_passes(cond: u32, c: u32) -> (r: bool)
    ensures
        r == spec_cond_passes(cond, c),
{
    if cond == 0x0 {
        c & 0x4000_0000 != 0
    } else if cond == 0x1 {
        c & 0x4000_0000 == 0
    } else if cond == 0x2 {
        c & 0x2000_0000 != 0
    } else if cond == 0x3 {
        c & 0x2000_0000 == 0
    } else if cond == 0x4 {
        c & 0x8000_0000 != 0
    } else if cond == 0x5 {
        c & 0x8000_0000 == 0
    } else if cond == 0x6 {
        c & 0x1000_0000 != 0
    } else if cond == 0x7 {
        c & 0x1000_0000 == 0
    } else if cond == 0x8 {
        c & 0x2000_0000 != 0 && c & 0x4000_0000 == 0
    } else if cond == 0x9 {
        c & 0x2000_0000 == 0 || c & 0x4000_0000 != 0
    } else if cond == 0xA {
        (c & 0x8000_0000 != 0) == (c & 0x1000_0000 != 0)
    } else if cond == 0xB {
        (c & 0x8000_0000 != 0) != (c & 0x1000_0000 != 0)
    } else if cond == 0xC {
        c & 0x4000_0000 == 0 && (c & 0x8000_0000 != 0) == (c & 0x1000_0000 != 0)
    } else if cond == 0xD {
        c & 0x4000_0000 != 0 || (c & 0x8000_0000 != 0) != (c & 0x1000_0000 != 0)
    } else if cond == 0xE {
        true
    } else {
        false
    }
}

/// Mathematical model of the register file: the user bank of registers 0-14,
/// the banked copies, the program counter, and the status registers.
#[verifier::ext_equal]
pub struct RegsV {
    pub gp: Seq<u32>,
    pub fiq: Seq<u32>,
    pub svc: Seq<u32>,
    pub abt: Seq<u32>,
    pub irq: Seq<u32>,
    pub und: Seq<u32>,
    pub pc: u32,
    pub cpsr: u32,
    pub spsr_fiq: u32,
    pub spsr_svc: u32,
    pub spsr_abt: u32,
    pub spsr_irq: u32,
    pub spsr_und: u32,
}

impl RegsV {
    pub open spec fn wf(self) -> bool {
        &&& self.gp.len() == 15
        &&& self.fiq.len() == 7
        &&& self.svc.len() == 2
        &&& self.abt.len() == 2
        &&& self.irq.len() == 2
        &&& self.und.len() == 2
        &&& spec_mode_from_bits(self.cpsr & 0x1F) is Some
    }

    /// The mode selected by the status register; reads as user mode where the
    /// encoding is reserved (well-formed values never are).
    pub open spec fn mode(self) -> Mode {
        match spec_mode_from_bits(self.cpsr & 0x1F) {
            Some(m) => m,
            None => Mode::USR,
        }
    }

    /// The visible value of general-purpose register `i` under the current
    /// mode's banking.
    pub open spec fn reg(self, i: int) -> u32 {
        if i == 15 {
            self.pc
        } else if i < 8 {
            self.gp[i]
        } else {
            match self.mode() {
                Mode::FIQ => self.fiq[i - 8],
                Mode::SVC => if i >= 13 {
                    self.svc[i - 13]
                } else {
                    self.gp[i]
                },
                Mode::ABT => if i >= 13 {
                    self.abt[i - 13]
                } else {
                    self.gp[i]
                },
                Mode::IRQ => if i >= 13 {
                    self.irq[i - 13]
                } else {
                    self.gp[i]
                },
                Mode::UND => if i >= 13 {
                    self.und[i - 13]
                } else {
                    self.gp[i]
                },
                _ => self.gp[i],
            }
        }
    }

    /// The register file after writing the visible register `i`.
    pub open spec fn with_reg(self, i: int, val: u32) -> RegsV {
        if i == 15 {
            RegsV { pc: val, ..self }
        } else if i < 8 {
            RegsV { gp: self.gp.update(i, val), ..self }
        } else {
            match self.mode() {
                Mode::FIQ => RegsV { fiq: self.fiq.update(i - 8, val), ..self },
                Mode::SVC => if i >= 13 {
                    RegsV { svc: self.svc.update(i - 13, val), ..self }
                } else {
                    RegsV { gp: self.gp.update(i, val), ..self }
                },
                Mode::ABT => if i >= 13 {
                    RegsV { abt: self.abt.update(i - 13, val), ..self }
                } else {
                    RegsV { gp: self.gp.update(i, val), ..self }
                },
                Mode::IRQ => if i >= 13 {
                    RegsV { irq: self.irq.update(i - 13, val), ..self }
                } else {
                    RegsV { gp: self.gp.update(i, val), ..self }
                },
                Mode::UND => if i >= 13 {
                    RegsV { und: self.und.update(i - 13, val), ..self }
                } else {
                    RegsV { gp: self.gp.update(i, val), ..self }
                },
                _ => RegsV { gp: self.gp.update(i, val), ..self },
            }
        }
    }

    /// The saved status register of the current mode; user and system mode
    /// have none and see the current status register.
    pub open spec fn spsr(self) -> u32 {
        match self.mode() {
            Mode::FIQ => self.spsr_fiq,
            Mode::SVC => self.spsr_svc,
            Mode::ABT => self.spsr_abt,
            Mode::IRQ => self.spsr_irq,
            Mode::UND => self.spsr_und,
            _ => self.cpsr,
        }
    }

    /// The register file after writing the current mode's saved status
    /// register; a write in user or system mode is dropped.
    pub open spec fn with_spsr(self, val: u32) -> RegsV {
        match self.mode() {
            Mode::FIQ => RegsV { spsr_fiq: val, ..self },
            Mode::SVC => RegsV { spsr_svc: val, ..self },
            Mode::ABT => RegsV { spsr_abt: val, ..self },
            Mode::IRQ => RegsV { spsr_irq: val, ..self },
            Mode::UND => RegsV { spsr_und: val, ..self },
            _ => self,
        }
    }

    /// The register file after replacing the mode field only.
    pub open spec fn with_mode(self, m: Mode) -> RegsV {
        RegsV { cpsr: (self.cpsr & 0xFFFF_FFE0) | spec_mode_bits(m), ..self }
    }
}

/// Register file of one processor core.
pub struct RegValues {
    /// User-bank registers 0-14.
    pub gp: Vec<u32>,
    /// Banked registers 8-14 of the fast-interrupt mode.
    pub fiq: Vec<u32>,
    /// Banked registers 13-14 of the supervisor mode.
    pub svc: Vec<u32>,
    /// Banked registers 13-14 of the abort mode.
    pub abt: Vec<u32>,
    /// Banked registers 13-14 of the interrupt mode.
    pub irq: Vec<u32>,
    /// Banked registers 13-14 of the undefined mode.
    pub und: Vec<u32>,
    /// The program counter, register 15.
    pub pc: u32,
    /// Current status register.
    pub cpsr: u32,
    pub spsr_fiq: u32,
    pub spsr_svc: u32,
    pub spsr_abt: u32,
    pub spsr_irq: u32,
    pub spsr_und: u32,
}

impl View for RegValues {
    type V = RegsV;

    open spec fn view(&self) -> RegsV {
        RegsV {
            gp: self.gp@,
            fiq: self.fiq@,
            svc: self.svc@,
            abt: self.abt@,
            irq: self.irq@,
            und: self.und@,
            pc: self.pc,
            cpsr: self.cpsr,
            spsr_fiq: self.spsr_fiq,
            spsr_svc: self.spsr_svc,
            spsr_abt: self.spsr_abt,
            spsr_irq: self.spsr_irq,
            spsr_und: self.spsr_und,
        }
    }
}

/// Keeps the low five status bits when a flag bit is replaced.
proof fn lemma_flag_write_keeps_mode(x: u32, mask: u32, bit: u32)
    by (bit_vector)
    requires
        mask & 0x1F == 0,
        bit == mask || bit == 0,
    ensures
        (x & !mask | bit) & 0x1F == x & 0x1F,
{
}

impl RegValues {
    /// Reset state: supervisor mode with interrupts disabled, every register
    /// and both instruction-set and flag bits clear.
    pub fn new() -> (r: RegValues)
        ensures
            r@.wf(),
            r@.mode() == Mode::SVC,
            r@.cpsr == 0xD3u32,
            r@.pc == 0u32,
            forall|i: int| 0 <= i < 15 ==> r@.gp[i] == 0u32,
            forall|i: int| 0 <= i < 7 ==> r@.fiq[i] == 0u32,
            forall|i: int| 0 <= i < 2 ==> r@.svc[i] == 0u32 && r@.abt[i] == 0u32 && r@.irq[i]
                == 0u32 && r@.und[i] == 0u32,
    {
        let r = RegValues {
            gp: vec![0u32; 15],
            fiq: vec![0u32; 7],
            svc: vec![0u32; 2],
            abt: vec![0u32; 2],
            irq: vec![0u32; 2],
            und: vec![0u32; 2],
            pc: 0,
            cpsr: 0xD3,
            spsr_fiq: 0,
            spsr_svc: 0,
            spsr_abt: 0,
            spsr_irq: 0,
            spsr_und: 0,
        };
        proof {
            assert(0xD3u32 & 0x1F == 0x13) by (bit_vector);
        }
        r
    }

    /// The visible value of general-purpose register `i`.
    pub fn get_reg_i(&self, i: u32) -> (r: u32)
        requires
            self@.wf(),
            i < 16,
        ensures
            r == self@.reg(i as int),
    {
        if i == 15 {
            self.pc
        } else if i < 8 {
            self.gp[i as usize]
        } else {
            match self.get_mode() {
                Mode::FIQ => self.fiq[(i - 8) as usize],
                Mode::SVC => if i >= 13 {
                    self.svc[(i - 13) as usize]
                } else {
                    self.gp[i as usize]
                },
                Mode::ABT => if i >= 13 {
                    self.abt[(i - 13) as usize]
                } else {
                    self.gp[i as usize]
                },
                Mode::IRQ => if i >= 13 {
                    self.irq[(i - 13) as usize]
                } else {
                    self.gp[i as usize]
                },
                Mode::UND => if i >= 13 {
                    self.und[(i - 13) as usize]
                } else {
                    self.gp[i as usize]
                },
                _ => self.gp[i as usize],
            }
        }
    }

    /// Writes the visible general-purpose register `i`.
    pub fn set_reg_i(&mut self, i: u32, val: u32)
        requires
            old(self)@.wf(),
            i < 16,
        ensures
            final(self)@ == old(self)@.with_reg(i as int, val),
            final(self)@.wf(),
    {
        if i == 15 {
            self.pc = val;
        } else if i < 8 {
            self.gp[i as usize] = val;
        } else {
            match self.get_mode() {
                Mode::FIQ => {
                    self.fiq[(i - 8) as usize] = val;
                },
                Mode::SVC => if i >= 13 {
                    self.svc[(i - 13) as usize] = val;
                } else {
                    self.gp[i as usize] = val;
                },
                Mode::ABT => if i >= 13 {
                    self.abt[(i - 13) as usize] = val;
                } else {
                    self.gp[i as usize] = val;
                },
                Mode::IRQ => if i >= 13 {
                    self.irq[(i - 13) as usize] = val;
                } else {
                    self.gp[i as usize] = val;
                },
                Mode::UND => if i >= 13 {
                    self.und[(i - 13) as usize] = val;
                } else {
                    self.gp[i as usize] = val;
                },
                _ => {
                    self.gp[i as usize] = val;
                },
            }
        }
    }

    /// The value of a named register: a general-purpose register, the current
    /// status register, or the current mode's saved status register.
    pub fn get_reg(&self, r: Reg) -> (v: u32)
        requires
            self@.wf(),
        ensures
            r == Reg::CPSR ==> v == self@.cpsr,
            r == Reg::SPSR ==> v == self@.spsr(),
            forall|i: int| 0 <= i < 16 && r == spec_reg_of(i) ==> v == self@.reg(i),
    {
        match r {
            Reg::R0 => self.get_reg_i(0),
            Reg::R1 => self.get_reg_i(1),
            Reg::R2 => self.get_reg_i(2),
            Reg::R3 => self.get_reg_i(3),
            Reg::R4 => self.get_reg_i(4),
            Reg::R5 => self.get_reg_i(5),
            Reg::R6 => self.get_reg_i(6),
            Reg::R7 => self.get_reg_i(7),
            Reg::R8 => self.get_reg_i(8),
            Reg::R9 => self.get_reg_i(9),
            Reg::R10 => self.get_reg_i(10),
            Reg::R11 => self.get_reg_i(11),
            Reg::R12 => self.get_reg_i(12),
            Reg::R13 => self.get_reg_i(13),
            Reg::R14 => self.get_reg_i(14),
            Reg::R15 => self.pc,
            Reg::CPSR => self.cpsr,
            Reg::SPSR => match self.get_mode() {
                Mode::FIQ => self.spsr_fiq,
                Mode::SVC => self.spsr_svc,
                Mode::ABT => self.spsr_abt,
                Mode::IRQ => self.spsr_irq,
                Mode::UND => self.spsr_und,
                _ => self.cpsr,
            },
        }
    }

    /// Writes a named register. A status-register write must keep a valid
    /// mode encoding, which the callers check first.
    pub fn set_reg(&mut self, r: Reg, val: u32)
        requires
            old(self)@.wf(),
            r == Reg::CPSR ==> (spec_mode_from_bits(val & 0x1F) is Some),
        ensures
            r == Reg::CPSR ==> final(self)@ == (RegsV { cpsr: val, ..old(self)@ }),
            r == Reg::SPSR ==> final(self)@ == old(self)@.with_spsr(val),
            forall|i: int| 0 <= i < 16 && r == spec_reg_of(i) ==> final(self)@ == old(
                self,
            )@.with_reg(i, val),
            final(self)@.wf(),
    {
        match r {
            Reg::R0 => self.set_reg_i(0, val),
            Reg::R1 => self.set_reg_i(1, val),
            Reg::R2 => self.set_reg_i(2, val),
            Reg::R3 => self.set_reg_i(3, val),
            Reg::R4 => self.set_reg_i(4, val),
            Reg::R5 => self.set_reg_i(5, val),
            Reg::R6 => self.set_reg_i(6, val),
            Reg::R7 => self.set_reg_i(7, val),
            Reg::R8 => self.set_reg_i(8, val),
            Reg::R9 => self.set_reg_i(9, val),
            Reg::R10 => self.set_reg_i(10, val),
            Reg::R11 => self.set_reg_i(11, val),
            Reg::R12 => self.set_reg_i(12, val),
            Reg::R13 => self.set_reg_i(13, val),
            Reg::R14 => self.set_reg_i(14, val),
            Reg::R15 => self.pc = val,
            Reg::CPSR => self.cpsr = val,
            Reg::SPSR => match self.get_mode() {
                Mode::FIQ => self.spsr_fiq = val,
                Mode::SVC => self.spsr_svc = val,
                Mode::ABT => self.spsr_abt = val,
                Mode::IRQ => self.spsr_irq = val,
                Mode::UND => self.spsr_und = val,
                _ => (),
            },
        }
    }

    /// The current mode, from the status register's mode field.
    pub fn get_mode(&self) -> (m: Mode)
        requires
            self@.wf(),
        ensures
            m == self@.mode(),
    {
        let bits = self.cpsr & 0x1F;
        match mode_from_bits(bits) {
            Some(m) => m,
            None => Mode::USR,
        }
    }

    /// Replaces the mode field alone; banked registers become visible through
    /// the new mode.
    pub fn set_mode(&mut self, m: Mode)
        requires
            old(self)@.wf(),
        ensures
            final(self)@ == old(self)@.with_mode(m),
            final(self)@.wf(),
            final(self)@.mode() == m,
    {
        let bits = mode_bits(m);
        self.cpsr = (self.cpsr & 0xFFFF_FFE0) | bits;
        proof {
            let c = old(self)@.cpsr;
            let b = spec_mode_bits(m);
            assert(b < 0x20 ==> ((c & 0xFFFF_FFE0) | b) & 0x1F == b) by (bit_vector);
        }
    }

    /// Enters a privileged mode as an exception does: the current status
    /// register is saved into the new mode's saved status register, then the
    /// mode field switches.
    pub fn change_mode(&mut self, m: Mode)
        requires
            old(self)@.wf(),
            m != Mode::USR && m != Mode::SYS,
        ensures
            final(self)@ == old(self)@.with_spsr_of(m, old(self)@.cpsr).with_mode(m),
            final(self)@.wf(),
            final(self)@.mode() == m,
            final(self)@.spsr() == old(self)@.cpsr,
    {
        let old_cpsr = self.cpsr;
        match m {
            Mode::FIQ => self.spsr_fiq = old_cpsr,
            Mode::SVC => self.spsr_svc = old_cpsr,
            Mode::ABT => self.spsr_abt = old_cpsr,
            Mode::IRQ => self.spsr_irq = old_cpsr,
            Mode::UND => self.spsr_und = old_cpsr,
            _ => (),
        }
        self.set_mode(m);
    }

    /// Restores the status register from the current mode's saved copy; the
    /// saved copy must hold a valid mode encoding.
    pub fn restore_cpsr(&mut self)
        requires
            old(self)@.wf(),
            (spec_mode_from_bits(old(self)@.spsr() & 0x1F) is Some),
        ensures
            final(self)@ == (RegsV { cpsr: old(self)@.spsr(), ..old(self)@ }),
            final(self)@.wf(),
    {
        let spsr = self.get_reg(Reg::SPSR);
        self.cpsr = spsr;
    }

    pub fn get_n(&self) -> (r: bool)
        ensures
            r == cpsr_n(self@.cpsr),
    {
        self.cpsr & 0x8000_0000 != 0
    }

    pub fn get_z(&self) -> (r: bool)
        ensures
            r == cpsr_z(self@.cpsr),
    {
        self.cpsr & 0x4000_0000 != 0
    }

    pub fn get_c(&self) -> (r: bool)
        ensures
            r == cpsr_c(self@.cpsr),
    {
        self.cpsr & 0x2000_0000 != 0
    }

    pub fn get_v(&self) -> (r: bool)
        ensures
            r == cpsr_v(self@.cpsr),
    {
        self.cpsr & 0x1000_0000 != 0
    }

    pub fn get_i(&self) -> (r: bool)
        ensures
            r == cpsr_i(self@.cpsr),
    {
        self.cpsr & 0x80 != 0
    }

    pub fn get_t(&self) -> (r: bool)
        ensures
            r == cpsr_t(self@.cpsr),
    {
        self.cpsr & 0x20 != 0
    }

    fn set_flag(&mut self, mask: u32, v: bool)
        requires
            old(self)@.wf(),
            mask & 0x1F == 0,
        ensures
            final(self)@ == (RegsV {
                cpsr: (old(self)@.cpsr & !mask | (if v {
                    mask
                } else {
                    0u32
                })),
                ..old(self)@
            }),
            final(self)@.wf(),
            final(self)@.mode() == old(self)@.mode(),
    {
        let bit: u32 = if v {
            mask
        } else {
            0
        };
        proof {
            lemma_flag_write_keeps_mode(self.cpsr, mask, bit);
        }
        self.cpsr = self.cpsr & !mask | bit;
    }

    pub fn set_n(&mut self, v: bool)
        requires
            old(self)@.wf(),
        ensures
            final(self)@ == (RegsV {
                cpsr: (old(self)@.cpsr & !0x8000_0000u32 | (if v {
                    0x8000_0000u32
                } else {
                    0u32
                })),
                ..old(self)@
            }),
            final(self)@.wf(),
            final(self)@.mode() == old(self)@.mode(),
            cpsr_n(final(self)@.cpsr) == v,
    {
        proof {
            flag_bit_facts();
        }
        self.set_flag(0x8000_0000, v);
    }

    pub fn set_z(&mut self, v: bool)
        requires
            old(self)@.wf(),
        ensures
            final(self)@ == (RegsV {
                cpsr: (old(self)@.cpsr & !0x4000_0000u32 | (if v {
                    0x4000_0000u32
                } else {
                    0u32
                })),
                ..old(self)@
            }),
            final(self)@.wf(),
            final(self)@.mode() == old(self)@.mode(),
            cpsr_z(final(self)@.cpsr) == v,
    {
        proof {
            flag_bit_facts();
        }
        self.set_flag(0x4000_0000, v);
    }

    pub fn set_c(&mut self, v: bool)
        requires
            old(self)@.wf(),
        ensures
            final(self)@ == (RegsV {
                cpsr: (old(self)@.cpsr & !0x2000_0000u32 | (if v {
                    0x2000_0000u32
                } else {
                    0u32
                })),
                ..old(self)@
            }),
            final(self)@.wf(),
            final(self)@.mode() == old(self)@.mode(),
            cpsr_c(final(self)@.cpsr) == v,
    {
        proof {
            flag_bit_facts();
        }
        self.set_flag(0x2000_0000, v);
    }

    pub fn set_v(&mut self, v: bool)
        requires
            old(self)@.wf(),
        ensures
            final(self)@ == (RegsV {
                cpsr: (old(self)@.cpsr & !0x1000_0000u32 | (if v {
                    0x1000_0000u32
                } else {
                    0u32
                })),
                ..old(self)@
            }),
            final(self)@.wf(),
            final(self)@.mode() == old(self)@.mode(),
            cpsr_v(final(self)@.cpsr) == v,
    {
        proof {
            flag_bit_facts();
        }
        self.set_flag(0x1000_0000, v);
    }

    pub fn set_i(&mut self, v: bool)
        requires
            old(self)@.wf(),
        ensures
            final(self)@ == (RegsV {
                cpsr: (old(self)@.cpsr & !0x80u32 | (if v {
                    0x80u32
                } else {
                    0u32
                })),
                ..old(self)@
            }),
            final(self)@.wf(),
            final(self)@.mode() == old(self)@.mode(),
            cpsr_i(final(self)@.cpsr) == v,
    {
        proof {
            flag_bit_facts();
        }
        self.set_flag(0x80, v);
    }

    pub fn set_t(&mut self, v: bool)
        requires
            old(self)@.wf(),
        ensures
            final(self)@ == (RegsV {
                cpsr: (old(self)@.cpsr & !0x20u32 | (if v {
                    0x20u32
                } else {
                    0u32
                })),
                ..old(self)@
            }),
            final(self)@.wf(),
            final(self)@.mode() == old(self)@.mode(),
            cpsr_t(final(self)@.cpsr) == v,
    {
        proof {
            flag_bit_facts();
        }
        self.set_flag(0x20, v);
    }
}

/// Bit facts behind the flag setters: each flag mask misses the mode field,
/// and writing through it leaves or sets exactly that bit.
proof fn flag_bit_facts()
    by (bit_vector)
    ensures
        0x8000_0000u32 & 0x1F == 0,
        0x4000_0000u32 & 0x1F == 0,
        0x2000_0000u32 & 0x1F == 0,
        0x1000_0000u32 & 0x1F == 0,
        0x80u32 & 0x1F == 0,
        0x20u32 & 0x1F == 0,
        forall|x: u32, m: u32, b: u32|
            (b == m || b == 0) ==> (((x & !m | b) & m != 0) <==> (b == m && m != 0)),
{
}

/// The named register that stands for general-purpose register `i`.
pub open spec fn spec_reg_of(i: int) -> Reg {
    if i == 0 {
        Reg::R0
    } else if i == 1 {
        Reg::R1
    } else if i == 2 {
        Reg::R2
    } else if i == 3 {
        Reg::R3
    } else if i == 4 {
        Reg::R4
    } else if i == 5 {
        Reg::R5
    } else if i == 6 {
        Reg::R6
    } else if i == 7 {
        Reg::R7
    } else if i == 8 {
        Reg::R8
    } else if i == 9 {
        Reg::R9
    } else if i == 10 {
        Reg::R10
    } else if i == 11 {
        Reg::R11
    } else if i == 12 {
        Reg::R12
    } else if i == 13 {
        Reg::R13
    } else if i == 14 {
        Reg::R14
    } else {
        Reg::R15
    }
}

impl RegsV {
    /// The register file after writing mode `m`'s saved status register.
    pub open spec fn with_spsr_of(self, m: Mode, val: u32) -> RegsV {
        match m {
            Mode::FIQ => RegsV { spsr_fiq: val, ..self },
            Mode::SVC => RegsV { spsr_svc: val, ..self },
            Mode::ABT => RegsV { spsr_abt: val, ..self },
            Mode::IRQ => RegsV { spsr_irq: val, ..self },
            Mode::UND => RegsV { spsr_und: val, ..self },
            _ => self,
        }
    }
}

impl RegsV {
    /// The register file after writing the negative flag.
    pub open spec fn with_n(self, v: bool) -> RegsV {
        RegsV {
            cpsr: (self.cpsr & !0x8000_0000u32 | (if v {
                0x8000_0000u32
            } else {
                0u32
            })),
            ..self
        }
    }

    /// The register file after writing the zero flag.
    pub open spec fn with_z(self, v: bool) -> RegsV {
        RegsV {
            cpsr: (self.cpsr & !0x4000_0000u32 | (if v {
                0x4000_0000u32
            } else {
                0u32
            })),
            ..self
        }
    }

    /// The register file after writing the carry flag.
    pub open spec fn with_c(self, v: bool) -> RegsV {
        RegsV {
            cpsr: (self.cpsr & !0x2000_0000u32 | (if v {
                0x2000_0000u32
            } else {
                0u32
            })),
            ..self
        }
    }

    /// The register file after writing the overflow flag.
    pub open spec fn with_v(self, v: bool) -> RegsV {
        RegsV {
            cpsr: (self.cpsr & !0x1000_0000u32 | (if v {
                0x1000_0000u32
            } else {
                0u32
            })),
            ..self
        }
    }

    /// The register file after writing the interrupt-disable flag.
    pub open spec fn with_i(self, v: bool) -> RegsV {
        RegsV {
            cpsr: (self.cpsr & !0x80u32 | (if v {
                0x80u32
            } else {
                0u32
            })),
            ..self
        }
    }

    /// The register file after writing the instruction-set flag.
    pub open spec fn with_t(self, v: bool) -> RegsV {
        RegsV {
            cpsr: (self.cpsr & !0x20u32 | (if v {
                0x20u32
            } else {
                0u32
            })),
            ..self
        }
    }
}

/// Writing the same value to the same register twice is one write.
pub proof fn lemma_with_reg_idem(r: RegsV, b: int, v: u32)
    requires
        0 <= b < 15,
        r.wf(),
    ensures
        r.with_reg(b, v).with_reg(b, v) == r.with_reg(b, v),
{
    if b < 8 {
        assert(r.gp.update(b, v).update(b, v) =~= r.gp.update(b, v));
        assert(r.with_reg(b, v).with_reg(b, v) =~= r.with_reg(b, v));
    } else {
        match r.mode() {
            Mode::FIQ => {
                assert(r.fiq.update(b - 8, v).update(b - 8, v) =~= r.fiq.update(b - 8, v));
            },
            Mode::SVC => {
                if b >= 13 {
                    assert(r.svc.update(b - 13, v).update(b - 13, v) =~= r.svc.update(
                        b - 13,
                        v,
                    ));
                } else {
                    assert(r.gp.update(b, v).update(b, v) =~= r.gp.update(b, v));
                }
            },
            Mode::ABT => {
                if b >= 13 {
                    assert(r.abt.update(b - 13, v).update(b - 13, v) =~= r.abt.update(
                        b - 13,
                        v,
                    ));
                } else {
                    assert(r.gp.update(b, v).update(b, v) =~= r.gp.update(b, v));
                }
            },
            Mode::IRQ => {
                if b >= 13 {
                    assert(r.irq.update(b - 13, v).update(b - 13, v) =~= r.irq.update(
                        b - 13,
                        v,
                    ));
                } else {
                    assert(r.gp.update(b, v).update(b, v) =~= r.gp.update(b, v));
                }
            },
            Mode::UND => {
                if b >= 13 {
                    assert(r.und.update(b - 13, v).update(b - 13, v) =~= r.und.update(
                        b - 13,
                        v,
                    ));
                } else {
                    assert(r.gp.update(b, v).update(b, v) =~= r.gp.update(b, v));
                }
            },
            _ => {
                assert(r.gp.update(b, v).update(b, v) =~= r.gp.update(b, v));
            },
        }
        assert(r.with_reg(b, v).with_reg(b, v) =~= r.with_reg(b, v));
    }
}

} // verus!
