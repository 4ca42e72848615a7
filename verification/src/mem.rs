//! Memory system of the second processor: region classification from the
//! address' top bits and the TCM configuration, byte-addressed backing
//! stores for the in-scope memories, and the memory-mapped register file
//! that the timer subsystem is reached through. Out-of-scope collaborators
//! (graphics, cartridge, inter-processor FIFO, DMA) answer reads with a
//! default value and ignore writes, as the bus layer does for unmapped
//! regions.

use vstd::prelude::*;

use crate::scheduler::{spec_event_index, spec_event_is9, Event, Scheduler};
use crate::timers::{overflow_block, spec_overflow, Timer, Timers};

verus! {

/// Timing classification of one memory access: sequential accesses continue
/// the previous address sequence and are cheaper than non-sequential ones.
#[derive(Clone, Copy, PartialEq, Eq, Structural, Debug)]
pub enum AccessType {
    N,
    S,
}

/// Width of one memory access.
#[derive(Clone, Copy, PartialEq, Eq, Structural, Debug)]
pub enum Width {
    Byte,
    Half,
    Word,
}

pub open spec fn spec_width_bytes(w: Width) -> int {
    match w {
        Width::Byte => 1,
        Width::Half => 2,
        Width::Word => 4,
    }
}

pub fn width_bytes(w: Width) -> (r: usize)
    ensures
        r == spec_width_bytes(w),
{
    match w {
        Width::Byte => 1,
        Width::Half => 2,
        Width::Word => 4,
    }
}

/// An access is aligned when its address is a multiple of its width.
pub open spec fn spec_aligned(addr: u32, w: Width) -> bool {
    match w {
        Width::Byte => true,
        Width::Half => addr % 2 == 0,
        Width::Word => addr % 4 == 0,
    }
}

/// Byte `k` of a 32-bit value, little-endian.
pub open spec fn spec_byte(v: u32, k: u32) -> u8 {
    if k == 0 {
        v as u8
    } else {
        (v >> (8 * k)) as u8
    }
}

/// A little-endian read of `w` bytes starting at `addr`.
pub open spec fn spec_read_mem(mem: Seq<u8>, addr: int, w: Width) -> u32 {
    match w {
        Width::Byte => mem[addr] as u32,
        Width::Half => mem[addr] as u32 | (mem[addr + 1] as u32) << 8,
        Width::Word => mem[addr] as u32 | (mem[addr + 1] as u32) << 8 | (mem[addr + 2] as u32) << 16
            | (mem[addr + 3] as u32) << 24,
    }
}

/// The store after a little-endian write of `w` bytes at `addr`.
pub open spec fn spec_write_mem(mem: Seq<u8>, addr: int, w: Width, value: u32) -> Seq<u8> {
    match w {
        Width::Byte => mem.update(addr, spec_byte(value, 0)),
        Width::Half => mem.update(addr, spec_byte(value, 0)).update(addr + 1, spec_byte(value, 1)),
        Width::Word => mem.update(addr, spec_byte(value, 0)).update(
            addr + 1,
            spec_byte(value, 1),
        ).update(addr + 2, spec_byte(value, 2)).update(addr + 3, spec_byte(value, 3)),
    }
}

/// A little-endian read of `w` bytes starting at `addr`.
pub fn read_mem(mem: &Vec<u8>, addr: u32, w: Width) -> (r: u32)
    requires
        addr + spec_width_bytes(w) <= mem@.len(),
    ensures
        r == spec_read_mem(mem@, addr as int, w),
{
    let n: usize = mem.len();
    let a = addr as usize;
    match w {
        Width::Byte => mem[a] as u32,
        Width::Half => mem[a] as u32 | (mem[a + 1] as u32) << 8u32,
        Width::Word => mem[a] as u32 | (mem[a + 1] as u32) << 8u32 | (mem[a + 2] as u32) << 16u32
            | (mem[a + 3] as u32) << 24u32,
    }
}

/// A little-endian write of `w` bytes starting at `addr`.
pub fn write_mem(mem: &mut Vec<u8>, addr: u32, w: Width, value: u32)
    requires
        addr + spec_width_bytes(w) <= old(mem)@.len(),
    ensures
        final(mem)@ == spec_write_mem(old(mem)@, addr as int, w, value),
        final(mem)@.len() == old(mem)@.len(),
{
    let n: usize = mem.len();
    let a = addr as usize;
    match w {
        Width::Byte => {
            mem[a] = #[verifier::truncate] (value as u8);
        },
        Width::Half => {
            mem[a] = #[verifier::truncate] (value as u8);
            mem[a + 1] = #[verifier::truncate] ((value >> 8u32) as u8);
        },
        Width::Word => {
            mem[a] = #[verifier::truncate] (value as u8);
            mem[a + 1] = #[verifier::truncate] ((value >> 8u32) as u8);
            mem[a + 2] = #[verifier::truncate] ((value >> 16u32) as u8);
            mem[a + 3] = #[verifier::truncate] ((value >> 24u32) as u8);
        },
    }
}

/// The tightly-coupled-memory configuration the region decode consults:
/// virtual ranges that shadow the bus when enabled.
#[derive(Clone, Copy, PartialEq, Eq, Structural, Debug)]
pub struct CP15 {
    pub itcm_enabled: bool,
    /// Instruction TCM shadows addresses below this bound.
    pub itcm_virtual_size: u32,
    pub dtcm_enabled: bool,
    pub dtcm_base: u32,
    pub dtcm_virtual_size: u32,
}

impl CP15 {
    pub fn new() -> (r: CP15)
        ensures
            r == (CP15 {
                itcm_enabled: true,
                itcm_virtual_size: 0x0200_0000u32,
                dtcm_enabled: true,
                dtcm_base: 0x027C_0000u32,
                dtcm_virtual_size: 0x4000u32,
            }),
    {
        CP15 {
            itcm_enabled: true,
            itcm_virtual_size: 0x0200_0000,
            dtcm_enabled: true,
            dtcm_base: 0x027C_0000,
            dtcm_virtual_size: 0x4000,
        }
    }

    pub open spec fn spec_addr_in_itcm(self, addr: u32) -> bool {
        self.itcm_enabled && addr < self.itcm_virtual_size
    }

    pub open spec fn spec_addr_in_dtcm(self, addr: u32) -> bool {
        self.dtcm_enabled && self.dtcm_base <= addr && addr - self.dtcm_base
            < self.dtcm_virtual_size
    }

    pub fn addr_in_itcm(&self, addr: u32) -> (r: bool)
        ensures
            r == self.spec_addr_in_itcm(addr),
    {
        self.itcm_enabled && addr < self.itcm_virtual_size
    }

    pub fn addr_in_dtcm(&self, addr: u32) -> (r: bool)
        ensures
            r == self.spec_addr_in_dtcm(addr),
    {
        self.dtcm_enabled && self.dtcm_base <= addr && addr - self.dtcm_base
            < self.dtcm_virtual_size
    }
}

/// The memory regions of the second processor's address space.
#[derive(Clone, Copy, PartialEq, Eq, Structural, Debug)]
pub enum ARM9MemoryRegion {
    ITCM,
    DTCM,
    MainMem,
    SharedWRAM,
    IO,
    Palette,
    VRAM,
    OAM,
    GBAROM,
    GBARAM,
    BIOS,
    Unknown,
}

/// Region classification: the TCM shadows win, then the address' top byte
/// decides.
pub open spec fn spec_region(addr: u32, cp15: CP15) -> ARM9MemoryRegion {
    if cp15.spec_addr_in_itcm(addr) {
        ARM9MemoryRegion::ITCM
    } else if cp15.spec_addr_in_dtcm(addr) {
        ARM9MemoryRegion::DTCM
    } else {
        let top = addr >> 24;
        if top == 0x2 {
            ARM9MemoryRegion::MainMem
        } else if top == 0x3 {
            ARM9MemoryRegion::SharedWRAM
        } else if top == 0x4 {
            ARM9MemoryRegion::IO
        } else if top == 0x5 {
            ARM9MemoryRegion::Palette
        } else if top == 0x6 {
            ARM9MemoryRegion::VRAM
        } else if top == 0x7 {
            ARM9MemoryRegion::OAM
        } else if top == 0x8 || top == 0x9 {
            ARM9MemoryRegion::GBAROM
        } else if top == 0xA {
            ARM9MemoryRegion::GBARAM
        } else if addr >> 16 == 0xFFFF {
            ARM9MemoryRegion::BIOS
        } else {
            ARM9MemoryRegion::Unknown
        }
    }
}

impl ARM9MemoryRegion {
    /// Classifies an address, consulting the TCM configuration first.
    pub fn from_addr(addr: u32, cp15: &CP15) -> (r: ARM9MemoryRegion)
        ensures
            r == spec_region(addr, *cp15),
    {
        if cp15.addr_in_itcm(addr) {
            return ARM9MemoryRegion::ITCM;
        }
        if cp15.addr_in_dtcm(addr) {
            return ARM9MemoryRegion::DTCM;
        }
        let top = addr >> 24;
        if top == 0x2 {
            ARM9MemoryRegion::MainMem
        } else if top == 0x3 {
            ARM9MemoryRegion::SharedWRAM
        } else if top == 0x4 {
            ARM9MemoryRegion::IO
        } else if top == 0x5 {
            ARM9MemoryRegion::Palette
        } else if top == 0x6 {
            ARM9MemoryRegion::VRAM
        } else if top == 0x7 {
            ARM9MemoryRegion::OAM
        } else if top == 0x8 || top == 0x9 {
            ARM9MemoryRegion::GBAROM
        } else if top == 0xA {
            ARM9MemoryRegion::GBARAM
        } else if addr >> 16 == 0xFFFF {
            ARM9MemoryRegion::BIOS
        } else {
            ARM9MemoryRegion::Unknown
        }
    }
}

/// Shared-WRAM banking control: which slice of the shared store the second
/// processor sees.
#[derive(Clone, Copy, PartialEq, Eq, Structural, Debug)]
pub struct Wramcnt {
    /// The two control bits last written.
    pub val: u8,
    pub arm9_offset: u32,
    pub arm9_mask: u32,
}

impl Wramcnt {
    /// The banking fields follow the control bits: the whole store, one of
    /// its halves, or nothing.
    pub open spec fn wf(self) -> bool {
        &&& self.val < 4
        &&& (self.val == 0 ==> self.arm9_offset == 0 && self.arm9_mask == 0x7FFF)
        &&& (self.val == 1 ==> self.arm9_offset == 0x4000 && self.arm9_mask == 0x3FFF)
        &&& (self.val == 2 ==> self.arm9_offset == 0 && self.arm9_mask == 0x3FFF)
        &&& (self.val == 3 ==> self.arm9_mask == 0 && self.arm9_offset == 0)
    }

    pub fn new() -> (r: Wramcnt)
        ensures
            r == (Wramcnt { val: 0u8, arm9_offset: 0u32, arm9_mask: 0x7FFFu32 }),
            r.wf(),
    {
        Wramcnt { val: 0, arm9_offset: 0, arm9_mask: 0x7FFF }
    }

    /// The banking state the two control bits select.
    pub open spec fn spec_written(value: u8) -> Wramcnt {
        if value & 3 == 0 {
            Wramcnt { val: 0u8, arm9_offset: 0u32, arm9_mask: 0x7FFFu32 }
        } else if value & 3 == 1 {
            Wramcnt { val: 1u8, arm9_offset: 0x4000u32, arm9_mask: 0x3FFFu32 }
        } else if value & 3 == 2 {
            Wramcnt { val: 2u8, arm9_offset: 0u32, arm9_mask: 0x3FFFu32 }
        } else {
            Wramcnt { val: 3u8, arm9_offset: 0u32, arm9_mask: 0u32 }
        }
    }

    /// Applies a control write: the low two bits select the visible bank.
    pub fn write(&mut self, value: u8)
        ensures
            final(self).wf(),
            *final(self) == Wramcnt::spec_written(value),
    {
        let v = value & 3;
        proof {
            assert(value & 3 < 4) by (bit_vector);
        }
        self.val = v;
        if v == 0 {
            self.arm9_offset = 0;
            self.arm9_mask = 0x7FFF;
        } else if v == 1 {
            self.arm9_offset = 0x4000;
            self.arm9_mask = 0x3FFF;
        } else if v == 2 {
            self.arm9_offset = 0;
            self.arm9_mask = 0x3FFF;
        } else {
            self.arm9_offset = 0;
            self.arm9_mask = 0;
        }
    }
}

/// The hardware the execution engine reads and writes through: the in-scope
/// backing stores, the region configuration, the scheduler, and both
/// processors' timer blocks with their interrupt-request lines.
pub struct HW {
    pub cp15: CP15,
    pub itcm: Vec<u8>,
    pub dtcm: Vec<u8>,
    pub main_mem: Vec<u8>,
    pub shared_wram: Vec<u8>,
    pub bios9: Vec<u8>,
    pub wramcnt: Wramcnt,
    pub scheduler: Scheduler,
    /// Timer block of the first processor.
    pub timers7: Timers,
    /// Timer block of the second processor.
    pub timers9: Timers,
    /// Raised interrupt-request bits of the first processor.
    pub interrupt_request7: u32,
    /// Raised interrupt-request bits of the second processor.
    pub interrupt_request9: u32,
    /// Interrupt master-enable register of the second processor.
    pub ime9: u32,
    /// Interrupt enable register of the second processor.
    pub ie9: u32,
    /// Boot-completion flag register of the second processor.
    pub postflg9: u8,
}

impl HW {
    pub open spec fn wf(self) -> bool {
        &&& self.itcm@.len() == 0x8000
        &&& self.dtcm@.len() == 0x4000
        &&& self.main_mem@.len() == 0x40_0000
        &&& self.shared_wram@.len() == 0x8000
        &&& self.bios9@.len() == 0x1_0000
        &&& self.wramcnt.wf()
        &&& self.scheduler.wf()
        &&& self.timers7.wf()
        &&& self.timers9.wf()
        &&& self.timers7.is_nds9() == false
        &&& self.timers9.is_nds9() == true
    }

    /// A machine at reset: zeroed stores, default region configuration,
    /// stopped timers, an empty schedule at cycle zero.
    pub fn new() -> (r: HW)
        ensures
            r.wf(),
            r.scheduler.cycle == 0,
            r.scheduler.events@.len() == 0,
            forall|i: int| 0 <= i < 0x40_0000 ==> r.main_mem@[i] == 0u8,
            forall|i: int| 0 <= i < 0x8000 ==> r.itcm@[i] == 0u8,
            forall|i: int| 0 <= i < 0x4000 ==> r.dtcm@[i] == 0u8,
            forall|i: int| 0 <= i < 0x8000 ==> r.shared_wram@[i] == 0u8,
            forall|i: int| 0 <= i < 0x1_0000 ==> r.bios9@[i] == 0u8,
            r.cp15 == CP15::spec_default(),
            r.interrupt_request7 == 0 && r.interrupt_request9 == 0,
            forall|i: int| 0 <= i < 4 ==> !(#[trigger] r.timers9.timers@[i]).cnt.start,
            forall|i: int| 0 <= i < 4 ==> !(#[trigger] r.timers7.timers@[i]).cnt.start,
    {
        HW {
            cp15: CP15::new(),
            itcm: vec![0u8; 0x8000],
            dtcm: vec![0u8; 0x4000],
            main_mem: vec![0u8; 0x40_0000],
            shared_wram: vec![0u8; 0x8000],
            bios9: vec![0u8; 0x1_0000],
            wramcnt: Wramcnt::new(),
            scheduler: Scheduler::new(),
            timers7: Timers::new(false),
            timers9: Timers::new(true),
            interrupt_request7: 0,
            interrupt_request9: 0,
            ime9: 0,
            ie9: 0,
            postflg9: 0,
        }
    }

    /// The access time of one bus access; a constant in this simplified
    /// timing model.
    pub fn arm9_get_access_time(&self, access_type: AccessType, addr: u32) -> (r: usize)
        ensures
            r == 1,
    {
        let _ = access_type;
        let _ = addr;
        1
    }
}

impl CP15 {
    /// The reset configuration `CP15::new` establishes.
    pub open spec fn spec_default() -> CP15 {
        CP15 {
            itcm_enabled: true,
            itcm_virtual_size: 0x0200_0000u32,
            dtcm_enabled: true,
            dtcm_base: 0x027C_0000u32,
            dtcm_virtual_size: 0x4000u32,
        }
    }
}

/// Replaces byte `k` of a 32-bit register, little-endian.
pub open spec fn spec_set_byte(v: u32, k: u32, b: u8) -> u32 {
    (v & !(0xFFu32 << (8 * k))) | ((b as u32) << (8 * k))
}

pub fn set_byte(v: u32, k: u32, b: u8) -> (r: u32)
    requires
        k < 4,
    ensures
        r == spec_set_byte(v, k, b),
{
    (v & !(0xFFu32 << (8 * k))) | ((b as u32) << (8 * k))
}

pub fn byte_of(v: u32, k: u32) -> (r: u8)
    requires
        k < 4,
    ensures
        r == spec_byte(v, k),
{
    if k == 0 {
        #[verifier::truncate] (v as u8)
    } else {
        #[verifier::truncate] ((v >> (8 * k)) as u8)
    }
}

/// Bounds that the region masks force: a masked address stays inside its
/// store, and an aligned access stays whole inside it.
proof fn lemma_mask_bounds(addr: u32)
    by (bit_vector)
    ensures
        addr & 0x7FFF < 0x8000,
        addr % 4 == 0 ==> addr & 0x7FFF <= 0x7FFC,
        addr % 2 == 0 ==> addr & 0x7FFF <= 0x7FFE,
        addr & 0x3FFF < 0x4000,
        addr % 4 == 0 ==> addr & 0x3FFF <= 0x3FFC,
        addr % 2 == 0 ==> addr & 0x3FFF <= 0x3FFE,
        addr & 0x3FFFFF < 0x400000,
        addr % 4 == 0 ==> addr & 0x3FFFFF <= 0x3FFFFC,
        addr % 2 == 0 ==> addr & 0x3FFFFF <= 0x3FFFFE,
        addr & 0xFFFF < 0x10000,
        addr % 4 == 0 ==> addr & 0xFFFF <= 0xFFFC,
        addr % 2 == 0 ==> addr & 0xFFFF <= 0xFFFE,
        addr & 0 == 0,
        addr >> 24 == 4 ==> addr <= 0x04FF_FFFF,
{
}

impl HW {
    /// One byte of the memory-mapped register file, read at cycle `cycle`:
    /// the four timers of the second processor, its interrupt master-enable,
    /// enable and request registers, the shared-WRAM control, and the
    /// boot-completion flag. Registers of out-of-scope peripherals read as
    /// the default zero.
    pub open spec fn spec_io_byte_at(self, addr: u32, cycle: usize) -> u8 {
        if 0x0400_0100 <= addr && addr < 0x0400_0110 {
            let off = addr - 0x0400_0100;
            self.timers9.timers@[off / 4].spec_read_byte(cycle, (off % 4) as usize)
        } else if 0x0400_0208 <= addr && addr <= 0x0400_020B {
            spec_byte(self.ime9, (addr - 0x0400_0208) as u32)
        } else if 0x0400_0210 <= addr && addr <= 0x0400_0213 {
            spec_byte(self.ie9, (addr - 0x0400_0210) as u32)
        } else if 0x0400_0214 <= addr && addr <= 0x0400_0217 {
            spec_byte(self.interrupt_request9, (addr - 0x0400_0214) as u32)
        } else if addr == 0x0400_0247 {
            self.wramcnt.val
        } else if addr == 0x0400_0300 {
            self.postflg9
        } else {
            0u8
        }
    }

    /// A register-file byte at the current cycle.
    pub open spec fn spec_io_byte(self, addr: u32) -> u8 {
        self.spec_io_byte_at(addr, self.scheduler.cycle)
    }

    /// A register-byte read at cycle `cycle` is admissible when it does not
    /// derive the counter of a running regular timer past its overflow
    /// window.
    pub open spec fn spec_io_byte_ok_at(self, addr: u32, cycle: usize) -> bool {
        if 0x0400_0100 <= addr && addr < 0x0400_0110 && (addr - 0x0400_0100) % 4 < 2 {
            let t = self.timers9.timers@[(addr - 0x0400_0100) / 4];
            !t.cnt.count_up && t.cnt.start ==> t.counter_in_range(cycle)
        } else {
            true
        }
    }

    /// A register-byte read is admissible at the current cycle.
    pub open spec fn spec_io_byte_ok(self, addr: u32) -> bool {
        self.spec_io_byte_ok_at(addr, self.scheduler.cycle)
    }

    /// Routes one register-byte read to the owning component.
    fn arm9_read_io_register(&self, addr: u32) -> (r: u8)
        requires
            self.wf(),
            self.spec_io_byte_ok(addr),
        ensures
            r == self.spec_io_byte(addr),
    {
        if addr >= 0x0400_0100 && addr < 0x0400_0110 {
            let off = addr - 0x0400_0100;
            let idx = (off / 4) as usize;
            let byte = (off % 4) as usize;
            let t = self.timers9.get(idx);
            t.read(&self.scheduler, byte)
        } else if addr >= 0x0400_0208 && addr <= 0x0400_020B {
            byte_of(self.ime9, addr - 0x0400_0208)
        } else if addr >= 0x0400_0210 && addr <= 0x0400_0213 {
            byte_of(self.ie9, addr - 0x0400_0210)
        } else if addr >= 0x0400_0214 && addr <= 0x0400_0217 {
            byte_of(self.interrupt_request9, addr - 0x0400_0214)
        } else if addr == 0x0400_0247 {
            self.wramcnt.val
        } else if addr == 0x0400_0300 {
            self.postflg9
        } else {
            // Registers of out-of-scope peripherals and unmapped register
            // addresses read back the default.
            0
        }
    }

    /// A register-byte write at cycle `cycle` is admissible when a control
    /// write to a running regular timer does not derive its counter past the
    /// overflow window.
    pub open spec fn spec_io_write_byte_ok_at(self, addr: u32, cycle: usize) -> bool {
        if 0x0400_0100 <= addr && addr < 0x0400_0110 && (addr - 0x0400_0100) % 4 == 2 {
            let t = self.timers9.timers@[(addr - 0x0400_0100) / 4];
            !t.cnt.count_up && t.cnt.start ==> t.counter_in_range(cycle)
        } else {
            true
        }
    }

    /// A register-byte write is admissible at the current cycle.
    pub open spec fn spec_io_write_byte_ok(self, addr: u32) -> bool {
        self.spec_io_write_byte_ok_at(addr, self.scheduler.cycle)
    }

    /// How one register-byte write relates the machine before it to the
    /// machine after it: a timer byte steps that one timer by
    /// `Timer::write_rel`, the interrupt registers replace or — for the
    /// request register — acknowledge their addressed byte, the shared-WRAM
    /// control selects a bank, the boot flag keeps its set bit; a write
    /// anywhere else changes nothing. Backing stores and the first
    /// processor's side never change.
    pub open spec fn spec_io_write_rel(pre: HW, post: HW, addr: u32, value: u8) -> bool {
        let in_timer = 0x0400_0100 <= addr && addr < 0x0400_0110;
        let in_ime = 0x0400_0208 <= addr && addr <= 0x0400_020B;
        let in_ie = 0x0400_0210 <= addr && addr <= 0x0400_0213;
        let in_if = 0x0400_0214 <= addr && addr <= 0x0400_0217;
        let in_wramcnt = addr == 0x0400_0247;
        let in_postflg = addr == 0x0400_0300;
        &&& HW::eq_stores(pre, post)
        &&& post.cp15 == pre.cp15
        &&& post.timers7 == pre.timers7
        &&& post.interrupt_request7 == pre.interrupt_request7
        &&& post.scheduler.cycle == pre.scheduler.cycle
        &&& (in_timer ==> {
            let off = addr - 0x0400_0100;
            &&& Timer::write_rel(
                pre.timers9.timers@[off / 4],
                pre.scheduler,
                post.timers9.timers@[off / 4],
                post.scheduler,
                (off % 4) as usize,
                value,
            )
            &&& post.timers9.timers@ == pre.timers9.timers@.update(
                off / 4,
                post.timers9.timers@[off / 4],
            )
        })
        &&& (!in_timer ==> post.timers9 == pre.timers9 && post.scheduler == pre.scheduler)
        &&& post.ime9 == (if in_ime {
            spec_set_byte(pre.ime9, (addr - 0x0400_0208) as u32, value)
        } else {
            pre.ime9
        })
        &&& post.ie9 == (if in_ie {
            spec_set_byte(pre.ie9, (addr - 0x0400_0210) as u32, value)
        } else {
            pre.ie9
        })
        &&& post.interrupt_request9 == (if in_if {
            pre.interrupt_request9 & !((value as u32) << (8 * ((addr - 0x0400_0214) as u32)))
        } else {
            pre.interrupt_request9
        })
        &&& post.wramcnt == (if in_wramcnt {
            Wramcnt::spec_written(value)
        } else {
            pre.wramcnt
        })
        &&& post.postflg9 == (if in_postflg {
            ((pre.postflg9 & !0x02) | (value & 0x02)) | (value & 0x01)
        } else {
            pre.postflg9
        })
    }

    /// The backing stores of the two machines are equal.
    pub open spec fn eq_stores(a: HW, b: HW) -> bool {
        &&& a.itcm@ == b.itcm@
        &&& a.dtcm@ == b.dtcm@
        &&& a.main_mem@ == b.main_mem@
        &&& a.shared_wram@ == b.shared_wram@
        &&& a.bios9@ == b.bios9@
    }

    /// Everything but the backing stores is equal on the two machines.
    pub open spec fn eq_peripherals(a: HW, b: HW) -> bool {
        &&& a.cp15 == b.cp15
        &&& a.wramcnt == b.wramcnt
        &&& a.scheduler == b.scheduler
        &&& a.timers7 == b.timers7
        &&& a.timers9 == b.timers9
        &&& a.interrupt_request7 == b.interrupt_request7
        &&& a.interrupt_request9 == b.interrupt_request9
        &&& a.ime9 == b.ime9
        &&& a.ie9 == b.ie9
        &&& a.postflg9 == b.postflg9
    }

    /// Routes one register-byte write to the owning component.
    fn arm9_write_io_register(&mut self, addr: u32, value: u8)
        requires
            old(self).wf(),
            old(self).spec_io_write_byte_ok(addr),
            old(self).scheduler.cycle + 0x800_0001 <= usize::MAX,
        ensures
            final(self).wf(),
            HW::spec_io_write_rel(*old(self), *final(self), addr, value),
    {
        if addr >= 0x0400_0100 && addr < 0x0400_0110 {
            let off = addr - 0x0400_0100;
            let idx = (off / 4) as usize;
            let byte = (off % 4) as usize;
            let mut t = self.timers9.get(idx);
            t.write(&mut self.scheduler, byte, value);
            self.timers9.put(idx, t);
        } else if addr >= 0x0400_0208 && addr <= 0x0400_020B {
            self.ime9 = set_byte(self.ime9, addr - 0x0400_0208, value);
        } else if addr >= 0x0400_0210 && addr <= 0x0400_0213 {
            self.ie9 = set_byte(self.ie9, addr - 0x0400_0210, value);
        } else if addr >= 0x0400_0214 && addr <= 0x0400_0217 {
            // Writing a one acknowledges (clears) the addressed request bit.
            let k = addr - 0x0400_0214;
            self.interrupt_request9 = self.interrupt_request9 & !((value as u32) << (8 * k));
        } else if addr == 0x0400_0247 {
            self.wramcnt.write(value);
        } else if addr == 0x0400_0300 {
            // Only the error bit is freely writable; the completion bit
            // keeps whatever has been set.
            self.postflg9 = (self.postflg9 & !0x02 | value & 0x02) | (value & 0x1);
        } else {
            // Writes to out-of-scope peripherals and unmapped register
            // addresses are ignored.
        }
    }
}


impl HW {
    /// A multi-byte register-file read at cycle `cycle`, assembled
    /// little-endian from its bytes.
    pub open spec fn spec_io_read_at(self, addr: u32, w: Width, cycle: usize) -> u32 {
        match w {
            Width::Byte => self.spec_io_byte_at(addr, cycle) as u32,
            Width::Half => self.spec_io_byte_at(addr, cycle) as u32 | (self.spec_io_byte_at(
                (addr + 1) as u32,
                cycle,
            ) as u32) << 8,
            Width::Word => self.spec_io_byte_at(addr, cycle) as u32 | (self.spec_io_byte_at(
                (addr + 1) as u32,
                cycle,
            ) as u32) << 8 | (self.spec_io_byte_at((addr + 2) as u32, cycle) as u32) << 16 | (
            self.spec_io_byte_at((addr + 3) as u32, cycle) as u32) << 24,
        }
    }

    /// A multi-byte register-file read at the current cycle.
    pub open spec fn spec_io_read(self, addr: u32, w: Width) -> u32 {
        self.spec_io_read_at(addr, w, self.scheduler.cycle)
    }

    /// What a `w`-wide read at `addr` returns when it lands at cycle
    /// `cycle`: only the register file's timer counters depend on the cycle.
    pub open spec fn spec_read_at(self, w: Width, addr: u32, cycle: usize) -> u32 {
        match spec_region(addr, self.cp15) {
            ARM9MemoryRegion::ITCM => spec_read_mem(self.itcm@, (addr & 0x7FFF) as int, w),
            ARM9MemoryRegion::DTCM => spec_read_mem(self.dtcm@, (addr & 0x3FFF) as int, w),
            ARM9MemoryRegion::MainMem => spec_read_mem(
                self.main_mem@,
                (addr & 0x3FFFFF) as int,
                w,
            ),
            ARM9MemoryRegion::SharedWRAM => if self.wramcnt.arm9_mask == 0 {
                0
            } else {
                spec_read_mem(
                    self.shared_wram@,
                    self.wramcnt.arm9_offset + (addr & self.wramcnt.arm9_mask),
                    w,
                )
            },
            ARM9MemoryRegion::IO => self.spec_io_read_at(addr, w, cycle),
            ARM9MemoryRegion::BIOS => spec_read_mem(self.bios9@, (addr & 0xFFFF) as int, w),
            _ => 0,
        }
    }

    /// What a `w`-wide read at `addr` returns: the addressed slice of the
    /// owning store under its region mask, the register file for the
    /// memory-mapped registers, and the default zero for out-of-scope
    /// collaborators, the unbanked shared store, and unmapped regions.
    pub open spec fn spec_read(self, w: Width, addr: u32) -> u32 {
        match spec_region(addr, self.cp15) {
            ARM9MemoryRegion::ITCM => spec_read_mem(self.itcm@, (addr & 0x7FFF) as int, w),
            ARM9MemoryRegion::DTCM => spec_read_mem(self.dtcm@, (addr & 0x3FFF) as int, w),
            ARM9MemoryRegion::MainMem => spec_read_mem(
                self.main_mem@,
                (addr & 0x3FFFFF) as int,
                w,
            ),
            ARM9MemoryRegion::SharedWRAM => if self.wramcnt.arm9_mask == 0 {
                0
            } else {
                spec_read_mem(
                    self.shared_wram@,
                    self.wramcnt.arm9_offset + (addr & self.wramcnt.arm9_mask),
                    w,
                )
            },
            ARM9MemoryRegion::IO => self.spec_io_read(addr, w),
            ARM9MemoryRegion::BIOS => spec_read_mem(self.bios9@, (addr & 0xFFFF) as int, w),
            _ => 0,
        }
    }

    /// A read at cycle `cycle` is admissible when each register byte it
    /// touches is.
    pub open spec fn spec_read_ok_at(self, w: Width, addr: u32, cycle: usize) -> bool {
        spec_region(addr, self.cp15) == ARM9MemoryRegion::IO ==> match w {
            Width::Byte => self.spec_io_byte_ok_at(addr, cycle),
            Width::Half => self.spec_io_byte_ok_at(addr, cycle) && self.spec_io_byte_ok_at(
                (addr + 1) as u32,
                cycle,
            ),
            Width::Word => self.spec_io_byte_ok_at(addr, cycle) && self.spec_io_byte_ok_at(
                (addr + 1) as u32,
                cycle,
            ) && self.spec_io_byte_ok_at((addr + 2) as u32, cycle) && self.spec_io_byte_ok_at(
                (addr + 3) as u32,
                cycle,
            ),
        }
    }

    /// A read is admissible at the current cycle.
    pub open spec fn spec_read_ok(self, w: Width, addr: u32) -> bool {
        self.spec_read_ok_at(w, addr, self.scheduler.cycle)
    }

    /// Reads `w` bytes at `addr`, routed by region. Out-of-scope
    /// collaborators (graphics stores, cartridge buses) and unmapped
    /// regions answer the default zero. The machine is unchanged; timing is
    /// charged separately, by the access-time query.
    pub fn arm9_read(&mut self, w: Width, addr: u32) -> (r: u32)
        requires
            old(self).wf(),
            spec_aligned(addr, w),
            old(self).spec_read_ok(w, addr),
        ensures
            *final(self) == *old(self),
            r == old(self).spec_read(w, addr),
    {
        proof {
            lemma_mask_bounds(addr);
        }
        match ARM9MemoryRegion::from_addr(addr, &self.cp15) {
            ARM9MemoryRegion::ITCM => read_mem(&self.itcm, addr & 0x7FFF, w),
            ARM9MemoryRegion::DTCM => read_mem(&self.dtcm, addr & 0x3FFF, w),
            ARM9MemoryRegion::MainMem => read_mem(&self.main_mem, addr & 0x3FFFFF, w),
            ARM9MemoryRegion::SharedWRAM => {
                if self.wramcnt.arm9_mask == 0 {
                    0
                } else {
                    read_mem(
                        &self.shared_wram,
                        self.wramcnt.arm9_offset + (addr & self.wramcnt.arm9_mask),
                        w,
                    )
                }
            },
            ARM9MemoryRegion::IO => {
                match w {
                    Width::Byte => self.arm9_read_io_register(addr) as u32,
                    Width::Half => {
                        let b0 = self.arm9_read_io_register(addr) as u32;
                        let b1 = self.arm9_read_io_register(addr + 1) as u32;
                        b0 | b1 << 8u32
                    },
                    Width::Word => {
                        let b0 = self.arm9_read_io_register(addr) as u32;
                        let b1 = self.arm9_read_io_register(addr + 1) as u32;
                        let b2 = self.arm9_read_io_register(addr + 2) as u32;
                        let b3 = self.arm9_read_io_register(addr + 3) as u32;
                        b0 | b1 << 8u32 | b2 << 16u32 | b3 << 24u32
                    },
                }
            },
            ARM9MemoryRegion::BIOS => read_mem(&self.bios9, addr & 0xFFFF, w),
            _ => 0,
        }
    }

    /// A write at cycle `cycle` is admissible when each register byte it
    /// touches is.
    pub open spec fn spec_write_ok_at(self, w: Width, addr: u32, cycle: usize) -> bool {
        spec_region(addr, self.cp15) == ARM9MemoryRegion::IO ==> match w {
            Width::Byte => self.spec_io_write_byte_ok_at(addr, cycle),
            Width::Half => self.spec_io_write_byte_ok_at(addr, cycle)
                && self.spec_io_write_byte_ok_at((addr + 1) as u32, cycle),
            Width::Word => self.spec_io_write_byte_ok_at(addr, cycle)
                && self.spec_io_write_byte_ok_at((addr + 1) as u32, cycle)
                && self.spec_io_write_byte_ok_at((addr + 2) as u32, cycle)
                && self.spec_io_write_byte_ok_at((addr + 3) as u32, cycle),
        }
    }

    /// A write is admissible at the current cycle.
    pub open spec fn spec_write_ok(self, w: Width, addr: u32) -> bool {
        self.spec_write_ok_at(w, addr, self.scheduler.cycle)
    }

    /// How a `w`-wide write at `addr` relates the machine before it (`pre`)
    /// to the machine after it (`post`), by region: the owning store takes
    /// the bytes under its mask; a register-file write lands byte by byte in
    /// ascending address order; anywhere else the write is dropped whole.
    #[verifier::opaque]
    pub open spec fn spec_write_rel(pre: HW, post: HW, w: Width, addr: u32, value: u32) -> bool {
        &&& (spec_region(addr, pre.cp15) == ARM9MemoryRegion::ITCM ==> HW::eq_peripherals(
                pre,
                post,
            ) && post.itcm@ == spec_write_mem(
                pre.itcm@,
                (addr & 0x7FFF) as int,
                w,
                value,
            ) && post.dtcm@ == pre.dtcm@ && post.main_mem@ == pre.main_mem@ && post.shared_wram@ == pre.shared_wram@ && post.bios9@
                == pre.bios9@)
        &&& (spec_region(addr, pre.cp15) == ARM9MemoryRegion::DTCM ==> HW::eq_peripherals(
                pre,
                post,
            ) && post.dtcm@ == spec_write_mem(
                pre.dtcm@,
                (addr & 0x3FFF) as int,
                w,
                value,
            ) && post.itcm@ == pre.itcm@ && post.main_mem@ == pre.main_mem@ && post.shared_wram@ == pre.shared_wram@ && post.bios9@
                == pre.bios9@)
        &&& (spec_region(addr, pre.cp15) == ARM9MemoryRegion::MainMem ==> HW::eq_peripherals(
                pre,
                post,
            ) && post.main_mem@ == spec_write_mem(
                pre.main_mem@,
                (addr & 0x3FFFFF) as int,
                w,
                value,
            ) && post.itcm@ == pre.itcm@ && post.dtcm@ == pre.dtcm@
                && post.shared_wram@ == pre.shared_wram@ && post.bios9@ == pre.bios9@)
        &&& (spec_region(addr, pre.cp15) == ARM9MemoryRegion::SharedWRAM && pre.wramcnt.arm9_mask == 0 ==> HW::eq_peripherals(pre, post)
                && HW::eq_stores(pre, post))
        &&& (spec_region(addr, pre.cp15) == ARM9MemoryRegion::SharedWRAM && pre.wramcnt.arm9_mask != 0 ==> HW::eq_peripherals(pre, post) && post.shared_wram@ == spec_write_mem(
                pre.shared_wram@,
                pre.wramcnt.arm9_offset + (addr & pre.wramcnt.arm9_mask),
                w,
                value,
            ) && post.itcm@ == pre.itcm@ && post.dtcm@ == pre.dtcm@
                && post.main_mem@ == pre.main_mem@ && post.bios9@ == pre.bios9@)
        &&& (spec_region(addr, pre.cp15) == ARM9MemoryRegion::IO && w == Width::Byte
                ==> HW::spec_io_write_rel(pre, post, addr, spec_byte(value, 0)))
        &&& (spec_region(addr, pre.cp15) == ARM9MemoryRegion::IO && w == Width::Half ==> (
            exists|m: HW|
                HW::spec_io_write_rel(pre, m, addr, spec_byte(value, 0))
                    && HW::spec_io_write_rel(
                    m,
                    post,
                    (addr + 1) as u32,
                    spec_byte(value, 1),
                )))
        &&& (spec_region(addr, pre.cp15) == ARM9MemoryRegion::IO && w == Width::Word ==> (
            exists|m1: HW, m2: HW, m3: HW|
                #[trigger] HW::spec_io_write_rel(pre, m1, addr, spec_byte(value, 0))
                    && #[trigger] HW::spec_io_write_rel(m1, m2, (addr + 1) as u32, spec_byte(value, 1))
                    && #[trigger] HW::spec_io_write_rel(m2, m3, (addr + 2) as u32, spec_byte(value, 2))
                    && HW::spec_io_write_rel(
                    m3,
                    post,
                    (addr + 3) as u32,
                    spec_byte(value, 3),
                )))
        &&& ((match spec_region(addr, pre.cp15) {
                ARM9MemoryRegion::Palette => true,
                ARM9MemoryRegion::VRAM => true,
                ARM9MemoryRegion::OAM => true,
                ARM9MemoryRegion::GBAROM => true,
                ARM9MemoryRegion::GBARAM => true,
                ARM9MemoryRegion::BIOS => true,
                ARM9MemoryRegion::Unknown => true,
                _ => false,
            }) ==> HW::eq_peripherals(pre, post) && HW::eq_stores(
                pre,
                post,
            ))
    }

    /// Writes `w` bytes at `addr`, routed by region. A register-file write
    /// lands byte by byte, in ascending address order; writes to
    /// out-of-scope collaborators and unmapped regions are dropped.
    pub fn arm9_write(&mut self, w: Width, addr: u32, value: u32)
        requires
            old(self).wf(),
            spec_aligned(addr, w),
            old(self).spec_write_ok(w, addr),
            spec_region(addr, old(self).cp15) == ARM9MemoryRegion::IO ==> old(self).scheduler.cycle
                + 0x800_0001 <= usize::MAX,
        ensures
            final(self).wf(),
            final(self).scheduler.cycle == old(self).scheduler.cycle,
            final(self).cp15 == old(self).cp15,
            HW::spec_write_rel(*old(self), *final(self), w, addr, value),
    {
        proof {
            reveal(HW::spec_write_rel);
            lemma_mask_bounds(addr);
        }
        match ARM9MemoryRegion::from_addr(addr, &self.cp15) {
            ARM9MemoryRegion::ITCM => write_mem(&mut self.itcm, addr & 0x7FFF, w, value),
            ARM9MemoryRegion::DTCM => write_mem(&mut self.dtcm, addr & 0x3FFF, w, value),
            ARM9MemoryRegion::MainMem => write_mem(&mut self.main_mem, addr & 0x3FFFFF, w, value),
            ARM9MemoryRegion::SharedWRAM => {
                if self.wramcnt.arm9_mask != 0 {
                    write_mem(
                        &mut self.shared_wram,
                        self.wramcnt.arm9_offset + (addr & self.wramcnt.arm9_mask),
                        w,
                        value,
                    );
                }
            },
            ARM9MemoryRegion::IO => {
                match w {
                    Width::Byte => {
                        self.arm9_write_io_register(addr, byte_of(value, 0));
                    },
                    Width::Half => {
                        self.arm9_write_io_register(addr, byte_of(value, 0));
                        self.arm9_write_io_register(addr + 1, byte_of(value, 1));
                    },
                    Width::Word => {
                        self.arm9_write_io_register(addr, byte_of(value, 0));
                        self.arm9_write_io_register(addr + 1, byte_of(value, 1));
                        self.arm9_write_io_register(addr + 2, byte_of(value, 2));
                        self.arm9_write_io_register(addr + 3, byte_of(value, 3));
                    },
                }
            },
            _ => {
                // Out-of-scope collaborators, the read-only system store,
                // the unbanked shared store, and unmapped regions drop the
                // write.
            },
        }
    }
}


impl HW {
    /// Handles one timer-overflow event: raises the timer's interrupt on its
    /// processor's request line when enabled, cascades into the next-indexed
    /// count-up timer, and restarts a regular timer's run — exactly
    /// `spec_overflow` on the owning block.
    pub fn on_timer_overflow(&mut self, event: Event)
        requires
            old(self).wf(),
            spec_event_index(event) < 4,
            old(self).scheduler.cycle + 0x800_0000 <= usize::MAX,
        ensures
            final(self).wf(),
            HW::eq_stores(*old(self), *final(self)),
            final(self).cp15 == old(self).cp15,
            final(self).wramcnt == old(self).wramcnt,
            final(self).ime9 == old(self).ime9,
            final(self).ie9 == old(self).ie9,
            final(self).postflg9 == old(self).postflg9,
            final(self).scheduler.cycle == old(self).scheduler.cycle,
            spec_event_is9(event) ==> (
                final(self).timers9.timers@,
                final(self).interrupt_request9,
                final(self).scheduler.events@,
            ) == spec_overflow(
                old(self).timers9.timers@,
                old(self).interrupt_request9,
                old(self).scheduler.events@,
                old(self).scheduler.cycle,
                spec_event_index(event),
            ) && final(self).timers7 == old(self).timers7 && final(self).interrupt_request7
                == old(self).interrupt_request7,
            !spec_event_is9(event) ==> (
                final(self).timers7.timers@,
                final(self).interrupt_request7,
                final(self).scheduler.events@,
            ) == spec_overflow(
                old(self).timers7.timers@,
                old(self).interrupt_request7,
                old(self).scheduler.events@,
                old(self).scheduler.cycle,
                spec_event_index(event),
            ) && final(self).timers9 == old(self).timers9 && final(self).interrupt_request9
                == old(self).interrupt_request9,
    {
        match event {
            Event::TimerOverflow(is_nds9, num) => {
                if is_nds9 {
                    overflow_block(
                        &mut self.timers9,
                        &mut self.interrupt_request9,
                        &mut self.scheduler,
                        num,
                    );
                } else {
                    overflow_block(
                        &mut self.timers7,
                        &mut self.interrupt_request7,
                        &mut self.scheduler,
                        num,
                    );
                }
            },
        }
    }

    /// One step of the driving loop: removes the due pending event with the
    /// smallest trigger cycle — the oldest of equals — and runs its handler;
    /// reports what fired, or nothing when no event is due. An overflow
    /// event naming a timer index outside the block cannot arise from the
    /// timer subsystem and is dropped unhandled.
    pub fn run_next_event(&mut self) -> (fired: Option<Event>)
        requires
            old(self).wf(),
            old(self).scheduler.cycle + 0x800_0000 <= usize::MAX,
        ensures
            final(self).wf(),
            final(self).scheduler.cycle == old(self).scheduler.cycle,
            fired is None ==> *final(self) == *old(self) && (forall|j: int|
                0 <= j < old(self).scheduler.events@.len() ==> old(self).scheduler.events@[j].1
                    > old(self).scheduler.cycle),
            (match fired {
                Some(e) => exists|i: int|
                    {
                        &&& 0 <= i < old(self).scheduler.events@.len()
                        &&& old(self).scheduler.events@[i].0 == e
                        &&& old(self).scheduler.events@[i].1 <= old(self).scheduler.cycle
                        &&& (forall|j: int|
                            0 <= j < old(self).scheduler.events@.len() ==> old(self).scheduler.events@[i].1 <= old(self).scheduler.events@[j].1)
                        &&& (spec_event_index(e) < 4 && spec_event_is9(e) ==> (
                        final(self).timers9.timers@,
                        final(self).interrupt_request9,
                        final(self).scheduler.events@,
                        ) == spec_overflow(
                            old(self).timers9.timers@,
                            old(self).interrupt_request9,
                            old(self).scheduler.events@.remove(i),
                            old(self).scheduler.cycle,
                            spec_event_index(e),
                        ) && final(self).timers7 == old(self).timers7 && final(self).interrupt_request7 == old(self).interrupt_request7)
                        &&& (spec_event_index(e) < 4 && !spec_event_is9(e) ==> (
                        final(self).timers7.timers@,
                        final(self).interrupt_request7,
                        final(self).scheduler.events@,
                        ) == spec_overflow(
                            old(self).timers7.timers@,
                            old(self).interrupt_request7,
                            old(self).scheduler.events@.remove(i),
                            old(self).scheduler.cycle,
                            spec_event_index(e),
                        ) && final(self).timers9 == old(self).timers9 && final(self).interrupt_request9 == old(self).interrupt_request9)
                        &&& (spec_event_index(e) >= 4 ==> final(self).scheduler.events@ == old(self).scheduler.events@.remove(i) && final(self).timers7 == old(self).timers7
                            && final(self).timers9 == old(self).timers9 && final(self).interrupt_request7 == old(self).interrupt_request7 && final(self).interrupt_request9 == old(self).interrupt_request9)
                        &&& HW::eq_stores(*old(self), *final(self))
                        &&& final(self).cp15 == old(self).cp15
                        &&& final(self).wramcnt == old(self).wramcnt
                        &&& final(self).ime9 == old(self).ime9
                        &&& final(self).ie9 == old(self).ie9
                        &&& final(self).postflg9 == old(self).postflg9
                    },
                None => true,
            }),
    {
        match self.scheduler.pop_due() {
            Some(event) => {
                match event {
                    Event::TimerOverflow(_, num) => {
                        if num < 4 {
                            self.on_timer_overflow(event);
                        }
                    },
                }
                Some(event)
            },
            None => None,
        }
    }
}


/// Offsets under the main-memory mask stay consecutive while the window
/// fits the store.
proof fn lemma_mask_step(start: u32, i: u32)
    by (bit_vector)
    requires
        (start & 0x3FFFFF) + i < 0x40_0000,
        start + i <= 0xFFFF_FFFF,
    ensures
        ((start + i) as u32) & 0x3FFFFF == (start & 0x3FFFFF) + i,
{
}

impl HW {
    /// Loads a program image: copies `code` into memory byte by byte from
    /// `start_addr` up, stamps the boot marker the loader leaves behind, and
    /// hands back the program's entry point. The whole window must classify
    /// as main memory and fit the store without wrapping under its mask.
    pub fn init_arm9(&mut self, start_addr: u32, code: &Vec<u8>, entry_addr: u32) -> (r: u32)
        requires
            old(self).wf(),
            (start_addr & 0x3FFFFF) + code@.len() <= 0x40_0000,
            start_addr + code@.len() <= 0xFFFF_FFFF,
            forall|i: int|
                0 <= i < code@.len() ==> spec_region(#[trigger] ((start_addr + i) as u32), old(self).cp15) == ARM9MemoryRegion::MainMem,
            spec_region(0x23FFC80, old(self).cp15) == ARM9MemoryRegion::MainMem,
        ensures
            r == entry_addr,
            final(self).wf(),
            HW::eq_peripherals(*old(self), *final(self)),
            final(self).itcm@ == old(self).itcm@,
            final(self).dtcm@ == old(self).dtcm@,
            final(self).shared_wram@ == old(self).shared_wram@,
            final(self).bios9@ == old(self).bios9@,
            final(self).main_mem@[0x3FFC80] == 5u8,
            forall|i: int|
                0 <= i < code@.len() && (start_addr & 0x3FFFFF) + i != 0x3FFC80 ==> final(self).main_mem@[(start_addr & 0x3FFFFF) + i] == code@[i],
            forall|j: int|
                0 <= j < 0x40_0000 && !((start_addr & 0x3FFFFF) <= j < (start_addr & 0x3FFFFF)
                    + code@.len()) && j != 0x3FFC80 ==> final(self).main_mem@[j] == old(self).main_mem@[j],
    {
        let n = code.len();
        let mut i: usize = 0;
        while i < n
            invariant
                self.wf(),
                n == code@.len(),
                0 <= i <= n,
                (start_addr & 0x3FFFFF) + n <= 0x40_0000,
                start_addr + n <= 0xFFFF_FFFF,
                forall|k: int|
                    0 <= k < n ==> spec_region(#[trigger] ((start_addr + k) as u32), old(self).cp15)
                        == ARM9MemoryRegion::MainMem,
                HW::eq_peripherals(*old(self), *self),
                self.itcm@ == old(self).itcm@,
                self.dtcm@ == old(self).dtcm@,
                self.shared_wram@ == old(self).shared_wram@,
                self.bios9@ == old(self).bios9@,
                forall|k: int|
                    0 <= k < i ==> self.main_mem@[(start_addr & 0x3FFFFF) + k] == code@[k],
                forall|j: int|
                    0 <= j < 0x40_0000 && !((start_addr & 0x3FFFFF) <= j < (start_addr & 0x3FFFFF)
                        + i) ==> self.main_mem@[j] == old(self).main_mem@[j],
            decreases n - i,
        {
            proof {
                reveal(HW::spec_write_rel);
                lemma_mask_step(start_addr, i as u32);
            }
            let addr = start_addr + (i as u32);
            self.arm9_write(Width::Byte, addr, code[i] as u32);
            proof {
                reveal(HW::spec_write_rel);
            }
            i = i + 1;
        }
        proof {
            reveal(HW::spec_write_rel);
            assert(0x23FFC80u32 & 0x3FFFFF == 0x3FFC80) by (bit_vector);
        }
        self.arm9_write(Width::Byte, 0x23FFC80, 0x5);
        proof {
            reveal(HW::spec_write_rel);
        }
        entry_addr
    }
}


impl HW {
    /// The two machines agree on everything but the cycle counter.
    pub open spec fn eq_but_cycle(a: HW, b: HW) -> bool {
        &&& HW::eq_stores(a, b)
        &&& a.cp15 == b.cp15
        &&& a.wramcnt == b.wramcnt
        &&& a.timers7 == b.timers7
        &&& a.timers9 == b.timers9
        &&& a.interrupt_request7 == b.interrupt_request7
        &&& a.interrupt_request9 == b.interrupt_request9
        &&& a.ime9 == b.ime9
        &&& a.ie9 == b.ie9
        &&& a.postflg9 == b.postflg9
        &&& a.scheduler.events == b.scheduler.events
    }
}


impl HW {
    /// Every access of the next `span` cycles is admissible: each running
    /// regular timer of the second processor started at or before the
    /// current cycle, and its derived counter still fits its sixteen bits at
    /// the end of the span — its overflow event is not yet overdue.
    pub open spec fn ok_span(self, span: usize) -> bool {
        &&& self.scheduler.cycle + span <= usize::MAX
        &&& (forall|i: int|
            0 <= i < 4 ==> {
                let t = #[trigger] self.timers9.timers@[i];
                (!t.cnt.count_up && t.cnt.start) ==> t.start_cycle <= self.scheduler.cycle
                    && t.spec_derived_counter((self.scheduler.cycle + span) as usize) <= 0xFFFF
            })
    }

    /// Within an admissible span, every read and write of every width is
    /// admissible at every cycle of the span.
    pub proof fn lemma_ok_span(self, span: usize, w: Width, addr: u32, c: usize)
        requires
            self.wf(),
            self.ok_span(span),
            self.scheduler.cycle <= c <= self.scheduler.cycle + span,
        ensures
            self.spec_read_ok_at(w, addr, c),
            self.spec_write_ok_at(w, addr, c),
            forall|a: u32|
                #![trigger self.spec_io_byte_ok_at(a, c)]
                #![trigger self.spec_io_write_byte_ok_at(a, c)]
                self.spec_io_byte_ok_at(a, c) && self.spec_io_write_byte_ok_at(a, c),
    {
        assert forall|a: u32| self.spec_io_byte_ok_at(a, c) && self.spec_io_write_byte_ok_at(
            a,
            c,
        ) by {
            if 0x0400_0100 <= a && a < 0x0400_0110 {
                let i = (a - 0x0400_0100) / 4;
                let t = self.timers9.timers@[i];
                if !t.cnt.count_up && t.cnt.start {
                    assert(t.spec_derived_counter((self.scheduler.cycle + span) as usize)
                        <= 0xFFFF);
                    let hi = (self.scheduler.cycle + span) as usize;
                    let p = crate::timers::spec_prescaler_period(t.cnt.prescaler);
                    if c - t.start_cycle >= t.time_till_first_clock {
                        vstd::arithmetic::div_mod::lemma_div_is_ordered(
                            c - t.start_cycle - t.time_till_first_clock,
                            hi - t.start_cycle - t.time_till_first_clock,
                            p,
                        );
                    }
                    assert(t.spec_derived_counter(c) <= t.spec_derived_counter(hi));
                    assert(t.counter_in_range(c));
                }
            }
        }
    }
}


/// Bridges an admissible span to any later machine that keeps the region
/// configuration and the second processor's timers: each access within the
/// span stays admissible there.
pub proof fn lemma_ok_at(a: HW, b: HW, span: usize, w: Width, addr: u32, c: usize)
    requires
        a.wf(),
        a.ok_span(span),
        b.cp15 == a.cp15,
        b.timers9 == a.timers9,
        a.scheduler.cycle <= c <= a.scheduler.cycle + span,
    ensures
        b.spec_read_ok_at(w, addr, c),
        b.spec_write_ok_at(w, addr, c),
{
    a.lemma_ok_span(span, w, addr, c);
    assert forall|x: u32| b.spec_io_byte_ok_at(x, c) && b.spec_io_write_byte_ok_at(x, c) by {
        assert(a.spec_io_byte_ok_at(x, c) && a.spec_io_write_byte_ok_at(x, c)) by {
            a.lemma_ok_span(span, Width::Byte, x, c);
        }
    }
}


/// An admissible span shrinks as time passes: any later machine with the
/// same timers and region configuration, whose shorter span ends no later,
/// is admissible too.
pub proof fn lemma_ok_span_later(a: HW, b: HW, s1: usize, s2: usize)
    requires
        a.wf(),
        a.ok_span(s1),
        b.timers9 == a.timers9,
        a.scheduler.cycle <= b.scheduler.cycle,
        b.scheduler.cycle + s2 <= a.scheduler.cycle + s1,
    ensures
        b.ok_span(s2),
{
    assert forall|i: int| 0 <= i < 4 implies {
        let t = #[trigger] b.timers9.timers@[i];
        (!t.cnt.count_up && t.cnt.start) ==> t.start_cycle <= b.scheduler.cycle
            && t.spec_derived_counter((b.scheduler.cycle + s2) as usize) <= 0xFFFF
    } by {
        let t = a.timers9.timers@[i];
        if !t.cnt.count_up && t.cnt.start {
            let c2 = (b.scheduler.cycle + s2) as usize;
            let hi = (a.scheduler.cycle + s1) as usize;
            let p = crate::timers::spec_prescaler_period(t.cnt.prescaler);
            if c2 - t.start_cycle >= t.time_till_first_clock {
                vstd::arithmetic::div_mod::lemma_div_is_ordered(
                    c2 - t.start_cycle - t.time_till_first_clock,
                    hi - t.start_cycle - t.time_till_first_clock,
                    p,
                );
            }
            assert(t.spec_derived_counter(c2) <= t.spec_derived_counter(hi));
        }
    }
}


/// Two machines that agree on everything but the cycle counter read the
/// same values at any given cycle.
pub proof fn lemma_read_at_frame(a: HW, b: HW, w: Width, addr: u32, c: usize)
    requires
        HW::eq_but_cycle(a, b),
    ensures
        a.spec_read_at(w, addr, c) == b.spec_read_at(w, addr, c),
{
    assert forall|x: u32| a.spec_io_byte_at(x, c) == b.spec_io_byte_at(x, c) by {}
}


/// Whether a `w`-wide access at `addr` touches any register byte of timer
/// `j` of the second processor.
pub open spec fn spec_hits_timer(addr: u32, w: Width, j: int) -> bool {
    addr < 0x0400_0104 + 4 * j && addr + spec_width_bytes(w) > 0x0400_0100 + 4 * j
}

/// One register-byte write leaves every timer it does not address alone.
proof fn lemma_io_write_rel_timer_frame(pre: HW, post: HW, a: u32, v: u8, j: int)
    requires
        HW::spec_io_write_rel(pre, post, a, v),
        0 <= j < 4,
        pre.timers9.timers@.len() == 4,
        !(0x0400_0100 + 4 * j <= a < 0x0400_0104 + 4 * j),
    ensures
        post.timers9.timers@.len() == pre.timers9.timers@.len(),
        post.timers9.timers@[j] == pre.timers9.timers@[j],
{
    if 0x0400_0100 <= a && a < 0x0400_0110 {
        let d = a - 0x0400_0100;
        assert(d / 4 != j) by (nonlinear_arith)
            requires
                0 <= d < 16,
                0 <= j < 4,
                !(4 * j <= d < 4 * j + 4),
        ;
    }
}

/// A write leaves every timer outside its byte range alone, whatever region
/// it lands in.
pub proof fn lemma_write_rel_timer_frame(pre: HW, post: HW, w: Width, addr: u32, value: u32, j: int)
    requires
        HW::spec_write_rel(pre, post, w, addr, value),
        0 <= j < 4,
        pre.timers9.timers@.len() == 4,
        !spec_hits_timer(addr, w, j),
    ensures
        post.timers9.timers@.len() == pre.timers9.timers@.len(),
        post.timers9.timers@[j] == pre.timers9.timers@[j],
{
    reveal(HW::spec_write_rel);
    if spec_region(addr, pre.cp15) == ARM9MemoryRegion::IO {
        lemma_mask_bounds(addr);
        match w {
            Width::Byte => {
                lemma_io_write_rel_timer_frame(pre, post, addr, spec_byte(value, 0), j);
            },
            Width::Half => {
                let m = choose|m: HW|
                    HW::spec_io_write_rel(pre, m, addr, spec_byte(value, 0))
                        && HW::spec_io_write_rel(m, post, (addr + 1) as u32, spec_byte(value, 1));
                lemma_io_write_rel_timer_frame(pre, m, addr, spec_byte(value, 0), j);
                lemma_io_write_rel_timer_frame(m, post, (addr + 1) as u32, spec_byte(value, 1), j);
            },
            Width::Word => {
                let (m1, m2, m3) = choose|m1: HW, m2: HW, m3: HW|
                    #[trigger] HW::spec_io_write_rel(pre, m1, addr, spec_byte(value, 0))
                        && #[trigger] HW::spec_io_write_rel(
                        m1,
                        m2,
                        (addr + 1) as u32,
                        spec_byte(value, 1),
                    ) && #[trigger] HW::spec_io_write_rel(
                        m2,
                        m3,
                        (addr + 2) as u32,
                        spec_byte(value, 2),
                    ) && HW::spec_io_write_rel(m3, post, (addr + 3) as u32, spec_byte(value, 3));
                lemma_io_write_rel_timer_frame(pre, m1, addr, spec_byte(value, 0), j);
                lemma_io_write_rel_timer_frame(m1, m2, (addr + 1) as u32, spec_byte(value, 1), j);
                lemma_io_write_rel_timer_frame(m2, m3, (addr + 2) as u32, spec_byte(value, 2), j);
                lemma_io_write_rel_timer_frame(m3, post, (addr + 3) as u32, spec_byte(value, 3), j);
            },
        }
    }
}

/// An access within an admissible span stays admissible on a machine whose
/// addressed timers are still the span's, whatever happened to the others.
pub proof fn lemma_ok_at_one(a: HW, b: HW, span: usize, w: Width, addr: u32, c: usize)
    requires
        a.wf(),
        a.ok_span(span),
        b.cp15 == a.cp15,
        b.timers9.timers@.len() == 4,
        forall|j: int|
            0 <= j < 4 && spec_hits_timer(addr, w, j) ==> b.timers9.timers@[j]
                == a.timers9.timers@[j],
        a.scheduler.cycle <= c <= a.scheduler.cycle + span,
    ensures
        b.spec_read_ok_at(w, addr, c),
        b.spec_write_ok_at(w, addr, c),
{
    a.lemma_ok_span(span, w, addr, c);
    if spec_region(addr, b.cp15) == ARM9MemoryRegion::IO {
        lemma_mask_bounds(addr);
        assert forall|x: u32|
            addr <= x < addr + spec_width_bytes(w) implies b.spec_io_byte_ok_at(x, c)
            && b.spec_io_write_byte_ok_at(x, c) by {
            if 0x0400_0100 <= x && x < 0x0400_0110 {
                let j = (x - 0x0400_0100) / 4;
                assert(4 * j <= x - 0x0400_0100 < 4 * j + 4) by (nonlinear_arith)
                    requires
                        j == (x - 0x0400_0100) / 4,
                        0 <= x - 0x0400_0100 < 16,
                ;
                assert(spec_hits_timer(addr, w, j));
                assert(b.timers9.timers@[j] == a.timers9.timers@[j]);
                assert(a.spec_io_byte_ok_at(x, c) && a.spec_io_write_byte_ok_at(x, c));
            }
        }
    }
}

/// One timed write of the execution engine, `n` charged cycles after `pre`:
/// time passes, then the value lands on the bus.
pub open spec fn spec_timed_write_n(pre: HW, post: HW, n: int, w: Width, addr: u32, value: u32) -> bool {
    exists|m: HW|
        HW::eq_but_cycle(pre, m) && m.scheduler.cycle == pre.scheduler.cycle + n && m.wf()
            && #[trigger] HW::spec_write_rel(m, post, w, addr, value)
}

/// One timed write of the execution engine: one cycle charged, then the
/// value lands on the bus.
pub open spec fn spec_timed_write(pre: HW, post: HW, w: Width, addr: u32, value: u32) -> bool {
    spec_timed_write_n(pre, post, 1, w, addr, value)
}

/// A timed write `n` charges in, followed by `k` more charged cycles that
/// leave everything but the counter alone.
pub open spec fn spec_timed_write_then(
    pre: HW,
    post: HW,
    n: int,
    k: int,
    w: Width,
    addr: u32,
    value: u32,
) -> bool {
    exists|m2: HW|
        #[trigger] spec_timed_write_n(pre, m2, n, w, addr, value) && HW::eq_but_cycle(m2, post)
            && post.scheduler.cycle == m2.scheduler.cycle + k
}

/// A sequence of timed word writes landing in the given order: a run of
/// machines, one timed write apart, from `pre` to `post`.
pub open spec fn spec_timed_writes(pre: HW, post: HW, ws: Seq<(u32, u32)>) -> bool {
    exists|ms: Seq<HW>|
        {
            &&& #[trigger] ms.len() == ws.len() + 1
            &&& ms[0] == pre
            &&& ms[ws.len() as int] == post
            &&& (forall|i: int|
                0 <= i < ws.len() ==> spec_timed_write(
                    #[trigger] ms[i],
                    ms[i + 1],
                    Width::Word,
                    ws[i].0,
                    ws[i].1,
                ))
        }
}

/// A sequence of timed word writes beginning `n` charged cycles after `pre`.
pub open spec fn spec_timed_writes_after(pre: HW, post: HW, n: int, ws: Seq<(u32, u32)>) -> bool {
    exists|m: HW|
        HW::eq_but_cycle(pre, m) && m.scheduler.cycle == pre.scheduler.cycle + n && m.wf()
            && #[trigger] spec_timed_writes(m, post, ws)
}

} // verus!
