use vstd::prelude::*;
use crate::serial::SerialOutput;

verus! {

/// Register addresses of the I/O page.
pub const JOYP: usize = 0xFF00;

pub const SB: usize = 0xFF01;

pub const SC: usize = 0xFF02;

pub const DIV: usize = 0xFF04;

pub const TIMA: usize = 0xFF05;

pub const TMA: usize = 0xFF06;

pub const TAC: usize = 0xFF07;

pub const IF: usize = 0xFF0F;

pub const LCDC: usize = 0xFF40;

pub const STAT: usize = 0xFF41;

pub const LY: usize = 0xFF44;

pub const LYC: usize = 0xFF45;

pub const DMA: usize = 0xFF46;

pub const IE: usize = 0xFFFF;

/// The size of the address space.
pub const ADDRESS_SPACE: usize = 0x10000;

/// The cartridge's bank controller, as named by header byte 0x147.
#[derive(Clone, Copy, Debug, PartialEq, Eq, Structural)]
pub enum Mbc {
    Mbc0,
    Mbc1,
    Mbc2,
    Mbc3,
    Mbc5,
    Mbc6,
    Mbc7,
    Mmm01,
}

/// The controller that header byte 0x147 names.
pub open spec fn mbc_of(code: u8) -> Mbc {
    if code == 0x00 {
        Mbc::Mbc0
    } else if 0x01 <= code <= 0x03 {
        Mbc::Mbc1
    } else if 0x05 <= code <= 0x06 {
        Mbc::Mbc2
    } else if 0x0B <= code <= 0x0D {
        Mbc::Mmm01
    } else if 0x0F <= code <= 0x13 {
        Mbc::Mbc3
    } else if 0x19 <= code <= 0x1E {
        Mbc::Mbc5
    } else if code == 0x20 {
        Mbc::Mbc6
    } else if code == 0x22 {
        Mbc::Mbc7
    } else {
        Mbc::Mbc0
    }
}

/// Controllers with switchable ROM and RAM banks that this core maps.
pub open spec fn is_banked(mbc: Mbc) -> bool {
    mbc == Mbc::Mbc1 || mbc == Mbc::Mbc5
}

/// The mathematical state of the address space.
pub ghost struct MemView {
    pub memory: Seq<u8>,
    pub rom: Seq<u8>,
    pub ram: Seq<u8>,
    pub rombank: usize,
    pub rombanks: usize,
    pub rambank: usize,
    pub rambanks: usize,
    pub ram_enabled: bool,
    pub banking_mode: u8,
    pub start_cartridge: Seq<u8>,
    pub serial: Seq<u8>,
    pub cycles_div: u64,
    pub cycles_tima: u64,
    pub mbc: Mbc,
    pub input_buffer: u8,
}

/// The 64K address space: fixed memory cells, the cartridge's banked ROM and
/// RAM, the serial output and the divider/timer accumulators.
pub struct Memory {
    pub memory: Vec<u8>,
    pub rom: Vec<u8>,
    pub ram: Vec<u8>,
    pub rombank: usize,
    pub rombanks: usize,
    pub rambank: usize,
    pub rambanks: usize,
    pub ram_enabled: bool,
    pub banking_mode: u8,
    pub start_cartridge: Vec<u8>,
    pub serial_output: SerialOutput,
    pub cycles_div: u64,
    pub cycles_tima: u64,
    pub mbc: Mbc,
    pub input_buffer: u8,
}

impl View for Memory {
    type V = MemView;

    open spec fn view(&self) -> MemView {
        MemView {
            memory: self.memory@,
            rom: self.rom@,
            ram: self.ram@,
            rombank: self.rombank,
            rombanks: self.rombanks,
            rambank: self.rambank,
            rambanks: self.rambanks,
            ram_enabled: self.ram_enabled,
            banking_mode: self.banking_mode,
            start_cartridge: self.start_cartridge@,
            serial: self.serial_output@,
            cycles_div: self.cycles_div,
            cycles_tima: self.cycles_tima,
            mbc: self.mbc,
            input_buffer: self.input_buffer,
        }
    }
}

impl MemView {
    pub open spec fn wf(self) -> bool {
        &&& self.memory.len() == ADDRESS_SPACE
        &&& self.start_cartridge.len() == 0x100
        &&& 1 <= self.rombanks <= 512
        &&& self.rombank < 512
        &&& self.rambank < 16
        &&& self.banking_mode <= 1
        &&& self.cycles_div < 256
        &&& self.cycles_tima < 1024
    }

    /// Where a ROM-window address lands in the cartridge image.
    pub open spec fn rom_index(self, index: int) -> int {
        let bank = if index < 0x4000 {
            if self.mbc == Mbc::Mbc1 && self.banking_mode == 1 {
                (self.rombank & 0xE0) as int
            } else {
                0
            }
        } else {
            self.rombank as int
        };
        bank * 0x4000 + index % 0x4000
    }

    /// Where an external-RAM address lands in the RAM buffer.
    pub open spec fn ram_index(self, index: int) -> int {
        let bank = if self.banking_mode == 1 {
            self.rambank as int
        } else {
            0
        };
        bank * 0x2000 + index % 0x2000
    }

    /// What a read of `index` yields.
    #[verifier::opaque]
    pub open spec fn read(self, index: int) -> Option<u8> {
        if !is_banked(self.mbc) {
            if 0 <= index < ADDRESS_SPACE {
                Some(self.memory[index])
            } else {
                None
            }
        } else {
            if 0 <= index < 0x8000 {
                let i = self.rom_index(index);
                if i < self.rom.len() {
                    Some(self.rom[i])
                } else {
                    None
                }
            } else if 0xA000 <= index < 0xC000 {
                if !self.ram_enabled {
                    Some(0xFF)
                } else {
                    let i = self.ram_index(index);
                    if i < self.ram.len() {
                        Some(self.ram[i])
                    } else {
                        None
                    }
                }
            } else if 0 <= index < ADDRESS_SPACE {
                Some(self.memory[index])
            } else {
                None
            }
        }
    }

    /// A read that stands in zero for an unmapped address.
    pub open spec fn read_or_zero(self, index: int) -> u8 {
        match self.read(index) {
            Some(v) => v,
            None => 0,
        }
    }

    pub open spec fn with_memory(self, memory: Seq<u8>) -> MemView {
        MemView { memory, ..self }
    }

    /// This state with the timer accumulators of `t`.
    pub open spec fn with_timer(self, t: MemView) -> MemView {
        MemView { cycles_div: t.cycles_div, cycles_tima: t.cycles_tima, ..self }
    }
}

/// The ROM bank that a written bank number selects: zero stands for one, and the
/// number is taken modulo the number of banks.
pub open spec fn select_bank(v: usize, banks: usize) -> usize
    recommends
        banks >= 1,
{
    (if v == 0 {
        1usize
    } else {
        v
    }) % banks
}

/// A write into the ROM window: bank-controller control.
pub open spec fn bank_control(m: MemView, addr: int, value: u8) -> MemView {
    if m.mbc == Mbc::Mbc1 {
        if addr < 0x2000 {
            MemView { ram_enabled: value & 0x0F == 0x0A, ..m }
        } else if addr < 0x4000 {
            let low = (value & 0x1F) as usize;
            let low = if low == 0 {
                1usize
            } else {
                low
            };
            MemView { rombank: (((m.rombank & 0x60) | low) % m.rombanks) as usize, ..m }
        } else if addr < 0x6000 {
            let rombank = if m.rombanks > 0x20 {
                ((m.rombank & 0x1F) + ((value & 0x03) as usize % (m.rombanks / 32)) * 32) as usize
            } else {
                m.rombank
            };
            let rambank = if m.rambanks > 1 {
                (value & 0x03) as usize
            } else {
                m.rambank
            };
            MemView { rombank, rambank, ..m }
        } else {
            MemView { banking_mode: value & 0x01, ..m }
        }
    } else if m.mbc == Mbc::Mbc5 {
        if addr < 0x2000 {
            MemView { ram_enabled: value & 0x0F == 0x0A, ..m }
        } else if addr < 0x3000 {
            MemView { rombank: select_bank((m.rombank & 0x100) | (value as usize), m.rombanks), ..m }
        } else if addr < 0x4000 {
            MemView {
                rombank: select_bank((m.rombank & 0xFF) | (((value & 1) as usize) << 8), m.rombanks),
                ..m
            }
        } else if addr < 0x6000 {
            MemView { rambank: (value & 0x0F) as usize, ..m }
        } else {
            m
        }
    } else {
        m
    }
}

/// The low nibble of the joypad register for a selection written as `value`.
pub open spec fn joypad_nibble(value: u8, input: u8) -> u8 {
    let sel = (value & 0x30) >> 4;
    if sel == 0 {
        (input & 0x0F) | (input >> 4)
    } else if sel == 1 {
        input >> 4
    } else if sel == 2 {
        input & 0x0F
    } else {
        0x0F
    }
}

/// Object memory after a DMA transfer from page `value`.
pub open spec fn dma_copy(mem: Seq<u8>, value: u8) -> Seq<u8> {
    Seq::new(
        mem.len(),
        |i: int|
            if 0xFE00 <= i < 0xFEA0 {
                mem[value as int * 256 + (i - 0xFE00)]
            } else {
                mem[i]
            },
    )
}

/// The state after the CPU writes `value` at `addr`, side effects included.
#[verifier::opaque]
pub open spec fn write_model(m: MemView, addr: int, value: u8) -> MemView {
    if addr < 0x8000 {
        bank_control(m, addr, value)
    } else if 0xA000 <= addr < 0xC000 {
        let i = m.ram_index(addr);
        if is_banked(m.mbc) && m.ram_enabled && i < m.ram.len() {
            MemView { ram: m.ram.update(i, value), ..m }
        } else {
            m
        }
    } else if 0xC000 <= addr <= 0xDDFF {
        m.with_memory(m.memory.update(addr, value).update(addr + 0x2000, value))
    } else if 0xFEA0 <= addr <= 0xFEFF {
        m
    } else if addr == JOYP {
        m.with_memory(m.memory.update(addr, value | joypad_nibble(value, m.input_buffer)))
    } else if addr == SC {
        if value & 0x80 != 0 {
            MemView {
                memory: m.memory.update(addr, value & 0x7F),
                serial: m.serial.push(m.memory[SB as int]),
                ..m
            }
        } else {
            m.with_memory(m.memory.update(addr, value))
        }
    } else if addr == DIV {
        MemView { memory: m.memory.update(addr, 0), cycles_div: 0, cycles_tima: 0, ..m }
    } else if addr == DMA {
        m.with_memory(dma_copy(m.memory, value).update(addr, value))
    } else {
        m.with_memory(m.memory.update(addr, value))
    }
}

/// The number of cycles per counter tick that the timer control register selects.
pub open spec fn tac_rate(tac: u8) -> u64 {
    let s = tac & 0x03;
    if s == 0 {
        1024
    } else if s == 1 {
        16
    } else if s == 2 {
        64
    } else {
        256
    }
}

/// Whether the timer control register enables the counter.
pub open spec fn tac_on(tac: u8) -> bool {
    tac & 0x04 != 0
}

/// The counter after `n` ticks from `t`, reloading from `tma` on overflow.
pub open spec fn tima_steps(t: u8, tma: u8, n: nat) -> u8
    decreases n,
{
    if n == 0 {
        t
    } else {
        let s = tima_steps(t, tma, (n - 1) as nat);
        if s == 255 {
            tma
        } else {
            (s + 1) as u8
        }
    }
}

/// Whether any of `n` ticks from `t` overflows the counter.
pub open spec fn tima_overflows(t: u8, tma: u8, n: nat) -> bool
    decreases n,
{
    if n == 0 {
        false
    } else {
        tima_overflows(t, tma, (n - 1) as nat) || tima_steps(t, tma, (n - 1) as nat) == 255
    }
}

/// The state after `cycles` more cycles of the divider and the counter.
#[verifier::opaque]
pub open spec fn timer_model(m: MemView, cycles: u64) -> MemView {
    let total = m.cycles_div + cycles;
    let div = ((m.memory[DIV as int] + total / 256) % 256) as u8;
    let mem1 = m.memory.update(DIV as int, div);
    let tac = m.memory[TAC as int];
    if tac_on(tac) {
        let rate = tac_rate(tac);
        let tt = m.cycles_tima + cycles;
        let n = (tt / rate as int) as nat;
        let t0 = m.memory[TIMA as int];
        let tma = m.memory[TMA as int];
        let flags = if tima_overflows(t0, tma, n) {
            m.memory[IF as int] | 0x04
        } else {
            m.memory[IF as int]
        };
        MemView {
            memory: mem1.update(TIMA as int, tima_steps(t0, tma, n)).update(IF as int, flags),
            cycles_div: (total % 256) as u64,
            cycles_tima: (tt % rate as int) as u64,
            ..m
        }
    } else {
        MemView { memory: mem1, cycles_div: (total % 256) as u64, ..m }
    }
}

/// ROM banks that header byte 0x148 announces (`2 << code`); zero where the code
/// names no power-of-two size.
pub open spec fn rom_banks_of(code: u8) -> usize {
    if code <= 8 {
        (2 * vstd::arithmetic::power2::pow2(code as nat)) as usize
    } else {
        0
    }
}

/// RAM banks of 8 KiB that header byte 0x149 announces.
pub open spec fn ram_banks_of(code: u8) -> usize {
    if code == 1 || code == 2 {
        1
    } else if code == 3 {
        4
    } else if code == 4 {
        16
    } else if code == 5 {
        8
    } else {
        0
    }
}

/// The cartridge images that this core installs: a full header, and a known ROM
/// size when the controller switches banks.
pub open spec fn cartridge_ok(d: Seq<u8>) -> bool {
    &&& d.len() >= 0x150
    &&& is_banked(mbc_of(d[0x147])) ==> d[0x148] <= 8
}

/// Where the image's bytes stop under direct addressing: at its end, or at the
/// end of the 32 KiB ROM window.
pub open spec fn rom_window_end(d: Seq<u8>) -> int {
    if d.len() < 0x8000 {
        d.len() as int
    } else {
        0x8000
    }
}

/// `dst` with positions `start..end` taken from `src`.
pub open spec fn overlay(dst: Seq<u8>, src: Seq<u8>, start: int, end: int) -> Seq<u8> {
    Seq::new(dst.len(), |i: int| if start <= i < end { src[i] } else { dst[i] })
}

/// The state after a cartridge image `d` is installed with the boot program
/// `boot` over its first 256 bytes.
pub open spec fn load_model(m: MemView, d: Seq<u8>, boot: Seq<u8>) -> MemView {
    let mbc = mbc_of(d[0x147]);
    let start = d.subrange(0, 0x100);
    if !is_banked(mbc) {
        MemView {
            mbc,
            start_cartridge: start,
            memory: overlay(overlay(m.memory, boot, 0, 0x100), d, 0x100, rom_window_end(d)),
            ..m
        }
    } else {
        let rambanks = ram_banks_of(d[0x149]);
        MemView {
            mbc,
            start_cartridge: start,
            rom: overlay(d, boot, 0, 0x100),
            rombank: 1,
            rombanks: rom_banks_of(d[0x148]),
            rambank: 0,
            rambanks,
            ram: Seq::new((rambanks * 0x2000) as nat, |i: int| 0u8),
            ..m
        }
    }
}

/// The state once the boot program is unmapped and the cartridge's own first
/// 256 bytes are back.
pub open spec fn unmap_boot_model(m: MemView) -> MemView {
    if !is_banked(m.mbc) {
        m.with_memory(overlay(m.memory, m.start_cartridge, 0, 0x100))
    } else if m.rom.len() >= 0x100 {
        MemView { rom: overlay(m.rom, m.start_cartridge, 0, 0x100), ..m }
    } else {
        m
    }
}

impl MemView {
    /// Whether `index` maps to a storage cell that a store can reach.
    pub open spec fn writable(self, index: int) -> bool {
        if !is_banked(self.mbc) {
            0 <= index < ADDRESS_SPACE
        } else if 0 <= index < 0x8000 {
            self.rom_index(index) < self.rom.len()
        } else if 0xA000 <= index < 0xC000 {
            self.ram_enabled && self.ram_index(index) < self.ram.len()
        } else {
            0 <= index < ADDRESS_SPACE
        }
    }

    /// The state after `v` is stored in the cell that `index` maps to, with no
    /// write side effects.
    pub open spec fn store(self, index: int, v: u8) -> MemView {
        if !is_banked(self.mbc) {
            self.with_memory(self.memory.update(index, v))
        } else if 0 <= index < 0x8000 {
            MemView { rom: self.rom.update(self.rom_index(index), v), ..self }
        } else if 0xA000 <= index < 0xC000 {
            MemView { ram: self.ram.update(self.ram_index(index), v), ..self }
        } else {
            self.with_memory(self.memory.update(index, v))
        }
    }
}

/// The value of cell `i` at power-on: the I/O registers' reset values, 0xFF elsewhere.
pub open spec fn power_on_value(i: int) -> u8 {
    if i == 0xFF00 {
        0xCF
    } else if i == 0xFF01 {
        0x00
    } else if i == 0xFF02 {
        0x7E
    } else if i == 0xFF04 {
        0xAB
    } else if i == 0xFF05 {
        0x00
    } else if i == 0xFF06 {
        0x00
    } else if i == 0xFF07 {
        0xF8
    } else if i == 0xFF0F {
        0xE1
    } else if i == 0xFF10 {
        0x80
    } else if i == 0xFF11 {
        0xBF
    } else if i == 0xFF12 {
        0xF3
    } else if i == 0xFF13 {
        0xFF
    } else if i == 0xFF14 {
        0xBF
    } else if i == 0xFF16 {
        0x3F
    } else if i == 0xFF17 {
        0x00
    } else if i == 0xFF18 {
        0xFF
    } else if i == 0xFF19 {
        0xBF
    } else if i == 0xFF1A {
        0x7F
    } else if i == 0xFF1B {
        0xFF
    } else if i == 0xFF1C {
        0x9F
    } else if i == 0xFF1D {
        0xFF
    } else if i == 0xFF1E {
        0xBF
    } else if i == 0xFF20 {
        0xFF
    } else if i == 0xFF21 {
        0x00
    } else if i == 0xFF22 {
        0x00
    } else if i == 0xFF23 {
        0xBF
    } else if i == 0xFF24 {
        0x77
    } else if i == 0xFF25 {
        0xF3
    } else if i == 0xFF26 {
        0xF1
    } else if i == 0xFF40 {
        0x91
    } else if i == 0xFF41 {
        0x85
    } else if i == 0xFF42 {
        0x00
    } else if i == 0xFF43 {
        0x00
    } else if i == 0xFF44 {
        0x00
    } else if i == 0xFF45 {
        0x00
    } else if i == 0xFF46 {
        0xFF
    } else if i == 0xFF47 {
        0xFC
    } else if i == 0xFF48 {
        0xFF
    } else if i == 0xFF49 {
        0xFF
    } else if i == 0xFF4A {
        0x00
    } else if i == 0xFF4B {
        0x00
    } else if i == 0xFFFF {
        0x00
    } else {
        0xFF
    }
}

/// The address space at power-on, with no cartridge.
pub open spec fn power_on_view() -> MemView {
    MemView {
        memory: Seq::new(ADDRESS_SPACE as nat, |i: int| power_on_value(i)),
        rom: Seq::empty(),
        ram: Seq::empty(),
        rombank: 1,
        rombanks: 1,
        rambank: 0,
        rambanks: 0,
        ram_enabled: false,
        banking_mode: 0,
        start_cartridge: Seq::new(0x100, |i: int| 0u8),
        serial: Seq::empty(),
        cycles_div: 0,
        cycles_tima: 0,
        mbc: Mbc::Mbc0,
        input_buffer: 0xFF,
    }
}

impl Memory {
    pub open spec fn wf(&self) -> bool {
        self@.wf()
    }

    /// A fresh address space holding the registers' power-on values, with no
    /// cartridge.
    pub fn new() -> (r: Memory)
        ensures
            r.wf(),
            r@ == power_on_view(),
    {
        let mut memory: Vec<u8> = Vec::new();
        let mut i: usize = 0;
        while i < ADDRESS_SPACE
            invariant
                i <= ADDRESS_SPACE,
                memory@ == Seq::new(i as nat, |q: int| 0xFFu8),
            decreases ADDRESS_SPACE - i,
        {
            memory.push(0xFF);
            i = i + 1;
        }
        assert(memory@ =~= Seq::new(ADDRESS_SPACE as nat, |q: int| 0xFFu8));
        let mut start_cartridge: Vec<u8> = Vec::new();
        let mut j: usize = 0;
        while j < 0x100
            invariant
                j <= 0x100,
                start_cartridge@ == Seq::new(j as nat, |q: int| 0u8),
            decreases 0x100 - j,
        {
            start_cartridge.push(0);
            j = j + 1;
        }
        memory.set(0xFF00, 0xCF); // JOYP
        memory.set(0xFF01, 0x00); // SB
        memory.set(0xFF02, 0x7E); // SC
        memory.set(0xFF04, 0xAB); // DIV
        memory.set(0xFF05, 0x00); // TIMA
        memory.set(0xFF06, 0x00); // TMA
        memory.set(0xFF07, 0xF8); // TAC
        memory.set(0xFF0F, 0xE1); // IF
        memory.set(0xFF10, 0x80); // NR10
        memory.set(0xFF11, 0xBF); // NR11
        memory.set(0xFF12, 0xF3); // NR12
        memory.set(0xFF13, 0xFF); // NR13
        memory.set(0xFF14, 0xBF); // NR14
        memory.set(0xFF16, 0x3F); // NR21
        memory.set(0xFF17, 0x00); // NR22
        memory.set(0xFF18, 0xFF); // NR23
        memory.set(0xFF19, 0xBF); // NR24
        memory.set(0xFF1A, 0x7F); // NR30
        memory.set(0xFF1B, 0xFF); // NR31
        memory.set(0xFF1C, 0x9F); // NR32
        memory.set(0xFF1D, 0xFF); // NR33
        memory.set(0xFF1E, 0xBF); // NR34
        memory.set(0xFF20, 0xFF); // NR41
        memory.set(0xFF21, 0x00); // NR42
        memory.set(0xFF22, 0x00); // NR43
        memory.set(0xFF23, 0xBF); // NR44
        memory.set(0xFF24, 0x77); // NR50
        memory.set(0xFF25, 0xF3); // NR51
        memory.set(0xFF26, 0xF1); // NR52
        memory.set(0xFF40, 0x91); // LCDC
        memory.set(0xFF41, 0x85); // STAT
        memory.set(0xFF42, 0x00); // SCY
        memory.set(0xFF43, 0x00); // SCX
        memory.set(0xFF44, 0x00); // LY
        memory.set(0xFF45, 0x00); // LYC
        memory.set(0xFF46, 0xFF); // DMA
        memory.set(0xFF47, 0xFC); // BGP
        memory.set(0xFF48, 0xFF); // OBP0
        memory.set(0xFF49, 0xFF); // OBP1
        memory.set(0xFF4A, 0x00); // WY
        memory.set(0xFF4B, 0x00); // WX
        memory.set(0xFFFF, 0x00); // IE
        assert(memory@ =~= Seq::new(ADDRESS_SPACE as nat, |q: int| power_on_value(q)));
        assert(start_cartridge@ =~= Seq::new(0x100, |q: int| 0u8));
        Memory {
            memory,
            rom: Vec::new(),
            ram: Vec::new(),
            rombank: 1,
            rombanks: 1,
            rambank: 0,
            rambanks: 0,
            ram_enabled: false,
            banking_mode: 0,
            start_cartridge,
            serial_output: SerialOutput::new(),
            cycles_div: 0,
            cycles_tima: 0,
            mbc: Mbc::Mbc0,
            input_buffer: 0xFF,
        }
    }
    fn rom_index(&self, index: usize) -> (r: usize)
        requires
            self.wf(),
            index < 0x8000,
        ensures
            r == self@.rom_index(index as int),
    {
        let bank: usize = if index < 0x4000 {
            if self.mbc == Mbc::Mbc1 && self.banking_mode == 1 {
                self.rombank & 0xE0
            } else {
                0
            }
        } else {
            self.rombank
        };
        proof {
            let rb = self.rombank;
            assert(rb & 0xE0 <= rb) by (bit_vector);
        }
        bank * 0x4000 + index % 0x4000
    }

    fn ram_index(&self, index: usize) -> (r: usize)
        requires
            self.wf(),
        ensures
            r == self@.ram_index(index as int),
    {
        let bank: usize = if self.banking_mode == 1 {
            self.rambank
        } else {
            0
        };
        bank * 0x2000 + index % 0x2000
    }

    /// Reads the byte that address `index` maps to under the active controller;
    /// `None` where nothing is mapped.
    #[verifier::rlimit(30)]
    pub fn get(&self, index: usize) -> (r: Option<u8>)
        requires
            self.wf(),
        ensures
            r == self@.read(index as int),
    {
        proof {
            reveal(MemView::read);
        }
        match self.mbc {
            Mbc::Mbc0 | Mbc::Mbc2 | Mbc::Mbc3 | Mbc::Mmm01 | Mbc::Mbc6 | Mbc::Mbc7 => {
                if index < ADDRESS_SPACE {
                    Some(self.memory[index])
                } else {
                    None
                }
            },
            Mbc::Mbc1 | Mbc::Mbc5 => {
                if index < 0x8000 {
                    let i = self.rom_index(index);
                    if i < self.rom.len() {
                        Some(self.rom[i])
                    } else {
                        None
                    }
                } else if 0xA000 <= index && index < 0xC000 {
                    if !self.ram_enabled {
                        Some(0xFF)
                    } else {
                        let i = self.ram_index(index);
                        if i < self.ram.len() {
                            Some(self.ram[i])
                        } else {
                            None
                        }
                    }
                } else if index < ADDRESS_SPACE {
                    Some(self.memory[index])
                } else {
                    None
                }
            },
        }
    }

    /// The storage cell that `index` maps to, for a store without write side
    /// effects; `None` where nothing writable is mapped.
    #[verifier::rlimit(30)]
    pub fn get_mut(&mut self, index: usize) -> (r: Option<&mut u8>)
        requires
            old(self).wf(),
        ensures
            r is Some <==> old(self)@.writable(index as int),
            match r {
                Some(e) => *e == old(self)@.read_or_zero(index as int) && final(self)@ == old(
                    self,
                )@.store(index as int, *final(e)),
                None => final(self)@ == old(self)@,
            },
    {
        proof {
            reveal(MemView::read);
        }
        match self.mbc {
            Mbc::Mbc0 | Mbc::Mbc2 | Mbc::Mbc3 | Mbc::Mmm01 | Mbc::Mbc6 | Mbc::Mbc7 => {
                if index < ADDRESS_SPACE {
                    Some(&mut self.memory[index])
                } else {
                    None
                }
            },
            Mbc::Mbc1 | Mbc::Mbc5 => {
                if index < 0x8000 {
                    let i = self.rom_index(index);
                    if i < self.rom.len() {
                        Some(&mut self.rom[i])
                    } else {
                        None
                    }
                } else if 0xA000 <= index && index < 0xC000 {
                    if !self.ram_enabled {
                        return None;
                    }
                    let i = self.ram_index(index);
                    if i < self.ram.len() {
                        Some(&mut self.ram[i])
                    } else {
                        None
                    }
                } else if index < ADDRESS_SPACE {
                    Some(&mut self.memory[index])
                } else {
                    None
                }
            },
        }
    }

    /// Reads `index`, standing in zero for an unmapped address.
    pub fn read_or_zero(&self, index: usize) -> (r: u8)
        requires
            self.wf(),
        ensures
            r == self@.read_or_zero(index as int),
    {
        match self.get(index) {
            Some(v) => v,
            None => 0,
        }
    }

    /// Advances the divider and, while enabled, the counter by `cycles` cycles.
    #[verifier::rlimit(30)]
    pub fn update_timer(&mut self, cycles: u64)
        requires
            old(self).wf(),
            cycles <= u64::MAX - 1024,
        ensures
            final(self)@ == timer_model(old(self)@, cycles),
            final(self).wf(),
    {
        proof {
            reveal(timer_model);
        }
        let ghost m = self@;
        let mut acc = self.cycles_div + cycles;
        let mut div = self.memory[DIV];
        let ghost mut k: int = 0;
        while acc >= 256
            invariant
                0 <= k,
                acc + 256 * k == m.cycles_div + cycles,
                div == ((m.memory[DIV as int] + k) % 256) as u8,
            decreases acc,
        {
            div = div.wrapping_add(1);
            acc = acc - 256;
            proof {
                k = k + 1;
            }
        }
        proof {
            vstd::arithmetic::div_mod::lemma_fundamental_div_mod_converse(
                m.cycles_div + cycles,
                256,
                k,
                acc as int,
            );
        }
        self.memory.set(DIV, div);
        self.cycles_div = acc;
        if self.tac_enabled() {
            let rate = self.tac_rate();
            let tma = self.memory[TMA];
            let mut tima = self.memory[TIMA];
            let mut flags = self.memory[IF];
            let mut acc = self.cycles_tima + cycles;
            let ghost t0 = tima;
            let ghost f0 = flags;
            let ghost mut n: nat = 0;
            while acc >= rate
                invariant
                    rate == tac_rate(m.memory[TAC as int]),
                    acc + rate * n == m.cycles_tima + cycles,
                    tima == tima_steps(t0, tma, n),
                    flags == if tima_overflows(t0, tma, n) {
                        f0 | 0x04
                    } else {
                        f0
                    },
                decreases acc,
            {
                proof {
                    assert((f0 | 0x04) | 0x04 == f0 | 0x04) by (bit_vector);
                }
                if tima == 255 {
                    flags = flags | 0x04;
                    tima = tma;
                } else {
                    tima = tima + 1;
                }
                acc = acc - rate;
                proof {
                    n = n + 1;
                }
            }
            proof {
                vstd::arithmetic::div_mod::lemma_fundamental_div_mod_converse(
                    m.cycles_tima + cycles,
                    rate as int,
                    n as int,
                    acc as int,
                );
            }
            self.memory.set(TIMA, tima);
            self.memory.set(IF, flags);
            self.cycles_tima = acc;
        }
        proof {
            assert(self@ =~= timer_model(m, cycles));
        }
    }

    /// Whether the timer control register enables the counter.
    pub fn tac_enabled(&self) -> (r: bool)
        requires
            self.wf(),
        ensures
            r == tac_on(self@.memory[TAC as int]),
    {
        self.memory[TAC] & 0x04 != 0
    }

    /// The number of cycles per counter tick.
    fn tac_rate(&self) -> (r: u64)
        requires
            self.wf(),
        ensures
            r == tac_rate(self@.memory[TAC as int]),
            16 <= r <= 1024,
    {
        let select = self.memory[TAC] & 0x03;
        if select == 0 {
            1024
        } else if select == 1 {
            16
        } else if select == 2 {
            64
        } else {
            256
        }
    }

    /// Selects the bank controller that header byte `code` names.
    pub fn select_mbc(&mut self, code: u8)
        requires
            old(self).wf(),
        ensures
            final(self)@ == (MemView { mbc: mbc_of(code), ..old(self)@ }),
            final(self).wf(),
    {
        self.mbc = if code == 0x00 {
            Mbc::Mbc0
        } else if 0x01 <= code && code <= 0x03 {
            Mbc::Mbc1
        } else if 0x05 <= code && code <= 0x06 {
            Mbc::Mbc2
        } else if 0x0B <= code && code <= 0x0D {
            Mbc::Mmm01
        } else if 0x0F <= code && code <= 0x13 {
            Mbc::Mbc3
        } else if 0x19 <= code && code <= 0x1E {
            Mbc::Mbc5
        } else if code == 0x20 {
            Mbc::Mbc6
        } else if code == 0x22 {
            Mbc::Mbc7
        } else {
            Mbc::Mbc0
        };
    }

    /// Installs the cartridge image `cartridge_data`: selects the controller that
    /// its header names, keeps its first 256 bytes aside, maps `boot` over them,
    /// and sizes the banked ROM and RAM from the header.
    #[verifier::rlimit(30)]
    pub fn write_cartridge(&mut self, cartridge_data: &[u8], boot: &[u8])
        requires
            old(self).wf(),
            boot@.len() == 0x100,
            cartridge_ok(cartridge_data@),
        ensures
            final(self)@ == load_model(old(self)@, cartridge_data@, boot@),
            final(self).wf(),
    {
        let ghost m = self@;
        let data_len = cartridge_data.len();
        self.select_mbc(cartridge_data[0x147]);
        let mut start: Vec<u8> = Vec::new();
        let mut i: usize = 0;
        while i < 0x100
            invariant
                i <= 0x100,
                data_len == cartridge_data@.len(),
                data_len >= 0x150,
                start@ == cartridge_data@.subrange(0, i as int),
            decreases 0x100 - i,
        {
            start.push(cartridge_data[i]);
            i = i + 1;
        }
        assert(start@ =~= cartridge_data@.subrange(0, 0x100));
        self.start_cartridge = start;
        if !(self.mbc == Mbc::Mbc1 || self.mbc == Mbc::Mbc5) {
            let end: usize = if data_len < 0x8000 {
                data_len
            } else {
                0x8000
            };
            overwrite(&mut self.memory, boot, 0, 0x100);
            overwrite(&mut self.memory, cartridge_data, 0x100, end);
        } else {
            let mut rom: Vec<u8> = Vec::new();
            let mut j: usize = 0;
            while j < data_len
                invariant
                    j <= data_len,
                    data_len == cartridge_data@.len(),
                    boot@.len() == 0x100,
                    rom@ == overlay(cartridge_data@, boot@, 0, 0x100).subrange(0, j as int),
                decreases data_len - j,
            {
                let b = if j < 0x100 {
                    boot[j]
                } else {
                    cartridge_data[j]
                };
                rom.push(b);
                j = j + 1;
            }
            assert(rom@ =~= overlay(cartridge_data@, boot@, 0, 0x100));
            self.rom = rom;
            self.rombank = 1;
            self.rombanks = rom_bank_count(cartridge_data[0x148]);
            self.rambank = 0;
            self.rambanks = ram_bank_count(cartridge_data[0x149]);
            let size = self.rambanks * 0x2000;
            let mut ram: Vec<u8> = Vec::new();
            let mut k: usize = 0;
            while k < size
                invariant
                    k <= size,
                    ram@ == Seq::new(k as nat, |q: int| 0u8),
                decreases size - k,
            {
                ram.push(0);
                k = k + 1;
            }
            assert(ram@ =~= Seq::new((self.rambanks * 0x2000) as nat, |q: int| 0u8));
            self.ram = ram;
        }
        proof {
            assert(self@ =~= load_model(m, cartridge_data@, boot@));
        }
    }

    /// Unmaps the boot program: the cartridge's first 256 bytes are restored.
    pub fn disable_rom(&mut self)
        requires
            old(self).wf(),
        ensures
            final(self)@ == unmap_boot_model(old(self)@),
            final(self).wf(),
    {
        if !(self.mbc == Mbc::Mbc1 || self.mbc == Mbc::Mbc5) {
            overwrite(&mut self.memory, self.start_cartridge.as_slice(), 0, 0x100);
        } else if self.rom.len() >= 0x100 {
            overwrite(&mut self.rom, self.start_cartridge.as_slice(), 0, 0x100);
        }
    }

    /// The bytes sent out through the serial port so far.
    pub fn get_serial_output(&self) -> (r: &SerialOutput)
        ensures
            r@ == self@.serial,
    {
        &self.serial_output
    }

    /// Handles a write into the ROM window as a bank-controller command.
    fn write_bank_control(&mut self, address: usize, value: u8)
        requires
            old(self).wf(),
            address < 0x8000,
        ensures
            final(self)@ == bank_control(old(self)@, address as int, value),
            final(self).wf(),
    {
        if self.mbc == Mbc::Mbc1 {
            if address < 0x2000 {
                self.ram_enabled = value & 0x0F == 0x0A;
            } else if address < 0x4000 {
                let low = (value & 0x1F) as usize;
                let low: usize = if low == 0 {
                    1
                } else {
                    low
                };
                self.rombank = ((self.rombank & 0x60) | low) % self.rombanks;
            } else if address < 0x6000 {
                if self.rombanks > 0x20 {
                    let upper = (value & 0x03) as usize % (self.rombanks / 32);
                    proof {
                        let rb = self.rombank;
                        assert(rb & 0x1F < 32) by (bit_vector);
                    }
                    self.rombank = (self.rombank & 0x1F) + upper * 32;
                }
                if self.rambanks > 1 {
                    self.rambank = (value & 0x03) as usize;
                }
                proof {
                    assert(value & 0x03 < 16) by (bit_vector);
                }
            } else {
                self.banking_mode = value & 0x01;
                proof {
                    assert(value & 0x01 <= 1) by (bit_vector);
                }
            }
        } else if self.mbc == Mbc::Mbc5 {
            if address < 0x2000 {
                self.ram_enabled = value & 0x0F == 0x0A;
            } else if address < 0x3000 {
                self.rombank = select_rom_bank((self.rombank & 0x100) | (value as usize), self.rombanks);
            } else if address < 0x4000 {
                self.rombank = select_rom_bank(
                    (self.rombank & 0xFF) | (((value & 1) as usize) << 8),
                    self.rombanks,
                );
            } else if address < 0x6000 {
                self.rambank = (value & 0x0F) as usize;
                proof {
                    assert(value & 0x0F < 16) by (bit_vector);
                }
            }
        }
    }

    /// Writes `value` at `address` as the CPU does: bank-controller commands in the
    /// ROM window, echo mirroring of work RAM, dropped writes to the unusable
    /// region, and the side effects of the joypad, serial, divider and DMA
    /// registers.
    #[verifier::rlimit(30)]
    pub fn write_memory(&mut self, address: usize, value: u8)
        requires
            old(self).wf(),
            address < ADDRESS_SPACE,
        ensures
            final(self)@ == write_model(old(self)@, address as int, value),
            final(self).wf(),
    {
        proof {
            reveal(write_model);
        }
        if address < 0x8000 {
            self.write_bank_control(address, value);
        } else if 0xA000 <= address && address < 0xC000 {
            if self.mbc == Mbc::Mbc1 || self.mbc == Mbc::Mbc5 {
                if self.ram_enabled {
                    let i = self.ram_index(address);
                    if i < self.ram.len() {
                        self.ram.set(i, value);
                    }
                }
            }
        } else if 0xC000 <= address && address <= 0xDDFF {
            self.memory.set(address, value);
            self.memory.set(address + 0x2000, value);
        } else if 0xFEA0 <= address && address <= 0xFEFF {
        } else if address == JOYP {
            let nibble = joypad_bits(value, self.input_buffer);
            self.memory.set(address, value | nibble);
        } else if address == SC {
            if value & 0x80 != 0 {
                let byte = self.memory[SB];
                self.serial_output.write_byte(byte);
                self.memory.set(address, value & 0x7F);
            } else {
                self.memory.set(address, value);
            }
        } else if address == DIV {
            self.cycles_div = 0;
            self.cycles_tima = 0;
            self.memory.set(address, 0);
        } else if address == DMA {
            dma_transfer(&mut self.memory, value);
            self.memory.set(address, value);
        } else {
            self.memory.set(address, value);
        }
    }
}

/// Whether this core can install the cartridge image `data`.
pub fn cartridge_supported(data: &[u8]) -> (r: bool)
    ensures
        r == cartridge_ok(data@),
{
    if data.len() < 0x150 {
        return false;
    }
    let code = data[0x147];
    let banked = (0x01 <= code && code <= 0x03) || (0x19 <= code && code <= 0x1E);
    !banked || data[0x148] <= 8
}

fn rom_bank_count(code: u8) -> (r: usize)
    requires
        code <= 8,
    ensures
        r == rom_banks_of(code),
        2 <= r <= 512,
{
    proof {
        vstd::arithmetic::power2::lemma2_to64();
    }
    match code {
        0 => 2,
        1 => 4,
        2 => 8,
        3 => 16,
        4 => 32,
        5 => 64,
        6 => 128,
        7 => 256,
        _ => 512,
    }
}

fn ram_bank_count(code: u8) -> (r: usize)
    ensures
        r == ram_banks_of(code),
        r <= 16,
{
    match code {
        1 | 2 => 1,
        3 => 4,
        4 => 16,
        5 => 8,
        _ => 0,
    }
}

/// Copies `src[start..end]` over `dst[start..end]`.
fn overwrite(dst: &mut Vec<u8>, src: &[u8], start: usize, end: usize)
    requires
        start <= end <= old(dst)@.len(),
        end <= src@.len(),
    ensures
        final(dst)@ == overlay(old(dst)@, src@, start as int, end as int),
{
    let ghost orig = dst@;
    let mut i: usize = start;
    while i < end
        invariant
            start <= i <= end,
            end <= src@.len(),
            orig.len() == dst@.len(),
            end <= orig.len(),
            dst@ == overlay(orig, src@, start as int, i as int),
        decreases end - i,
    {
        dst.set(i, src[i]);
        i = i + 1;
        assert(dst@ =~= overlay(orig, src@, start as int, i as int));
    }
}

fn select_rom_bank(v: usize, banks: usize) -> (r: usize)
    requires
        1 <= banks <= 512,
    ensures
        r == select_bank(v, banks),
        r < banks,
{
    let v: usize = if v == 0 {
        1
    } else {
        v
    };
    v % banks
}

fn joypad_bits(value: u8, input: u8) -> (r: u8)
    ensures
        r == joypad_nibble(value, input),
{
    let sel = (value & 0x30) >> 4;
    if sel == 0 {
        (input & 0x0F) | (input >> 4)
    } else if sel == 1 {
        input >> 4
    } else if sel == 2 {
        input & 0x0F
    } else {
        0x0F
    }
}

/// Copies the 160 bytes at page `value` into object memory.
fn dma_transfer(mem: &mut Vec<u8>, value: u8)
    requires
        old(mem)@.len() == ADDRESS_SPACE,
    ensures
        final(mem)@ == dma_copy(old(mem)@, value),
{
    let ghost orig = mem@;
    let src = (value as usize) * 256;
    let mut i: usize = 0;
    while i < 0xA0
        invariant
            i <= 0xA0,
            src == value as int * 256,
            orig.len() == ADDRESS_SPACE,
            mem@.len() == ADDRESS_SPACE,
            forall|j: int|
                0 <= j < ADDRESS_SPACE ==> #[trigger] mem@[j] == if 0xFE00 <= j < 0xFE00 + i {
                    orig[src + (j - 0xFE00)]
                } else {
                    orig[j]
                },
        decreases 0xA0 - i,
    {
        let b = mem[src + i];
        mem.set(0xFE00 + i, b);
        i = i + 1;
    }
    assert(mem@ =~= dma_copy(orig, value));
}

} // verus!

verus! {

/// A write keeps the controller and the size of the address space.
pub proof fn lemma_write_keeps(m: MemView, a: int, x: u8)
    requires
        m.memory.len() == ADDRESS_SPACE,
        a < ADDRESS_SPACE,
    ensures
        write_model(m, a, x).mbc == m.mbc,
        write_model(m, a, x).memory.len() == ADDRESS_SPACE,
{
    reveal(write_model);
}

/// Every interrupt request that was set in `a` is still set in `b`.
pub open spec fn requests_kept(a: MemView, b: MemView) -> bool {
    a.memory[IF as int] & b.memory[IF as int] == a.memory[IF as int]
}

pub proof fn lemma_requests_trans(a: MemView, b: MemView, c: MemView)
    requires
        requests_kept(a, b),
        requests_kept(b, c),
    ensures
        requests_kept(a, c),
{
    let x = a.memory[IF as int];
    let y = b.memory[IF as int];
    let z = c.memory[IF as int];
    assert(x & z == x) by (bit_vector)
        requires
            x & y == x,
            y & z == y,
    ;
}

/// The timer keeps every interrupt request, and the interrupt-enable register.
pub proof fn lemma_timer_keeps_requests(m: MemView, cycles: u64)
    requires
        m.wf(),
    ensures
        requests_kept(m, timer_model(m, cycles)),
        timer_model(m, cycles).memory[IE as int] == m.memory[IE as int],
        timer_model(m, cycles) == m.with_memory(timer_model(m, cycles).memory).with_timer(
            timer_model(m, cycles),
        ),
        timer_model(m, cycles).memory.len() == m.memory.len(),
{
    reveal(timer_model);
    let x = m.memory[IF as int];
    assert(x & (x | 0x04) == x && x & x == x) by (bit_vector);
}

/// A write to a plain register, with no side effect, only stores the byte.
pub proof fn lemma_write_plain(m: MemView, a: int, x: u8)
    requires
        0xFF05 <= a <= 0xFF3F || 0xFF40 <= a <= 0xFF45 || 0xFF47 <= a <= 0xFFFF,
    ensures
        write_model(m, a, x) == m.with_memory(m.memory.update(a, x)),
{
    reveal(write_model);
}

/// Where the controller maps the I/O page, a read there yields the stored cell.
pub proof fn lemma_io_read(m: MemView, a: int)
    requires
        m.memory.len() == ADDRESS_SPACE,
        0xFF00 <= a < ADDRESS_SPACE,
    ensures
        m.read_or_zero(a) == m.memory[a],
{
    reveal(MemView::read);
}

/// A plain I/O register reads back what was written to it.
pub proof fn lemma_write_io_readback(m: MemView, a: int, x: u8)
    requires
        m.memory.len() == ADDRESS_SPACE,
        0xFF05 <= a <= 0xFF3F || 0xFF40 <= a <= 0xFF45 || 0xFF47 <= a <= 0xFFFF,
    ensures
        write_model(m, a, x).read(a) == Some(x),
{
    reveal(write_model);
    reveal(MemView::read);
}

/// Work RAM is mirrored: a byte written at `a` in `0xC000..=0xDDFF` reads back at
/// both `a` and `a + 0x2000`.
pub proof fn lemma_echo_mirror(m: MemView, a: int, x: u8)
    requires
        m.wf(),
        0xC000 <= a <= 0xDDFF,
    ensures
        write_model(m, a, x).read(a + 0x2000) == Some(x),
        write_model(m, a, x).read(a) == Some(x),
{
    reveal(write_model);
    reveal(MemView::read);
}

/// Writing the divider register, whatever the value, zeroes it and both timer
/// accumulators.
pub proof fn lemma_divider_write(m: MemView, x: u8)
    requires
        m.wf(),
    ensures
        write_model(m, DIV as int, x).read(DIV as int) == Some(0u8),
        write_model(m, DIV as int, x).cycles_div == 0,
        write_model(m, DIV as int, x).cycles_tima == 0,
{
    reveal(write_model);
    reveal(MemView::read);
}

/// Writing `v` to the ROM-bank register of a switchable controller with `N`
/// banks selects bank `((v == 0) ? 1 : v) mod N`, and the switchable window then
/// shows that bank.
pub proof fn lemma_bank_select(m: MemView, addr: int, v: u8)
    requires
        m.wf(),
        is_banked(m.mbc),
        m.mbc == Mbc::Mbc1 ==> 0x2000 <= addr < 0x4000 && v < 0x20 && m.rombanks <= 32
            && m.rombank < 32,
        m.mbc == Mbc::Mbc5 ==> 0x2000 <= addr < 0x3000 && m.rombank < 256,
    ensures
        write_model(m, addr, v).rombank == select_bank(v as usize, m.rombanks),
        forall|o: int|
            0 <= o < 0x4000 ==> {
                let i = select_bank(v as usize, m.rombanks) * 0x4000 + o;
                #[trigger] write_model(m, addr, v).read(0x4000 + o) == if i < m.rom.len() {
                    Some(m.rom[i])
                } else {
                    None
                }
            },
{
    reveal(write_model);
    reveal(MemView::read);
    let rb = m.rombank;
    let vv = v as usize;
    if m.mbc == Mbc::Mbc1 {
        assert((rb & 0x60) | (vv & 0x1F) == vv && vv & 0x1F == vv && rb & 0x60 == 0 && (rb & 0x60)
            | 1usize == 1usize) by (bit_vector)
            requires
                rb < 32,
                vv < 32,
        ;
        assert(v & 0x1F == v) by (bit_vector)
            requires
                v < 0x20,
        ;
    } else {
        assert((rb & 0x100) | vv == vv) by (bit_vector)
            requires
                rb < 256,
                vv < 256,
        ;
    }
    let w = write_model(m, addr, v);
    assert forall|o: int| 0 <= o < 0x4000 implies {
        let i = select_bank(v as usize, m.rombanks) * 0x4000 + o;
        #[trigger] w.read(0x4000 + o) == if i < m.rom.len() {
            Some(m.rom[i])
        } else {
            None
        }
    } by {
        assert((0x4000 + o) % 0x4000 == o);
    }
}

/// The divider register counts once every 256 cycles, whether or not the
/// counter is enabled.
pub proof fn lemma_divider_period(m: MemView)
    requires
        m.wf(),
    ensures
        timer_model(m, 256).memory[DIV as int] == (m.memory[DIV as int] + 1) % 256,
        timer_model(m, 256).read(DIV as int) == Some(((m.read_or_zero(DIV as int) + 1) % 256) as u8),
        timer_model(m, 256).cycles_div == m.cycles_div,
{
    reveal(timer_model);
    reveal(MemView::read);
    assert((m.cycles_div + 256) / 256 == 1);
    assert((m.cycles_div + 256) % 256 == m.cycles_div);
}

} // verus!
