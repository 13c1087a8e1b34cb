use vstd::prelude::*;
use crate::cpu::{
    Cpu, step_model, update_ime_model, interrupt_model, pending_model, undefined_opcode, set_pc,
    add16,
};
use crate::memory::{
    Memory, MemView, cartridge_ok, load_model, timer_model, unmap_boot_model,
    requests_kept, lemma_requests_trans, power_on_view, lemma_timer_keeps_requests, lemma_io_read, IE, IF,
};
use crate::ppu::{PPU, ppu_step, timing_at, frame_pos, FRAME_CYCLES};
use crate::registers::{set_flag_bit, FLAG_H, FLAG_C};

verus! {

/// Why the machine stopped.
#[derive(Clone, Copy, Debug, PartialEq, Eq, Structural)]
pub enum Fault {
    /// The opcode at `pc` has no defined behaviour (STOP or an unassigned one).
    UndefinedOpcode { opcode: u8, pc: u16 },
    /// Nothing is mapped at `pc`, where the next opcode should be.
    UnmappedAddress { pc: u16 },
}

/// One instruction `op` and what follows it in the same step: the timer runs
/// for its cycles, the delayed interrupt enable counts down, PC moves past the
/// opcode unless the instruction set it, and pending interrupts are checked
/// (the timer runs for a dispatch too). The processor, the address space
/// before the pixel pipeline runs, and the cycles taken.
pub open spec fn cycle_model(c: Cpu, m: MemView, op: u8) -> (Cpu, MemView, u64) {
    let (c1, m1, jumped, cycles) = step_model(c, m, op);
    let m2 = timer_model(m1, cycles);
    let c2 = update_ime_model(c1);
    let c3 = if jumped {
        c2
    } else {
        set_pc(c2, add16(c2.registers.pc, 1))
    };
    let (c4, m3, extra) = interrupt_model(c3, m2);
    let m4 = if extra > 0 {
        timer_model(m3, extra)
    } else {
        m3
    };
    (c4, m4, (cycles + extra) as u64)
}

/// One step of the machine as `execute_cycle` performs it, from `g0` to `g1` with
/// result `r`. A halted processor idles for 4 cycles (pixel pipeline and timer
/// run), keeps every interrupt request, and wakes once a request is enabled and
/// pending. Otherwise the opcode at PC runs as `cycle_model` says and the pixel
/// pipeline runs for the same cycles; when PC reaches 0x0100 the boot program is
/// unmapped. An unmapped PC or an undefined opcode stops the machine with
/// nothing changed, and the fault describes that state.
pub open spec fn step_rel(g0: Gameboy, g1: Gameboy, r: Result<(), Fault>) -> bool {
    &&& g1.wf()
    &&& match r {
        Err(Fault::UndefinedOpcode { opcode, pc }) => g1.cpu.registers.pc == pc
            && g1.memory@.read(pc as int) == Some(opcode) && undefined_opcode(opcode)
            && !g1.cpu.halted,
        Err(Fault::UnmappedAddress { pc }) => g1.cpu.registers.pc == pc
            && g1.memory@.read(pc as int) is None && !g1.cpu.halted,
        Ok(_) => true,
    }
    &&& ({
        let c = g0.cpu;
        let m = g0.memory@;
        let pc = c.registers.pc;
        let t = g0.ppu;
        if c.halted {
            &&& r is Ok
            &&& g1.cycles == g0.cycles + 4
            &&& g1.ppu.timing() == timing_at(
                (frame_pos(t.mode, t.line, t.mode_clock) + 4) % (FRAME_CYCLES as int),
            )
            &&& exists|mp: MemView|
                #[trigger] ppu_step(t, m, 4, g1.ppu, mp) && timer_model(mp, 4) == g1.memory@
            &&& g1.cpu == (Cpu {
                halted: pending_model(g1.memory@) == 0,
                ..c
            })
            &&& requests_kept(m, g1.memory@)
            &&& pending_model(m) != 0 ==> !g1.cpu.halted
        } else {
            match m.read(pc as int) {
                None => r == Err::<(), Fault>(Fault::UnmappedAddress { pc }) && g1 == g0,
                Some(op) => if undefined_opcode(op) {
                    r == Err::<(), Fault>(Fault::UndefinedOpcode { opcode: op, pc })
                        && g1 == g0
                } else {
                    let (c4, m4, n) = cycle_model(c, m, op);
                    &&& r is Ok
                    &&& g1.cpu == c4
                    &&& g1.cycles == g0.cycles + n
                    &&& g1.ppu.timing() == timing_at(
                        (frame_pos(t.mode, t.line, t.mode_clock) + n) % (FRAME_CYCLES as int),
                    )
                    &&& exists|mp: MemView|
                        #[trigger] ppu_step(t, m4, n, g1.ppu, mp) && unmap_if_done(c4, mp) == g1.memory@
                },
            }
        }
    })
}

/// `t` is a run of the machine: each state follows from the one before by a
/// successful step.
pub open spec fn is_run(t: Seq<Gameboy>) -> bool {
    &&& t.len() >= 1
    &&& forall|i: int| 0 <= i < t.len() - 1 ==> #[trigger] step_rel(t[i], t[i + 1], Ok(()))
}

/// The whole machine: processor, pixel pipeline and address space, with the
/// cycles counted since the caller last reset the count.
pub struct Gameboy {
    pub cpu: Cpu,
    pub ppu: PPU,
    pub memory: Memory,
    pub cycles: u64,
}

impl Gameboy {
    pub open spec fn wf(&self) -> bool {
        self.cpu.wf() && self.ppu.wf() && self.memory.wf()
    }

    /// A machine at power-on with no cartridge.
    pub fn new() -> (r: Gameboy)
        ensures
            r.wf(),
            r.cpu == Cpu::new_spec(),
            r.ppu.is_reset(),
            r.memory@ == power_on_view(),
            r.cycles == 0,
    {
        Gameboy { cpu: Cpu::new(), ppu: PPU::new(), memory: Memory::new(), cycles: 0 }
    }

    /// Installs the cartridge image `data` with the boot program `boot` over its
    /// first 256 bytes. A nonzero header checksum (byte 0x14D) presets the
    /// half-carry and carry flags.
    pub fn load_cartridge(&mut self, data: &[u8], boot: &[u8])
        requires
            old(self).wf(),
            boot@.len() == 0x100,
            cartridge_ok(data@),
        ensures
            final(self).wf(),
            final(self).memory@ == load_model(old(self).memory@, data@, boot@),
            final(self).cpu.registers.f == if data@[0x14D] != 0 {
                set_flag_bit(set_flag_bit(old(self).cpu.registers.f, FLAG_H, true), FLAG_C, true)
            } else {
                old(self).cpu.registers.f
            },
            final(self).cpu == (Cpu {
                registers: crate::registers::Registers {
                    f: final(self).cpu.registers.f,
                    ..old(self).cpu.registers
                },
                ..old(self).cpu
            }),
            final(self).ppu == old(self).ppu,
            final(self).cycles == old(self).cycles,
    {
        self.memory.write_cartridge(data, boot);
        if data[0x14D] != 0 {
            self.cpu.registers.set_h(true);
            self.cpu.registers.set_c(true);
        }
    }

    pub fn toggle_debug_registers(&mut self)
        ensures
            final(self).cpu.debug_registers == !old(self).cpu.debug_registers,
            final(self).cpu == (Cpu { debug_registers: final(self).cpu.debug_registers, ..old(self).cpu }),
            final(self).ppu == old(self).ppu,
            final(self).memory@ == old(self).memory@,
            final(self).cycles == old(self).cycles,
    {
        self.cpu.toggle_debug_registers();
    }

    /// Sets the buttons' state: one bit per button, a clear bit for a pressed one.
    pub fn write_inputs(&mut self, inputs: u8)
        ensures
            final(self).memory@ == (MemView { input_buffer: inputs, ..old(self).memory@ }),
            final(self).cpu == old(self).cpu,
            final(self).ppu == old(self).ppu,
            final(self).cycles == old(self).cycles,
    {
        self.memory.input_buffer = inputs;
    }

    /// A halted step: the pixel pipeline and the timer run for 4 cycles, and the
    /// processor wakes once a request is enabled and pending.
    #[verifier::rlimit(30)]
    fn idle(&mut self)
        requires
            old(self).wf(),
            old(self).cycles <= u64::MAX - 1024,
        ensures
            final(self).wf(),
            final(self).cycles == old(self).cycles + 4,
            final(self).ppu.timing() == timing_at(
                (frame_pos(old(self).ppu.mode, old(self).ppu.line, old(self).ppu.mode_clock) + 4) % (FRAME_CYCLES as int),
            ),
            exists|mp: MemView|
                #[trigger] ppu_step(old(self).ppu, old(self).memory@, 4, final(self).ppu, mp) && timer_model(
                    mp,
                    4,
                ) == final(self).memory@,
            final(self).cpu == (Cpu {
                halted: old(self).cpu.halted && pending_model(final(self).memory@) == 0,
                ..old(self).cpu
            }),
            requests_kept(old(self).memory@, final(self).memory@),
            pending_model(old(self).memory@) != 0 ==> !final(self).cpu.halted,
    {
        let ghost m0 = self.memory@;
        self.ppu.step(4, &mut self.memory);
        let ghost mp = self.memory@;
        proof {
            lemma_timer_keeps_requests(mp, 4);
        }
        self.memory.update_timer(4);
        proof {
            lemma_requests_trans(m0, mp, self.memory@);
            let m1 = self.memory@;
            lemma_io_read(m0, IE as int);
            lemma_io_read(m0, IF as int);
            lemma_io_read(m1, IE as int);
            lemma_io_read(m1, IF as int);
            let ie0 = m0.memory[IE as int];
            let if0 = m0.memory[IF as int];
            let if1 = m1.memory[IF as int];
            assert(ie0 & if0 & 0x1F != 0 ==> ie0 & if1 & 0x1F != 0) by (bit_vector)
                requires
                    if0 & if1 == if0,
            ;
        }
        self.cycles = self.cycles + 4;
        let ie = self.memory.read_or_zero(IE);
        let flags = self.memory.read_or_zero(IF);
        if ie & flags & 0x1F != 0 {
            self.cpu.halted = false;
        }
        assert(ppu_step(old(self).ppu, m0, 4, self.ppu, mp) && timer_model(mp, 4) == self.memory@);
    }

    /// Runs the defined opcode `opcode` found at PC, as `cycle_model` says, then the
    /// pixel pipeline for the same cycles; unmaps the boot program once PC has
    /// reached 0x0100.
    #[verifier::rlimit(30)]
    fn run_opcode(&mut self, opcode: u8)
        requires
            old(self).wf(),
            old(self).cycles <= u64::MAX - 1024,
            !undefined_opcode(opcode),
        ensures
            final(self).wf(),
            ({
                let t = old(self).ppu;
                let (c4, m4, n) = cycle_model(old(self).cpu, old(self).memory@, opcode);
                &&& final(self).cpu == c4
                &&& final(self).cycles == old(self).cycles + n
                &&& n <= 44
                &&& final(self).ppu.timing() == timing_at(
                    (frame_pos(t.mode, t.line, t.mode_clock) + n) % (FRAME_CYCLES as int),
                )
                &&& exists|mp: MemView|
                    #[trigger] ppu_step(t, m4, n, final(self).ppu, mp) && unmap_if_done(c4, mp) == final(self).memory@
            }),
    {
        let (jumped, cycles) = self.cpu.process_opcode(opcode, &mut self.memory);
        self.memory.update_timer(cycles);
        self.cpu.update_ime();
        if !jumped {
            self.cpu.registers.pc = self.cpu.registers.pc.wrapping_add(1);
        }
        let extra = self.cpu.check_interrupts(&mut self.memory);
        if extra > 0 {
            self.memory.update_timer(extra);
        }
        let total = cycles + extra;
        let ghost m4 = self.memory@;
        self.ppu.step(total, &mut self.memory);
        let ghost mp = self.memory@;
        self.cycles = self.cycles + total;
        if self.cpu.registers.pc == 0x0100 {
            self.memory.disable_rom();
        }
        assert(ppu_step(old(self).ppu, m4, total, self.ppu, mp) && unmap_if_done(self.cpu, mp) == self.memory@);
        let ghost cm = cycle_model(old(self).cpu, old(self).memory@, opcode);
        assert(self.cpu == cm.0);
        assert(m4 == cm.1);
        assert(self.cycles == old(self).cycles + cm.2);
    }

    /// One step of the machine. A halted processor idles for 4 cycles (pixel
    /// pipeline and timer run) and wakes once a request is enabled and pending.
    /// Otherwise the opcode at PC runs as `cycle_model` says and the pixel
    /// pipeline runs for the same cycles; when PC reaches 0x0100 the boot
    /// program is unmapped. An unmapped PC or an undefined opcode stops the
    /// machine with nothing changed.
    #[verifier::rlimit(30)]
    pub fn execute_cycle(&mut self) -> (r: Result<(), Fault>)
        requires
            old(self).wf(),
            old(self).cycles <= u64::MAX - 1024,
        ensures
            final(self).wf(),
            final(self).cycles <= old(self).cycles + 44,
            step_rel(*old(self), *final(self), r),
    {
        if self.cpu.halted {
            self.idle();
            return Ok(());
        }
        let pc = self.cpu.registers.pc;
        let opcode = match self.memory.get(pc as usize) {
            Some(op) => op,
            None => {
                return Err(Fault::UnmappedAddress { pc });
            },
        };
        if is_undefined_opcode(opcode) {
            return Err(Fault::UndefinedOpcode { opcode, pc });
        }
        self.run_opcode(opcode);
        Ok(())
    }

    /// Runs `iterations` steps, stopping early at the first fault, which then
    /// describes the state the machine stopped in.
    pub fn start(&mut self, iterations: u64) -> (r: Result<(), Fault>)
        requires
            old(self).wf(),
            old(self).cycles + 44 * iterations <= u64::MAX - 1024,
        ensures
            final(self).wf(),
            final(self).cycles <= old(self).cycles + 44 * iterations,
            r is Ok ==> exists|t: Seq<Gameboy>|
                #[trigger] is_run(t) && t.len() == iterations + 1 && t[0] == *old(self) && t.last()
                    == *final(self),
            r is Err ==> exists|t: Seq<Gameboy>|
                #[trigger] is_run(t) && t.len() <= iterations && t[0] == *old(self) && step_rel(
                    t.last(),
                    *final(self),
                    r,
                ),
    {
        let ghost c0 = self.cycles;
        let ghost g0 = *self;
        let ghost mut trace = seq![g0];
        let mut i: u64 = 0;
        while i < iterations
            invariant
                i <= iterations,
                self.wf(),
                g0 == *old(self),
                is_run(trace),
                trace.len() == i + 1,
                trace[0] == g0,
                trace.last() == *self,
                self.cycles <= c0 + 44 * i,
                c0 == old(self).cycles,
                c0 + 44 * iterations <= u64::MAX - 1024,
            decreases iterations - i,
        {
            let ghost prev = *self;
            let step = self.execute_cycle();
            assert(self.cycles <= c0 + 44 * i + 44);
            assert(c0 + 44 * i + 44 <= c0 + 44 * iterations);
            if step.is_err() {
                assert(is_run(trace) && step_rel(trace.last(), *self, step));
                return step;
            }
            proof {
                let t2 = trace.push(*self);
                assert forall|k: int| 0 <= k < t2.len() - 1 implies #[trigger] step_rel(
                    t2[k],
                    t2[k + 1],
                    Ok(()),
                ) by {
                    if k < trace.len() - 1 {
                        assert(step_rel(trace[k], trace[k + 1], Ok(())));
                    }
                }
                trace = t2;
            }
            i = i + 1;
        }
        assert(is_run(trace));
        Ok(())
    }
}

/// The address space after the boot program is unmapped, once PC has reached
/// 0x0100.
pub open spec fn unmap_if_done(c: Cpu, m: MemView) -> MemView {
    if c.registers.pc == 0x0100 {
        unmap_boot_model(m)
    } else {
        m
    }
}

/// Whether `op` has no defined behaviour.
pub fn is_undefined_opcode(op: u8) -> (r: bool)
    ensures
        r == undefined_opcode(op),
{
    op == 0x10 || op == 0xD3 || op == 0xDB || op == 0xDD || op == 0xE3 || op == 0xE4 || op == 0xEB
        || op == 0xEC || op == 0xED || op == 0xF4 || op == 0xFC || op == 0xFD
}

} // verus!
