use vstd::prelude::*;
use crate::memory::{
    Memory, MemView, Mbc, write_model, is_banked, lemma_write_keeps, lemma_write_io_readback, IF, IE,
};
use crate::registers::{
    Registers, flags_byte, pair16, join16, lemma_pair16_halves, lemma_flags_byte,
};

verus! {

/// The processor: its registers, the interrupt master enable with its delayed
/// set, and the halted state.
#[derive(Clone, Copy, Debug, PartialEq, Eq)]
pub struct Cpu {
    pub registers: Registers,
    pub debug_registers: bool,
    pub ime: bool,
    pub ime_pending: u8,
    pub halted: bool,
}

/// Reads operand selector `i` (B, C, D, E, H, L, (HL), A).
pub open spec fn operand_model(r: Registers, m: MemView, i: u8) -> u8 {
    if i == 0 {
        r.b
    } else if i == 1 {
        r.c
    } else if i == 2 {
        r.d
    } else if i == 3 {
        r.e
    } else if i == 4 {
        r.h
    } else if i == 5 {
        r.l
    } else if i == 6 {
        m.read_or_zero(r.hl() as int)
    } else {
        r.a
    }
}

/// Sets register selector `i`; selector 6, the memory operand, leaves the
/// registers as they are.
pub open spec fn set_reg(r: Registers, i: u8, v: u8) -> Registers {
    if i == 0 {
        Registers { b: v, ..r }
    } else if i == 1 {
        Registers { c: v, ..r }
    } else if i == 2 {
        Registers { d: v, ..r }
    } else if i == 3 {
        Registers { e: v, ..r }
    } else if i == 4 {
        Registers { h: v, ..r }
    } else if i == 5 {
        Registers { l: v, ..r }
    } else if i == 6 {
        r
    } else {
        Registers { a: v, ..r }
    }
}

/// Writes operand selector `i`: the registers and the address space afterwards.
pub open spec fn store_operand(r: Registers, m: MemView, i: u8, v: u8) -> (Registers, MemView) {
    if i == 6 {
        (r, write_model(m, r.hl() as int, v))
    } else {
        (set_reg(r, i, v), m)
    }
}

pub open spec fn carry_in(r: Registers) -> int {
    if r.cy() {
        1
    } else {
        0
    }
}

/// The accumulator operation `kind` (ADD, ADC, SUB, SBC, AND, XOR, OR, CP) on A and
/// `v`: the registers afterwards, flags included.
pub open spec fn alu_model(r: Registers, kind: u8, v: u8) -> Registers {
    let a = r.a;
    let c = carry_in(r);
    if kind == 0 {
        let res = ((a + v) % 256) as u8;
        Registers { a: res, f: flags_byte(res == 0, false, (a & 0x0F) + (v & 0x0F) > 0x0F, a + v > 0xFF), ..r }
    } else if kind == 1 {
        let res = ((a + v + c) % 256) as u8;
        Registers {
            a: res,
            f: flags_byte(res == 0, false, (a & 0x0F) + (v & 0x0F) + c > 0x0F, a + v + c > 0xFF),
            ..r
        }
    } else if kind == 2 {
        let res = ((a - v + 256) % 256) as u8;
        Registers { a: res, f: flags_byte(res == 0, true, (a & 0x0F) < (v & 0x0F), a < v), ..r }
    } else if kind == 3 {
        let res = ((a - v - c + 512) % 256) as u8;
        Registers {
            a: res,
            f: flags_byte(res == 0, true, (a & 0x0F) < (v & 0x0F) + c, a < v + c),
            ..r
        }
    } else if kind == 4 {
        let res = a & v;
        Registers { a: res, f: flags_byte(res == 0, false, true, false), ..r }
    } else if kind == 5 {
        let res = a ^ v;
        Registers { a: res, f: flags_byte(res == 0, false, false, false), ..r }
    } else if kind == 6 {
        let res = a | v;
        Registers { a: res, f: flags_byte(res == 0, false, false, false), ..r }
    } else {
        Registers { f: flags_byte(a == v, true, (a & 0x0F) < (v & 0x0F), a < v), ..r }
    }
}

/// INC on a byte: the result and the flags (carry kept).
pub open spec fn inc_model(r: Registers, v: u8) -> (u8, u8) {
    let res = ((v + 1) % 256) as u8;
    (res, flags_byte(res == 0, false, (v & 0x0F) == 0x0F, r.cy()))
}

/// DEC on a byte: the result and the flags (carry kept).
pub open spec fn dec_model(r: Registers, v: u8) -> (u8, u8) {
    let res = ((v + 255) % 256) as u8;
    (res, flags_byte(res == 0, true, (v & 0x0F) == 0, r.cy()))
}

/// The rotate/shift operation `kind` (RLC, RRC, RL, RR, SLA, SRA, SWAP, SRL) on `v`
/// with carry-in `c`: the result and the carry out.
pub open spec fn shift_model(kind: u8, v: u8, c: bool) -> (u8, bool) {
    let cin: u8 = if c {
        1
    } else {
        0
    };
    if kind == 0 {
        ((v << 1) | (v >> 7), v & 0x80 != 0)
    } else if kind == 1 {
        ((v >> 1) | (v << 7), v & 1 != 0)
    } else if kind == 2 {
        ((v << 1) | cin, v & 0x80 != 0)
    } else if kind == 3 {
        ((v >> 1) | (cin << 7), v & 1 != 0)
    } else if kind == 4 {
        (v << 1, v & 0x80 != 0)
    } else if kind == 5 {
        ((v >> 1) | (v & 0x80), v & 1 != 0)
    } else if kind == 6 {
        ((v << 4) | (v >> 4), false)
    } else {
        (v >> 1, v & 1 != 0)
    }
}

/// The rotate/shift operation `kind` on `v` with carry-in `c`.
pub fn shift(kind: u8, v: u8, c: bool) -> (r: (u8, bool))
    ensures
        r == shift_model(kind, v, c),
{
    let cin: u8 = if c {
        1
    } else {
        0
    };
    if kind == 0 {
        ((v << 1) | (v >> 7), v & 0x80 != 0)
    } else if kind == 1 {
        ((v >> 1) | (v << 7), v & 1 != 0)
    } else if kind == 2 {
        ((v << 1) | cin, v & 0x80 != 0)
    } else if kind == 3 {
        ((v >> 1) | (cin << 7), v & 1 != 0)
    } else if kind == 4 {
        (v << 1, v & 0x80 != 0)
    } else if kind == 5 {
        ((v >> 1) | (v & 0x80), v & 1 != 0)
    } else if kind == 6 {
        ((v << 4) | (v >> 4), false)
    } else {
        (v >> 1, v & 1 != 0)
    }
}

/// `pc` plus the signed offset `e`, wrapping.
fn offset16(pc: u16, e: u8) -> (r: u16)
    ensures
        r == add16(pc, signed(e)),
{
    if e < 128 {
        pc.wrapping_add(e as u16)
    } else {
        pc.wrapping_sub(256 - e as u16)
    }
}

/// SP plus a signed byte, with the half-carry and carry out of the low byte.
fn sp_offset(sp: u16, e: u8) -> (r: (u16, bool, bool))
    ensures
        r.0 == add16(sp, signed(e)),
        r.1 == ((sp & 0x0F) + (e & 0x0F) > 0x0F),
        r.2 == ((sp & 0xFF) + e > 0xFF),
{
    let h = (sp & 0x0F) as u32 + (e & 0x0F) as u32 > 0x0F;
    let c = (sp & 0xFF) as u32 + e as u32 > 0xFF;
    (offset16(sp, e), h, c)
}

/// The 16-bit register pair that bits 4-5 of `op` name (BC, DE, HL, SP).
pub open spec fn pair_of(r: Registers, op: u8) -> u16 {
    let p = (op >> 4) & 0x03;
    if p == 0 {
        r.bc()
    } else if p == 1 {
        r.de()
    } else if p == 2 {
        r.hl()
    } else {
        r.sp
    }
}

pub open spec fn set_pair(r: Registers, op: u8, v: u16) -> Registers {
    let p = (op >> 4) & 0x03;
    if p == 0 {
        Registers { b: (v >> 8) as u8, c: v as u8, ..r }
    } else if p == 1 {
        Registers { d: (v >> 8) as u8, e: v as u8, ..r }
    } else if p == 2 {
        Registers { h: (v >> 8) as u8, l: v as u8, ..r }
    } else {
        Registers { sp: v, ..r }
    }
}

pub open spec fn add16(x: u16, d: int) -> u16 {
    ((x + d + 0x10000) % 0x10000) as u16
}

/// Fetches the byte after PC: PC advances to it.
pub open spec fn fetch_model(c: Cpu, m: MemView) -> (Cpu, u8) {
    let pc = add16(c.registers.pc, 1);
    (Cpu { registers: Registers { pc, ..c.registers }, ..c }, m.read_or_zero(pc as int))
}

/// Fetches a little-endian 16-bit operand after PC.
pub open spec fn fetch16_model(c: Cpu, m: MemView) -> (Cpu, u16) {
    let (c1, lo) = fetch_model(c, m);
    let (c2, hi) = fetch_model(c1, m);
    (c2, pair16(hi, lo))
}

/// Pushes `v`, high byte first, onto the stack.
pub open spec fn push_model(c: Cpu, m: MemView, v: u16) -> (Cpu, MemView) {
    let sp1 = add16(c.registers.sp, -1);
    let m1 = write_model(m, sp1 as int, (v >> 8) as u8);
    let sp2 = add16(sp1, -1);
    let m2 = write_model(m1, sp2 as int, v as u8);
    (Cpu { registers: Registers { sp: sp2, ..c.registers }, ..c }, m2)
}

/// Pops a 16-bit value, low byte first.
pub open spec fn pop_model(c: Cpu, m: MemView) -> (Cpu, u16) {
    let sp = c.registers.sp;
    let lo = m.read_or_zero(sp as int);
    let hi = m.read_or_zero(add16(sp, 1) as int);
    (Cpu { registers: Registers { sp: add16(sp, 2), ..c.registers }, ..c }, pair16(hi, lo))
}

pub open spec fn with_regs(c: Cpu, r: Registers) -> Cpu {
    Cpu { registers: r, ..c }
}

/// The CB-prefixed operation `op`: processor, address space and the cycles that
/// the prefix handler adds.
pub open spec fn cb_model(c: Cpu, m: MemView, op: u8) -> (Cpu, MemView, u64) {
    let i = op & 0x07;
    let bit = (op >> 3) & 0x07;
    let group = op >> 6;
    let r = c.registers;
    let v = operand_model(r, m, i);
    let extra: u64 = if i == 6 {
        4
    } else {
        0
    };
    if group == 0 {
        let (res, co) = shift_model(bit, v, r.cy());
        let (r1, m1) = store_operand(r, m, i, res);
        (with_regs(c, Registers { f: flags_byte(res == 0, false, false, co), ..r1 }), m1, (4 + extra
            + extra) as u64)
    } else if group == 1 {
        (
            with_regs(c, Registers { f: flags_byte(v & (1u8 << bit) == 0, false, true, r.cy()), ..r }),
            m,
            (4 + extra) as u64,
        )
    } else {
        let res = if group == 2 {
            v & !(1u8 << bit)
        } else {
            v | (1u8 << bit)
        };
        let (r1, m1) = store_operand(r, m, i, res);
        (with_regs(c, r1), m1, (4 + extra + extra) as u64)
    }
}

/// The delayed enable of the interrupt master flag, one step on.
pub open spec fn update_ime_model(c: Cpu) -> Cpu {
    if c.ime_pending > 0 {
        let p = (c.ime_pending - 1) as u8;
        Cpu { ime_pending: p, ime: if p == 0 { true } else { c.ime }, ..c }
    } else {
        c
    }
}

/// The opcodes with no defined behaviour: STOP and the unassigned ones.
pub open spec fn undefined_opcode(op: u8) -> bool {
    op == 0x10 || op == 0xD3 || op == 0xDB || op == 0xDD || op == 0xE3 || op == 0xE4 || op == 0xEB
        || op == 0xEC || op == 0xED || op == 0xF4 || op == 0xFC || op == 0xFD
}

/// Branch condition `cc`: NZ, Z, NC, C.
pub open spec fn cond_model(r: Registers, cc: u8) -> bool {
    if cc == 0 {
        !r.z()
    } else if cc == 1 {
        r.z()
    } else if cc == 2 {
        !r.cy()
    } else {
        r.cy()
    }
}

/// A byte read as a signed offset.
pub open spec fn signed(e: u8) -> int {
    if e < 128 {
        e as int
    } else {
        e - 256
    }
}

pub open spec fn set_pc(c: Cpu, pc: u16) -> Cpu {
    with_regs(c, Registers { pc, ..c.registers })
}

/// The register pair that LD (rr),A and LD A,(rr) address, and HL's value after.
pub open spec fn indirect_addr(r: Registers, op: u8) -> (u16, u16) {
    let p = op >> 4;
    if p == 0 {
        (r.bc(), r.hl())
    } else if p == 1 {
        (r.de(), r.hl())
    } else if p == 2 {
        (r.hl(), add16(r.hl(), 1))
    } else {
        (r.hl(), add16(r.hl(), -1))
    }
}

pub open spec fn with_hl(r: Registers, hl: u16) -> Registers {
    Registers { h: (hl >> 8) as u8, l: hl as u8, ..r }
}

/// DAA: the decimal correction of A after an addition or a subtraction.
pub open spec fn daa_model(r: Registers) -> Registers {
    let a = r.a;
    let lo: u8 = if r.hc() || (!r.n() && (a & 0x0F) > 9) {
        6
    } else {
        0
    };
    let hi = r.cy() || (!r.n() && a > 0x99);
    let corr = (lo | (if hi {
        0x60u8
    } else {
        0u8
    })) as u8;
    let res = if r.n() {
        ((a - corr + 256) % 256) as u8
    } else {
        ((a + corr) % 256) as u8
    };
    Registers { a: res, f: flags_byte(res == 0, r.n(), false, hi), ..r }
}

/// NOP, LD (a16),SP and the relative jumps (column 0 of 0x00-0x3F).
#[verifier::opaque]
pub open spec fn control0_model(c: Cpu, m: MemView, op: u8) -> (Cpu, MemView, bool, u64) {
    let r = c.registers;
    let row = (op >> 3) & 0x07;
    if op == 0x00 {
        (c, m, false, 4)
    } else if op == 0x08 {
        let (c1, a) = fetch16_model(c, m);
        let m1 = write_model(m, a as int, r.sp as u8);
        (c1, write_model(m1, add16(a, 1) as int, (r.sp >> 8) as u8), false, 20)
    } else if op == 0x18 {
        let (c1, e) = fetch_model(c, m);
        (set_pc(c1, add16(c1.registers.pc, signed(e))), m, false, 12)
    } else {
        let (c1, e) = fetch_model(c, m);
        if cond_model(r, (row - 4) as u8) {
            (set_pc(c1, add16(c1.registers.pc, signed(e))), m, false, 12)
        } else {
            (c1, m, false, 8)
        }
    }
}

/// LD rr,d16, ADD HL,rr, INC rr and DEC rr.
#[verifier::opaque]
pub open spec fn pairs_model(c: Cpu, m: MemView, op: u8) -> (Cpu, MemView, bool, u64) {
    let r = c.registers;
    let lo = op & 0x0F;
    if lo == 0x01 {
        let (c1, v) = fetch16_model(c, m);
        (with_regs(c1, set_pair(c1.registers, op, v)), m, false, 12)
    } else if lo == 0x09 {
        let hl = r.hl();
        let rr = pair_of(r, op);
        let sum = hl + rr;
        let r1 = with_hl(r, (sum % 0x10000) as u16);
        (
            with_regs(
                c,
                Registers {
                    f: flags_byte(r.z(), false, (hl & 0x0FFF) + (rr & 0x0FFF) > 0x0FFF, sum > 0xFFFF),
                    ..r1
                },
            ),
            m,
            false,
            8,
        )
    } else if lo == 0x03 {
        (with_regs(c, set_pair(r, op, add16(pair_of(r, op), 1))), m, false, 8)
    } else {
        (with_regs(c, set_pair(r, op, add16(pair_of(r, op), -1))), m, false, 8)
    }
}

/// LD (rr),A and LD A,(rr), with HL incremented or decremented after.
#[verifier::opaque]
pub open spec fn indirect_model(c: Cpu, m: MemView, op: u8) -> (Cpu, MemView, bool, u64) {
    let r = c.registers;
    let (addr, hl) = indirect_addr(r, op);
    if op & 0x0F == 0x02 {
        (with_regs(c, with_hl(r, hl)), write_model(m, addr as int, r.a), false, 8)
    } else {
        (with_regs(c, Registers { a: m.read_or_zero(addr as int), ..with_hl(r, hl) }), m, false, 8)
    }
}

/// INC, DEC and LD d8 on the operand selector in bits 3-5.
#[verifier::opaque]
pub open spec fn inc_dec_ld_model(c: Cpu, m: MemView, op: u8) -> (Cpu, MemView, bool, u64) {
    let r = c.registers;
    let col = op & 0x07;
    let row = (op >> 3) & 0x07;
    if col == 4 || col == 5 {
        let v = operand_model(r, m, row);
        let (res, f) = if col == 4 {
            inc_model(r, v)
        } else {
            dec_model(r, v)
        };
        let (r2, m2) = store_operand(Registers { f, ..r }, m, row, res);
        (with_regs(c, r2), m2, false, if row == 6 {
            12u64
        } else {
            4u64
        })
    } else {
        let (c1, v) = fetch_model(c, m);
        let (r2, m2) = store_operand(c1.registers, m, row, v);
        (with_regs(c1, r2), m2, false, if row == 6 {
            12u64
        } else {
            8u64
        })
    }
}

/// RLCA, RRCA, RLA, RRA, DAA, CPL, SCF and CCF.
#[verifier::opaque]
pub open spec fn accumulator_model(c: Cpu, op: u8) -> Cpu {
    let r = c.registers;
    let row = (op >> 3) & 0x07;
    if row < 4 {
        let (res, co) = shift_model(row, r.a, r.cy());
        with_regs(c, Registers { a: res, f: flags_byte(false, false, false, co), ..r })
    } else if row == 4 {
        with_regs(c, daa_model(r))
    } else if row == 5 {
        with_regs(c, Registers { a: !r.a, f: flags_byte(r.z(), true, true, r.cy()), ..r })
    } else if row == 6 {
        with_regs(c, Registers { f: flags_byte(r.z(), false, false, true), ..r })
    } else {
        with_regs(c, Registers { f: flags_byte(r.z(), false, false, !r.cy()), ..r })
    }
}

/// Opcodes 0x00-0x3F.
pub open spec fn block0_model(c: Cpu, m: MemView, op: u8) -> (Cpu, MemView, bool, u64) {
    let col = op & 0x07;
    let lo = op & 0x0F;
    if col == 0 {
        control0_model(c, m, op)
    } else if lo == 0x01 || lo == 0x03 || lo == 0x09 || lo == 0x0B {
        pairs_model(c, m, op)
    } else if lo == 0x02 || lo == 0x0A {
        indirect_model(c, m, op)
    } else if col == 4 || col == 5 || col == 6 {
        inc_dec_ld_model(c, m, op)
    } else {
        (accumulator_model(c, op), m, false, 4)
    }
}

/// Opcodes 0x40-0x7F: register-to-register loads, and HALT.
pub open spec fn block1_model(c: Cpu, m: MemView, op: u8) -> (Cpu, MemView, bool, u64) {
    let r = c.registers;
    let src = op & 0x07;
    let dst = (op >> 3) & 0x07;
    if op == 0x76 {
        (Cpu { halted: true, ..c }, m, false, 4)
    } else {
        let (r2, m2) = store_operand(r, m, dst, operand_model(r, m, src));
        (with_regs(c, r2), m2, false, if src == 6 || dst == 6 {
            8u64
        } else {
            4u64
        })
    }
}

/// Opcodes 0x80-0xBF: the accumulator operations on a register or (HL).
pub open spec fn block2_model(c: Cpu, m: MemView, op: u8) -> (Cpu, MemView, bool, u64) {
    let r = c.registers;
    let src = op & 0x07;
    let kind = (op >> 3) & 0x07;
    (with_regs(c, alu_model(r, kind, operand_model(r, m, src))), m, false, if src == 6 {
        8u64
    } else {
        4u64
    })
}

/// A call: the address after the operand is pushed and PC jumps to `target`.
pub open spec fn call_model(c: Cpu, m: MemView, target: u16) -> (Cpu, MemView) {
    let (c2, m2) = push_model(c, m, add16(c.registers.pc, 1));
    (set_pc(c2, target), m2)
}

/// The register pair that PUSH and POP name: BC, DE, HL, AF.
pub open spec fn stack_pair(r: Registers, p: u8) -> u16 {
    if p == 0 {
        r.bc()
    } else if p == 1 {
        r.de()
    } else if p == 2 {
        r.hl()
    } else {
        r.af()
    }
}

pub open spec fn set_stack_pair(r: Registers, p: u8, v: u16) -> Registers {
    if p == 0 {
        Registers { b: (v >> 8) as u8, c: v as u8, ..r }
    } else if p == 1 {
        Registers { d: (v >> 8) as u8, e: v as u8, ..r }
    } else if p == 2 {
        Registers { h: (v >> 8) as u8, l: v as u8, ..r }
    } else {
        Registers { a: (v >> 8) as u8, f: (v & 0xF0) as u8, ..r }
    }
}

/// SP plus a signed byte, with the flags that ADD SP,e8 and LD HL,SP+e8 set from
/// the low byte.
pub open spec fn sp_offset_model(r: Registers, e: u8) -> (u16, u8) {
    let sp = r.sp;
    (
        add16(sp, signed(e)),
        flags_byte(false, false, (sp & 0x0F) + (e & 0x0F) > 0x0F, (sp & 0xFF) + e > 0xFF),
    )
}

/// Column 0 of 0xC0-0xFF: conditional returns, LDH (a8),A, LDH A,(a8), ADD SP,e8
/// and LD HL,SP+e8.
#[verifier::opaque]
pub open spec fn col0_model(c: Cpu, m: MemView, op: u8) -> (Cpu, MemView, bool, u64) {
    let r = c.registers;
    let row = (op >> 3) & 0x07;
    if row < 4 {
        if cond_model(r, row) {
            let (c1, a) = pop_model(c, m);
            (set_pc(c1, a), m, true, 20)
        } else {
            (c, m, false, 8)
        }
    } else if row == 4 {
        let (c1, n) = fetch_model(c, m);
        (c1, write_model(m, 0xFF00 + n, r.a), false, 12)
    } else if row == 6 {
        let (c1, n) = fetch_model(c, m);
        (with_regs(c1, Registers { a: m.read_or_zero(0xFF00 + n), ..c1.registers }), m, false, 12)
    } else {
        let (c1, e) = fetch_model(c, m);
        let (v, f) = sp_offset_model(r, e);
        if row == 5 {
            (with_regs(c1, Registers { sp: v, f, ..c1.registers }), m, false, 16)
        } else {
            (with_regs(c1, Registers { f, ..with_hl(c1.registers, v) }), m, false, 12)
        }
    }
}

/// Column 1: POP, RET, RETI, JP HL and LD SP,HL.
#[verifier::opaque]
pub open spec fn col1_model(c: Cpu, m: MemView, op: u8) -> (Cpu, MemView, bool, u64) {
    let r = c.registers;
    let row = (op >> 3) & 0x07;
    if row & 1 == 0 {
        let (c1, v) = pop_model(c, m);
        (with_regs(c1, set_stack_pair(c1.registers, row >> 1, v)), m, false, 12)
    } else if row == 1 || row == 3 {
        let (c1, a) = pop_model(c, m);
        let c2 = set_pc(c1, a);
        (if row == 3 {
            Cpu { ime_pending: 1, ..c2 }
        } else {
            c2
        }, m, true, 16)
    } else if row == 5 {
        (set_pc(c, r.hl()), m, true, 4)
    } else {
        (with_regs(c, Registers { sp: r.hl(), ..r }), m, false, 8)
    }
}

/// Column 2: conditional jumps, LD (C),A, LD (a16),A, LD A,(C) and LD A,(a16).
#[verifier::opaque]
pub open spec fn col2_model(c: Cpu, m: MemView, op: u8) -> (Cpu, MemView, bool, u64) {
    let r = c.registers;
    let row = (op >> 3) & 0x07;
    if row < 4 {
        if cond_model(r, row) {
            let (c1, a) = fetch16_model(c, m);
            (set_pc(c1, a), m, true, 16)
        } else {
            (set_pc(c, add16(r.pc, 2)), m, false, 12)
        }
    } else if row == 4 {
        (c, write_model(m, 0xFF00 + r.c, r.a), false, 8)
    } else if row == 5 {
        let (c1, a) = fetch16_model(c, m);
        (c1, write_model(m, a as int, r.a), false, 16)
    } else if row == 6 {
        (with_regs(c, Registers { a: m.read_or_zero(0xFF00 + r.c), ..r }), m, false, 8)
    } else {
        let (c1, a) = fetch16_model(c, m);
        (with_regs(c1, Registers { a: m.read_or_zero(a as int), ..c1.registers }), m, false, 16)
    }
}

/// Column 3: JP a16, the CB prefix, DI and EI.
#[verifier::opaque]
pub open spec fn col3_model(c: Cpu, m: MemView, op: u8) -> (Cpu, MemView, bool, u64) {
    if op == 0xC3 {
        let (c1, a) = fetch16_model(c, m);
        (set_pc(c1, a), m, true, 16)
    } else if op == 0xCB {
        let (c1, cb) = fetch_model(c, m);
        let (c2, m2, cycles) = cb_model(c1, m, cb);
        (c2, m2, false, (4 + cycles) as u64)
    } else if op == 0xF3 {
        (Cpu { ime: false, ime_pending: 0, ..c }, m, false, 4)
    } else {
        (Cpu { ime_pending: 2, ..c }, m, false, 4)
    }
}

/// Columns 4 and 5: calls and pushes.
#[verifier::opaque]
pub open spec fn col45_model(c: Cpu, m: MemView, op: u8) -> (Cpu, MemView, bool, u64) {
    let r = c.registers;
    let col = op & 0x07;
    let row = (op >> 3) & 0x07;
    if col == 4 || row == 1 {
        if col == 5 || cond_model(r, row) {
            let (c1, a) = fetch16_model(c, m);
            let (c2, m2) = call_model(c1, m, a);
            (c2, m2, true, 24)
        } else {
            (set_pc(c, add16(r.pc, 2)), m, false, 12)
        }
    } else {
        let (c1, m1) = push_model(c, m, stack_pair(r, row >> 1));
        (c1, m1, false, 16)
    }
}

/// Columns 6 and 7: the accumulator operations on an immediate, and RST.
#[verifier::opaque]
pub open spec fn col67_model(c: Cpu, m: MemView, op: u8) -> (Cpu, MemView, bool, u64) {
    let r = c.registers;
    let row = (op >> 3) & 0x07;
    if op & 0x07 == 6 {
        let (c1, v) = fetch_model(c, m);
        (with_regs(c1, alu_model(c1.registers, row, v)), m, false, 8)
    } else {
        let (c1, m1) = push_model(c, m, add16(r.pc, 1));
        (set_pc(c1, (row as u16 * 8) as u16), m1, true, 16)
    }
}

/// Opcodes 0xC0-0xFF.
pub open spec fn block3_model(c: Cpu, m: MemView, op: u8) -> (Cpu, MemView, bool, u64) {
    let col = op & 0x07;
    if col == 0 {
        col0_model(c, m, op)
    } else if col == 1 {
        col1_model(c, m, op)
    } else if col == 2 {
        col2_model(c, m, op)
    } else if col == 3 {
        col3_model(c, m, op)
    } else if col == 4 || col == 5 {
        col45_model(c, m, op)
    } else {
        col67_model(c, m, op)
    }
}

/// One instruction `op` at PC: the processor and the address space afterwards,
/// whether PC was set explicitly, and the cycles it takes.
#[verifier::opaque]
pub open spec fn step_model(c: Cpu, m: MemView, op: u8) -> (Cpu, MemView, bool, u64) {
    if op < 0x40 {
        block0_model(c, m, op)
    } else if op < 0x80 {
        block1_model(c, m, op)
    } else if op < 0xC0 {
        block2_model(c, m, op)
    } else {
        block3_model(c, m, op)
    }
}

/// The index (0 VBlank, 1 STAT, 2 Timer, 3 Serial, 4 Joypad) of the lowest set
/// bit of a nonzero 5-bit request set.
pub open spec fn lowest_pending(p: u8) -> u8 {
    if p & 0x01 != 0 {
        0
    } else if p & 0x02 != 0 {
        1
    } else if p & 0x04 != 0 {
        2
    } else if p & 0x08 != 0 {
        3
    } else {
        4
    }
}

/// The requests that are both enabled and pending.
pub open spec fn pending_model(m: MemView) -> u8 {
    m.read_or_zero(IE as int) & m.read_or_zero(IF as int) & 0x1F
}

/// The interrupt check after an instruction: dispatch of the lowest pending
/// request when the master flag is on, or a wake from HALT without dispatch
/// when it is off; with the cycles the dispatch takes.
#[verifier::opaque]
pub open spec fn interrupt_model(c: Cpu, m: MemView) -> (Cpu, MemView, u64) {
    let flags = m.read_or_zero(IF as int);
    let pending = pending_model(m);
    if c.ime && pending != 0 {
        let bit = lowest_pending(pending);
        let (c1, m1) = push_model(c, m, c.registers.pc);
        let m2 = write_model(m1, IF as int, flags & !(1u8 << bit));
        (Cpu { ime: false, halted: false, ..set_pc(c1, (0x40 + 8 * bit) as u16) }, m2, 20)
    } else if !c.ime && c.halted && pending != 0 {
        (Cpu { halted: false, ..c }, m, 0)
    } else {
        (c, m, 0)
    }
}

impl Cpu {
    pub open spec fn wf(&self) -> bool {
        self.registers.wf() && self.ime_pending <= 2
    }

    /// The processor as the boot program leaves it.
    pub open spec fn new_spec() -> Cpu {
        Cpu {
            registers: Registers::default_spec(),
            debug_registers: false,
            ime: false,
            ime_pending: 0,
            halted: false,
        }
    }

    /// The processor as the boot program leaves it.
    pub fn new() -> (r: Cpu)
        ensures
            r.wf(),
            r == Cpu::new_spec(),
    {
        Cpu {
            registers: Registers::default(),
            debug_registers: false,
            ime: false,
            ime_pending: 0,
            halted: false,
        }
    }

    pub fn toggle_debug_registers(&mut self)
        ensures
            *final(self) == (Cpu { debug_registers: !old(self).debug_registers, ..*old(self) }),
    {
        self.debug_registers = !self.debug_registers
    }

    /// Counts down the delayed enable; the master flag turns on when it reaches zero.
    pub fn update_ime(&mut self)
        requires
            old(self).wf(),
        ensures
            final(self).wf(),
            *final(self) == update_ime_model(*old(self)),
    {
        if self.ime_pending > 0 {
            self.ime_pending -= 1;
            if self.ime_pending == 0 {
                self.ime = true;
            }
        }
    }

    /// Reads operand selector `operand`; the memory operand costs 4 more cycles.
    fn get_operand_value(&self, operand: u8, memory: &Memory) -> (r: (u8, u64))
        requires
            memory.wf(),
        ensures
            r.0 == operand_model(self.registers, memory@, operand),
            r.1 == if operand == 6 {
                4u64
            } else {
                0u64
            },
    {
        match operand {
            0 => (self.registers.b, 0),
            1 => (self.registers.c, 0),
            2 => (self.registers.d, 0),
            3 => (self.registers.e, 0),
            4 => (self.registers.h, 0),
            5 => (self.registers.l, 0),
            6 => (memory.read_or_zero(self.registers.get_hl() as usize), 4),
            _ => (self.registers.a, 0),
        }
    }

    /// Writes operand selector `operand`; the memory operand costs 4 more cycles.
    fn set_operand_value(&mut self, operand: u8, value: u8, memory: &mut Memory) -> (r: u64)
        requires
            old(self).wf(),
            old(memory).wf(),
        ensures
            final(self).wf(),
            final(memory).wf(),
            (final(self).registers, final(memory)@) == store_operand(
                old(self).registers,
                old(memory)@,
                operand,
                value,
            ),
            *final(self) == with_regs(*old(self), final(self).registers),
            r == if operand == 6 {
                4u64
            } else {
                0u64
            },
    {
        match operand {
            0 => self.registers.b = value,
            1 => self.registers.c = value,
            2 => self.registers.d = value,
            3 => self.registers.e = value,
            4 => self.registers.h = value,
            5 => self.registers.l = value,
            6 => {
                memory.write_memory(self.registers.get_hl() as usize, value);
                return 4;
            },
            _ => self.registers.a = value,
        }
        0
    }

    /// Advances PC to the next byte and reads it.
    fn ld_r8_n8(&mut self, memory: &Memory) -> (r: u8)
        requires
            old(self).wf(),
            memory.wf(),
        ensures
            final(self).wf(),
            (*final(self), r) == fetch_model(*old(self), memory@),
    {
        self.registers.pc = self.registers.pc.wrapping_add(1);
        memory.read_or_zero(self.registers.pc as usize)
    }

    /// Reads a little-endian 16-bit operand after PC.
    fn fetch16(&mut self, memory: &Memory) -> (r: u16)
        requires
            old(self).wf(),
            memory.wf(),
        ensures
            final(self).wf(),
            (*final(self), r) == fetch16_model(*old(self), memory@),
    {
        let lo = self.ld_r8_n8(memory);
        let hi = self.ld_r8_n8(memory);
        join16(hi, lo)
    }

    fn push16(&mut self, memory: &mut Memory, v: u16)
        requires
            old(self).wf(),
            old(memory).wf(),
        ensures
            final(self).wf(),
            final(memory).wf(),
            (*final(self), final(memory)@) == push_model(*old(self), old(memory)@, v),
    {
        self.registers.sp = self.registers.sp.wrapping_sub(1);
        memory.write_memory(self.registers.sp as usize, (v >> 8) as u8);
        self.registers.sp = self.registers.sp.wrapping_sub(1);
        memory.write_memory(self.registers.sp as usize, v as u8);
    }

    fn pop16(&mut self, memory: &Memory) -> (r: u16)
        requires
            old(self).wf(),
            memory.wf(),
        ensures
            final(self).wf(),
            (*final(self), r) == pop_model(*old(self), memory@),
    {
        let lo = memory.read_or_zero(self.registers.sp as usize);
        self.registers.sp = self.registers.sp.wrapping_add(1);
        let hi = memory.read_or_zero(self.registers.sp as usize);
        self.registers.sp = self.registers.sp.wrapping_add(1);
        join16(hi, lo)
    }

    /// The accumulator operation `kind` with operand `value`.
    pub fn add_a_r8(&mut self, kind: u8, value: u8)
        requires
            old(self).wf(),
        ensures
            final(self).wf(),
            *final(self) == with_regs(*old(self), alu_model(old(self).registers, kind, value)),
    {
        let a = self.registers.a;
        let c: u8 = if self.registers.get_c() {
            1
        } else {
            0
        };
        let lo_a = (a & 0x0F) as u16;
        let lo_v = (value & 0x0F) as u16;
        if kind == 0 {
            let sum = a as u16 + value as u16;
            let res = (sum % 256) as u8;
            self.registers.a = res;
            self.registers.set_flags(res == 0, false, lo_a + lo_v > 0x0F, sum > 0xFF);
        } else if kind == 1 {
            let sum = a as u16 + value as u16 + c as u16;
            let res = (sum % 256) as u8;
            self.registers.a = res;
            self.registers.set_flags(res == 0, false, lo_a + lo_v + c as u16 > 0x0F, sum > 0xFF);
        } else if kind == 2 {
            let res = ((a as u16 + 256 - value as u16) % 256) as u8;
            self.registers.a = res;
            self.registers.set_flags(res == 0, true, lo_a < lo_v, a < value);
        } else if kind == 3 {
            let res = ((a as u16 + 512 - value as u16 - c as u16) % 256) as u8;
            self.registers.a = res;
            self.registers.set_flags(
                res == 0,
                true,
                lo_a < lo_v + c as u16,
                (a as u16) < value as u16 + c as u16,
            );
        } else if kind == 4 {
            let res = a & value;
            self.registers.a = res;
            self.registers.set_flags(res == 0, false, true, false);
        } else if kind == 5 {
            let res = a ^ value;
            self.registers.a = res;
            self.registers.set_flags(res == 0, false, false, false);
        } else if kind == 6 {
            let res = a | value;
            self.registers.a = res;
            self.registers.set_flags(res == 0, false, false, false);
        } else {
            self.registers.set_flags(a == value, true, lo_a < lo_v, a < value);
        }
    }

    /// INC on a byte: returns it plus one, wrapping, and sets Z, N and H; C is kept.
    pub fn inc_r8(&mut self, reg: u8) -> (r: u8)
        requires
            old(self).wf(),
        ensures
            final(self).wf(),
            (r, final(self).registers.f) == inc_model(old(self).registers, reg),
            *final(self) == with_regs(
                *old(self),
                Registers { f: final(self).registers.f, ..old(self).registers },
            ),
    {
        let res = ((reg as u16 + 1) % 256) as u8;
        let c = self.registers.get_c();
        self.registers.set_flags(res == 0, false, (reg & 0x0F) == 0x0F, c);
        res
    }

    /// DEC on a byte: returns it minus one, wrapping, and sets Z, N and H; C is kept.
    pub fn dec_r8(&mut self, reg: u8) -> (r: u8)
        requires
            old(self).wf(),
        ensures
            final(self).wf(),
            (r, final(self).registers.f) == dec_model(old(self).registers, reg),
            *final(self) == with_regs(
                *old(self),
                Registers { f: final(self).registers.f, ..old(self).registers },
            ),
    {
        let res = ((reg as u16 + 255) % 256) as u8;
        let c = self.registers.get_c();
        self.registers.set_flags(res == 0, true, (reg & 0x0F) == 0, c);
        res
    }

    /// Runs the CB-prefixed operation `prefix`.
    #[verifier::rlimit(30)]
    fn process_prefix(&mut self, prefix: u8, memory: &mut Memory) -> (r: u64)
        requires
            old(self).wf(),
            old(memory).wf(),
        ensures
            final(self).wf(),
            final(memory).wf(),
            (*final(self), final(memory)@, r) == cb_model(*old(self), old(memory)@, prefix),
    {
        let operand = prefix & 0x07;
        let bit = (prefix >> 3) & 0x07;
        let group = prefix >> 6;
        proof {
            assert((prefix >> 3) & 0x07 < 8 && prefix >> 6 < 4) by (bit_vector);
        }
        let added = if group == 0 {
            self.handle_rotate_shift(prefix, operand, memory)
        } else if group == 1 {
            self.handle_bit_test(prefix, bit, operand, memory)
        } else if group == 2 {
            self.handle_bit_reset(prefix, bit, operand, memory)
        } else {
            self.handle_bit_set(prefix, bit, operand, memory)
        };
        4 + added
    }

    /// RLC, RRC, RL, RR, SLA, SRA, SWAP and SRL; returns the memory operand's extra cycles.
    fn handle_rotate_shift(&mut self, prefix: u8, operand: u8, memory: &mut Memory) -> (r: u64)
        requires
            old(self).wf(),
            old(memory).wf(),
            prefix >> 6 == 0,
            operand == prefix & 0x07,
        ensures
            final(self).wf(),
            final(memory).wf(),
            (*final(self), final(memory)@, (4 + r) as u64) == cb_model(*old(self), old(memory)@, prefix),
            r <= 8,
    {
        let (value, cycles) = self.get_operand_value(operand, memory);
        let c = self.registers.get_c();
        let (res, co) = shift((prefix >> 3) & 0x07, value, c);
        let added = self.set_operand_value(operand, res, memory);
        self.registers.set_flags(res == 0, false, false, co);
        cycles + added
    }

    /// BIT: the zero flag tells whether the bit is clear.
    fn handle_bit_test(&mut self, prefix: u8, bit: u8, operand: u8, memory: &Memory) -> (r: u64)
        requires
            old(self).wf(),
            memory.wf(),
            prefix >> 6 == 1,
            operand == prefix & 0x07,
            bit == (prefix >> 3) & 0x07,
        ensures
            final(self).wf(),
            (*final(self), memory@, (4 + r) as u64) == cb_model(*old(self), memory@, prefix),
            r <= 8,
    {
        let (value, cycles) = self.get_operand_value(operand, memory);
        proof {
            assert((prefix >> 3) & 0x07 < 8) by (bit_vector);
        }
        let c = self.registers.get_c();
        self.registers.set_flags(value & (1u8 << bit) == 0, false, true, c);
        cycles
    }

    /// RES: clears the bit.
    fn handle_bit_reset(&mut self, prefix: u8, bit: u8, operand: u8, memory: &mut Memory) -> (r: u64)
        requires
            old(self).wf(),
            old(memory).wf(),
            prefix >> 6 == 2,
            operand == prefix & 0x07,
            bit == (prefix >> 3) & 0x07,
        ensures
            final(self).wf(),
            final(memory).wf(),
            (*final(self), final(memory)@, (4 + r) as u64) == cb_model(*old(self), old(memory)@, prefix),
            r <= 8,
    {
        let (value, cycles) = self.get_operand_value(operand, memory);
        proof {
            assert((prefix >> 3) & 0x07 < 8) by (bit_vector);
        }
        let added = self.set_operand_value(operand, value & !(1u8 << bit), memory);
        cycles + added
    }

    /// SET: sets the bit.
    fn handle_bit_set(&mut self, prefix: u8, bit: u8, operand: u8, memory: &mut Memory) -> (r: u64)
        requires
            old(self).wf(),
            old(memory).wf(),
            prefix >> 6 == 3,
            operand == prefix & 0x07,
            bit == (prefix >> 3) & 0x07,
        ensures
            final(self).wf(),
            final(memory).wf(),
            (*final(self), final(memory)@, (4 + r) as u64) == cb_model(*old(self), old(memory)@, prefix),
            r <= 8,
    {
        let (value, cycles) = self.get_operand_value(operand, memory);
        proof {
            assert((prefix >> 3) & 0x07 < 8) by (bit_vector);
        }
        let added = self.set_operand_value(operand, value | (1u8 << bit), memory);
        cycles + added
    }

    fn cond(&self, cc: u8) -> (r: bool)
        ensures
            r == cond_model(self.registers, cc),
    {
        if cc == 0 {
            !self.registers.get_z()
        } else if cc == 1 {
            self.registers.get_z()
        } else if cc == 2 {
            !self.registers.get_c()
        } else {
            self.registers.get_c()
        }
    }

    /// Adds the signed offset at PC to PC.
    fn jump_relative(&mut self, memory: &Memory)
        requires
            old(self).wf(),
            memory.wf(),
        ensures
            final(self).wf(),
            *final(self) == set_pc(
                *old(self),
                add16(
                    old(self).registers.pc,
                    signed(memory@.read_or_zero(old(self).registers.pc as int)),
                ),
            ),
    {
        let e = memory.read_or_zero(self.registers.pc as usize);
        self.registers.pc = offset16(self.registers.pc, e);
    }

    /// Jumps to the 16-bit operand after PC.
    fn jump_absolute(&mut self, memory: &Memory)
        requires
            old(self).wf(),
            memory.wf(),
        ensures
            final(self).wf(),
            *final(self) == set_pc(fetch16_model(*old(self), memory@).0, fetch16_model(*old(self), memory@).1),
    {
        let a = self.fetch16(memory);
        self.registers.pc = a;
    }

    fn get_pair(&self, op: u8) -> (r: u16)
        ensures
            r == pair_of(self.registers, op),
    {
        let p = (op >> 4) & 0x03;
        if p == 0 {
            self.registers.get_bc()
        } else if p == 1 {
            self.registers.get_de()
        } else if p == 2 {
            self.registers.get_hl()
        } else {
            self.registers.sp
        }
    }

    fn put_pair(&mut self, op: u8, v: u16)
        requires
            old(self).wf(),
        ensures
            final(self).wf(),
            *final(self) == with_regs(*old(self), set_pair(old(self).registers, op, v)),
    {
        let p = (op >> 4) & 0x03;
        if p == 0 {
            self.registers.set_bc(v);
        } else if p == 1 {
            self.registers.set_de(v);
        } else if p == 2 {
            self.registers.set_hl(v);
        } else {
            self.registers.sp = v;
        }
    }

    /// LD rr,d16.
    fn ld_r16_n16(&mut self, memory: &Memory, opcode: u8)
        requires
            old(self).wf(),
            memory.wf(),
        ensures
            final(self).wf(),
            *final(self) == with_regs(
                fetch16_model(*old(self), memory@).0,
                set_pair(fetch16_model(*old(self), memory@).0.registers, opcode, fetch16_model(*old(self), memory@).1),
            ),
    {
        let v = self.fetch16(memory);
        self.put_pair(opcode, v);
    }

    /// ADD HL,rr.
    pub fn add_hl_r16(&mut self, opcode: u8)
        requires
            old(self).wf(),
        ensures
            final(self).wf(),
            ({
                let r = old(self).registers;
                let hl = r.hl();
                let rr = pair_of(r, opcode);
                let sum = hl + rr;
                *final(self) == with_regs(
                    *old(self),
                    Registers {
                        f: flags_byte(r.z(), false, (hl & 0x0FFF) + (rr & 0x0FFF) > 0x0FFF, sum > 0xFFFF),
                        ..with_hl(r, (sum % 0x10000) as u16)
                    },
                )
            }),
    {
        let hl = self.registers.get_hl();
        let rr = self.get_pair(opcode);
        let sum = hl as u32 + rr as u32;
        self.registers.set_hl((sum % 0x10000) as u16);
        let z = self.registers.get_z();
        self.registers.set_flags(
            z,
            false,
            (hl & 0x0FFF) as u32 + (rr & 0x0FFF) as u32 > 0x0FFF,
            sum > 0xFFFF,
        );
    }

    /// Opcodes 0x00-0x3F.
    #[verifier::rlimit(30)]
    fn exec_block0(&mut self, op: u8, memory: &mut Memory) -> (r: (bool, u64))
        requires
            old(self).wf(),
            old(memory).wf(),
            op < 0x40,
            op != 0x10,
        ensures
            final(self).wf(),
            final(memory).wf(),
            (*final(self), final(memory)@, r.0, r.1) == block0_model(*old(self), old(memory)@, op),
            r.1 <= 24,
    {
        let col = op & 0x07;
        let lo = op & 0x0F;
        if col == 0 {
            self.exec_control0(op, memory)
        } else if lo == 0x01 || lo == 0x03 || lo == 0x09 || lo == 0x0B {
            self.exec_pairs(op, memory)
        } else if lo == 0x02 || lo == 0x0A {
            self.exec_indirect(op, memory)
        } else if col == 4 || col == 5 || col == 6 {
            self.exec_inc_dec_ld(op, memory)
        } else {
            proof {
                assert(col == 7) by (bit_vector)
                    requires
                        col == op & 0x07,
                        lo == op & 0x0F,
                        col != 0 && col != 4 && col != 5 && col != 6,
                        lo != 1 && lo != 2 && lo != 3 && lo != 9 && lo != 10 && lo != 11,
                ;
            }
            self.exec_accumulator(op, memory);
            (false, 4)
        }
    }

    /// NOP, LD (a16),SP and the relative jumps.
    #[verifier::rlimit(30)]
    fn exec_control0(&mut self, op: u8, memory: &mut Memory) -> (r: (bool, u64))
        requires
            old(self).wf(),
            old(memory).wf(),
            op < 0x40,
            op != 0x10,
            op & 0x07 == 0,
        ensures
            final(self).wf(),
            final(memory).wf(),
            (*final(self), final(memory)@, r.0, r.1) == control0_model(*old(self), old(memory)@, op),
            r.1 <= 24,
    {
        proof {
            reveal(control0_model);
        }
        let row = (op >> 3) & 0x07;
        if op == 0x00 {
            (false, 4)
        } else if op == 0x08 {
            let a = self.fetch16(memory);
            let sp = self.registers.sp;
            memory.write_memory(a as usize, sp as u8);
            memory.write_memory(a.wrapping_add(1) as usize, (sp >> 8) as u8);
            (false, 20)
        } else if op == 0x18 {
            self.registers.pc = self.registers.pc.wrapping_add(1);
            self.jump_relative(memory);
            (false, 12)
        } else {
            proof {
                assert(row >= 4) by (bit_vector)
                    requires
                        row == (op >> 3) & 0x07,
                        op < 0x40,
                        op != 0x10 && op != 0x00 && op != 0x08 && op != 0x18,
                        op & 0x07 == 0,
                ;
            }
            let taken = self.cond(row - 4);
            self.registers.pc = self.registers.pc.wrapping_add(1);
            if taken {
                self.jump_relative(memory);
                (false, 12)
            } else {
                (false, 8)
            }
        }
    }

    /// LD rr,d16, ADD HL,rr, INC rr and DEC rr.
    #[verifier::rlimit(30)]
    fn exec_pairs(&mut self, op: u8, memory: &Memory) -> (r: (bool, u64))
        requires
            old(self).wf(),
            memory.wf(),
            op & 0x0F == 1 || op & 0x0F == 3 || op & 0x0F == 9 || op & 0x0F == 11,
        ensures
            final(self).wf(),
            (*final(self), memory@, r.0, r.1) == pairs_model(*old(self), memory@, op),
            r.1 <= 24,
    {
        proof {
            reveal(pairs_model);
        }
        let lo = op & 0x0F;
        if lo == 0x01 {
            self.ld_r16_n16(memory, op);
            (false, 12)
        } else if lo == 0x09 {
            self.add_hl_r16(op);
            (false, 8)
        } else if lo == 0x03 {
            let v = self.get_pair(op).wrapping_add(1);
            self.put_pair(op, v);
            (false, 8)
        } else {
            let v = self.get_pair(op).wrapping_sub(1);
            self.put_pair(op, v);
            (false, 8)
        }
    }

    /// LD (rr),A and LD A,(rr), with HL incremented or decremented after.
    #[verifier::rlimit(30)]
    fn exec_indirect(&mut self, op: u8, memory: &mut Memory) -> (r: (bool, u64))
        requires
            old(self).wf(),
            old(memory).wf(),
            op < 0x40,
            op & 0x0F == 2 || op & 0x0F == 10,
        ensures
            final(self).wf(),
            final(memory).wf(),
            (*final(self), final(memory)@, r.0, r.1) == indirect_model(*old(self), old(memory)@, op),
            r.1 <= 24,
    {
        proof {
            reveal(indirect_model);
        }
        let lo = op & 0x0F;
        let p = op >> 4;
        proof {
            assert(op >> 4 < 4 && op != 0 && op != 8 && op != 0x18 && op & 0x07 != 0 && op & 0x07
                != 4 && op & 0x07 != 5 && op & 0x07 != 6) by (bit_vector)
                requires
                    op < 0x40,
                    op & 0x0F == 2 || op & 0x0F == 10,
            ;
        }
        let hl = self.registers.get_hl();
        let addr = if p == 0 {
            self.registers.get_bc()
        } else if p == 1 {
            self.registers.get_de()
        } else {
            hl
        };
        if lo == 0x02 {
            memory.write_memory(addr as usize, self.registers.a);
        } else {
            self.registers.a = memory.read_or_zero(addr as usize);
        }
        if p == 2 {
            self.registers.set_hl(hl.wrapping_add(1));
        } else if p == 3 {
            self.registers.set_hl(hl.wrapping_sub(1));
        }
        proof {
            lemma_pair16_halves(old(self).registers.h, old(self).registers.l);
        }
        (false, 8)
    }

    /// INC r, DEC r and LD r,d8 on the eight operand selectors.
    #[verifier::rlimit(30)]
    fn exec_inc_dec_ld(&mut self, op: u8, memory: &mut Memory) -> (r: (bool, u64))
        requires
            old(self).wf(),
            old(memory).wf(),
            op < 0x40,
            op & 0x07 == 4 || op & 0x07 == 5 || op & 0x07 == 6,
        ensures
            final(self).wf(),
            final(memory).wf(),
            (*final(self), final(memory)@, r.0, r.1) == inc_dec_ld_model(*old(self), old(memory)@, op),
            r.1 <= 24,
    {
        proof {
            reveal(inc_dec_ld_model);
        }
        let col = op & 0x07;
        let row = (op >> 3) & 0x07;
        proof {
            assert(op & 0x0F != 1 && op & 0x0F != 2 && op & 0x0F != 3 && op & 0x0F != 9 && op & 0x0F
                != 10 && op & 0x0F != 11 && op != 0 && op != 8 && op != 0x18) by (bit_vector)
                requires
                    op & 0x07 == 4 || op & 0x07 == 5 || op & 0x07 == 6,
            ;
        }
        if col == 4 || col == 5 {
            let (v, _) = self.get_operand_value(row, memory);
            let res = if col == 4 {
                self.inc_r8(v)
            } else {
                self.dec_r8(v)
            };
            self.set_operand_value(row, res, memory);
            (false, if row == 6 {
                12
            } else {
                4
            })
        } else {
            let v = self.ld_r8_n8(memory);
            self.set_operand_value(row, v, memory);
            (false, if row == 6 {
                12
            } else {
                8
            })
        }
    }

    /// The rotations of A, DAA, CPL, SCF and CCF.
    #[verifier::rlimit(30)]
    fn exec_accumulator(&mut self, op: u8, memory: &Memory)
        requires
            old(self).wf(),
            op < 0x40,
            op & 0x07 == 7,
        ensures
            final(self).wf(),
            *final(self) == accumulator_model(*old(self), op),
    {
        proof {
            reveal(accumulator_model);
        }
        let row = (op >> 3) & 0x07;
        proof {
            assert(op & 0x0F != 1 && op & 0x0F != 2 && op & 0x0F != 3 && op & 0x0F != 9 && op & 0x0F
                != 10 && op & 0x0F != 11 && op != 0 && op != 8 && op != 0x18 && row < 8) by (bit_vector)
                requires
                    op & 0x07 == 7,
                    row == (op >> 3) & 0x07,
            ;
        }
        if row < 4 {
            let c = self.registers.get_c();
            let (res, co) = shift(row, self.registers.a, c);
            self.registers.a = res;
            self.registers.set_flags(false, false, false, co);
        } else if row == 4 {
            self.decimal_adjust();
        } else if row == 5 {
            self.registers.a = !self.registers.a;
            let z = self.registers.get_z();
            let c = self.registers.get_c();
            self.registers.set_flags(z, true, true, c);
        } else if row == 6 {
            let z = self.registers.get_z();
            self.registers.set_flags(z, false, false, true);
        } else {
            let z = self.registers.get_z();
            let c = self.registers.get_c();
            self.registers.set_flags(z, false, false, !c);
        }
    }

    /// DAA.
    fn decimal_adjust(&mut self)
        requires
            old(self).wf(),
        ensures
            final(self).wf(),
            *final(self) == with_regs(*old(self), daa_model(old(self).registers)),
    {
        let a = self.registers.a;
        let n = self.registers.get_n();
        let lo: u8 = if self.registers.get_h() || (!n && (a & 0x0F) > 0x09) {
            0x06
        } else {
            0
        };
        let hi = self.registers.get_c() || (!n && a > 0x99);
        let correction: u8 = lo | if hi {
            0x60
        } else {
            0
        };
        let res = if n {
            ((a as u16 + 256 - correction as u16) % 256) as u8
        } else {
            ((a as u16 + correction as u16) % 256) as u8
        };
        self.registers.a = res;
        self.registers.set_flags(res == 0, n, false, hi);
    }

    /// Opcodes 0x40-0x7F.
    #[verifier::rlimit(30)]
    fn exec_block1(&mut self, op: u8, memory: &mut Memory) -> (r: (bool, u64))
        requires
            old(self).wf(),
            old(memory).wf(),
            0x40 <= op < 0x80,
        ensures
            final(self).wf(),
            final(memory).wf(),
            (*final(self), final(memory)@, r.0, r.1) == block1_model(*old(self), old(memory)@, op),
            r.1 <= 24,
    {
        if op == 0x76 {
            self.halted = true;
            return (false, 4);
        }
        let src = op & 0x07;
        let dst = (op >> 3) & 0x07;
        let (v, _) = self.get_operand_value(src, memory);
        self.set_operand_value(dst, v, memory);
        (false, if src == 6 || dst == 6 {
            8
        } else {
            4
        })
    }

    /// Opcodes 0x80-0xBF.
    #[verifier::rlimit(30)]
    fn exec_block2(&mut self, op: u8, memory: &Memory) -> (r: (bool, u64))
        requires
            old(self).wf(),
            memory.wf(),
            0x80 <= op < 0xC0,
        ensures
            final(self).wf(),
            (*final(self), memory@, r.0, r.1) == block2_model(*old(self), memory@, op),
            r.1 <= 24,
    {
        let src = op & 0x07;
        let kind = (op >> 3) & 0x07;
        let (v, extra) = self.get_operand_value(src, memory);
        self.add_a_r8(kind, v);
        (false, 4 + extra)
    }

    /// RET: PC from the stack.
    fn ret(&mut self, memory: &Memory)
        requires
            old(self).wf(),
            memory.wf(),
        ensures
            final(self).wf(),
            *final(self) == set_pc(pop_model(*old(self), memory@).0, pop_model(*old(self), memory@).1),
    {
        let a = self.pop16(memory);
        self.registers.pc = a;
    }

    /// CALL a16: the address after the operand is pushed, PC jumps to the operand.
    fn call(&mut self, memory: &mut Memory)
        requires
            old(self).wf(),
            old(memory).wf(),
        ensures
            final(self).wf(),
            final(memory).wf(),
            (*final(self), final(memory)@) == call_model(
                fetch16_model(*old(self), old(memory)@).0,
                old(memory)@,
                fetch16_model(*old(self), old(memory)@).1,
            ),
    {
        let target = self.fetch16(memory);
        let ret = self.registers.pc.wrapping_add(1);
        self.push16(memory, ret);
        self.registers.pc = target;
    }

    /// Opcodes 0xC0-0xFF in column 0: conditional returns, LDH (a8),A, LDH A,(a8),
    /// ADD SP,e8 and LD HL,SP+e8.
    #[verifier::rlimit(30)]
    fn exec_col0(&mut self, op: u8, memory: &mut Memory) -> (r: (bool, u64))
        requires
            old(self).wf(),
            old(memory).wf(),
            op >= 0xC0,
            op & 0x07 == 0,
        ensures
            final(self).wf(),
            final(memory).wf(),
            (*final(self), final(memory)@, r.0, r.1) == col0_model(*old(self), old(memory)@, op),
            r.1 <= 24,
    {
        proof {
            reveal(col0_model);
        }
        let row = (op >> 3) & 0x07;
        proof {
            assert(row < 8) by (bit_vector)
                requires
                    row == (op >> 3) & 0x07,
            ;
        }
        if row < 4 {
            if self.cond(row) {
                self.ret(memory);
                (true, 20)
            } else {
                (false, 8)
            }
        } else if row == 4 {
            let n = self.ld_r8_n8(memory);
            memory.write_memory(0xFF00 + n as usize, self.registers.a);
            (false, 12)
        } else if row == 6 {
            let n = self.ld_r8_n8(memory);
            self.registers.a = memory.read_or_zero(0xFF00 + n as usize);
            (false, 12)
        } else {
            let sp = self.registers.sp;
            let e = self.ld_r8_n8(memory);
            let (v, h, c) = sp_offset(sp, e);
            if row == 5 {
                self.registers.sp = v;
                self.registers.set_flags(false, false, h, c);
                (false, 16)
            } else {
                self.registers.set_hl(v);
                self.registers.set_flags(false, false, h, c);
                (false, 12)
            }
        }
    }

    /// Column 1: POP, RET, RETI, JP HL and LD SP,HL.
    #[verifier::rlimit(30)]
    fn exec_col1(&mut self, op: u8, memory: &mut Memory) -> (r: (bool, u64))
        requires
            old(self).wf(),
            old(memory).wf(),
            op >= 0xC0,
            op & 0x07 == 1,
        ensures
            final(self).wf(),
            final(memory).wf(),
            (*final(self), final(memory)@, r.0, r.1) == col1_model(*old(self), old(memory)@, op),
            r.1 <= 24,
    {
        proof {
            reveal(col1_model);
        }
        let row = (op >> 3) & 0x07;
        proof {
            assert(row < 8 && (row & 1 == 0 ==> row >> 1 < 4)) by (bit_vector)
                requires
                    row == (op >> 3) & 0x07,
            ;
        }
        if row & 1 == 0 {
            let v = self.pop16(memory);
            let p = row >> 1;
            if p == 0 {
                self.registers.set_bc(v);
            } else if p == 1 {
                self.registers.set_de(v);
            } else if p == 2 {
                self.registers.set_hl(v);
            } else {
                self.registers.set_af(v);
            }
            (false, 12)
        } else if row == 1 || row == 3 {
            self.ret(memory);
            if row == 3 {
                self.ime_pending = 1;
            }
            (true, 16)
        } else if row == 5 {
            self.registers.pc = self.registers.get_hl();
            (true, 4)
        } else {
            self.registers.sp = self.registers.get_hl();
            (false, 8)
        }
    }

    /// Column 2: conditional jumps, LD (C),A, LD (a16),A, LD A,(C) and LD A,(a16).
    #[verifier::rlimit(30)]
    fn exec_col2(&mut self, op: u8, memory: &mut Memory) -> (r: (bool, u64))
        requires
            old(self).wf(),
            old(memory).wf(),
            op >= 0xC0,
            op & 0x07 == 2,
        ensures
            final(self).wf(),
            final(memory).wf(),
            (*final(self), final(memory)@, r.0, r.1) == col2_model(*old(self), old(memory)@, op),
            r.1 <= 24,
    {
        proof {
            reveal(col2_model);
        }
        let row = (op >> 3) & 0x07;
        proof {
            assert(row < 8) by (bit_vector)
                requires
                    row == (op >> 3) & 0x07,
            ;
        }
        if row < 4 {
            if self.cond(row) {
                self.jump_absolute(memory);
                (true, 16)
            } else {
                self.registers.pc = self.registers.pc.wrapping_add(2);
                (false, 12)
            }
        } else if row == 4 {
            memory.write_memory(0xFF00 + self.registers.c as usize, self.registers.a);
            (false, 8)
        } else if row == 5 {
            let a = self.fetch16(memory);
            memory.write_memory(a as usize, self.registers.a);
            (false, 16)
        } else if row == 6 {
            self.registers.a = memory.read_or_zero(0xFF00 + self.registers.c as usize);
            (false, 8)
        } else {
            let a = self.fetch16(memory);
            self.registers.a = memory.read_or_zero(a as usize);
            (false, 16)
        }
    }

    /// Column 3: JP a16, the CB prefix, DI and EI.
    #[verifier::rlimit(30)]
    fn exec_col3(&mut self, op: u8, memory: &mut Memory) -> (r: (bool, u64))
        requires
            old(self).wf(),
            old(memory).wf(),
            op >= 0xC0,
            op & 0x07 == 3,
            !undefined_opcode(op),
        ensures
            final(self).wf(),
            final(memory).wf(),
            (*final(self), final(memory)@, r.0, r.1) == col3_model(*old(self), old(memory)@, op),
            r.1 <= 24,
    {
        proof {
            reveal(col3_model);
        }
        if op == 0xC3 {
            self.jump_absolute(memory);
            (true, 16)
        } else if op == 0xCB {
            let prefix = self.ld_r8_n8(memory);
            let cycles = self.process_prefix(prefix, memory);
            (false, 4 + cycles)
        } else if op == 0xF3 {
            self.ime = false;
            self.ime_pending = 0;
            (false, 4)
        } else {
            proof {
                assert(op == 0xFB) by (bit_vector)
                    requires
                        op >= 0xC0,
                        op & 0x07 == 3,
                        op != 0xC3 && op != 0xCB && op != 0xF3,
                        op != 0xD3 && op != 0xDB && op != 0xE3 && op != 0xEB,
                ;
            }
            self.ime_pending = 2;
            (false, 4)
        }
    }

    /// Columns 4 and 5: calls and pushes.
    #[verifier::rlimit(30)]
    fn exec_col45(&mut self, op: u8, memory: &mut Memory) -> (r: (bool, u64))
        requires
            old(self).wf(),
            old(memory).wf(),
            op >= 0xC0,
            op & 0x07 == 4 || op & 0x07 == 5,
            !undefined_opcode(op),
        ensures
            final(self).wf(),
            final(memory).wf(),
            (*final(self), final(memory)@, r.0, r.1) == col45_model(*old(self), old(memory)@, op),
            r.1 <= 24,
    {
        proof {
            reveal(col45_model);
        }
        let col = op & 0x07;
        let row = (op >> 3) & 0x07;
        proof {
            assert(row < 8 && (col == 4 ==> row < 4) && (col == 5 && row != 1 ==> row & 1 == 0)
                && (row & 1 == 0 ==> row >> 1 < 4)) by (bit_vector)
                requires
                    row == (op >> 3) & 0x07,
                    col == op & 0x07,
                    op >= 0xC0,
                    op != 0xDD && op != 0xED && op != 0xFD && op != 0xE4 && op != 0xEC && op != 0xF4
                        && op != 0xFC,
            ;
        }
        if col == 4 || row == 1 {
            if col == 5 || self.cond(row) {
                self.call(memory);
                (true, 24)
            } else {
                self.registers.pc = self.registers.pc.wrapping_add(2);
                (false, 12)
            }
        } else {
            let p = row >> 1;
            let v = if p == 0 {
                self.registers.get_bc()
            } else if p == 1 {
                self.registers.get_de()
            } else if p == 2 {
                self.registers.get_hl()
            } else {
                self.registers.get_af()
            };
            self.push16(memory, v);
            (false, 16)
        }
    }

    /// Columns 6 and 7: the accumulator operations on an immediate, and RST.
    #[verifier::rlimit(30)]
    fn exec_col67(&mut self, op: u8, memory: &mut Memory) -> (r: (bool, u64))
        requires
            old(self).wf(),
            old(memory).wf(),
            op >= 0xC0,
            op & 0x07 == 6 || op & 0x07 == 7,
        ensures
            final(self).wf(),
            final(memory).wf(),
            (*final(self), final(memory)@, r.0, r.1) == col67_model(*old(self), old(memory)@, op),
            r.1 <= 24,
    {
        proof {
            reveal(col67_model);
        }
        let col = op & 0x07;
        let row = (op >> 3) & 0x07;
        proof {
            assert(row < 8) by (bit_vector)
                requires
                    row == (op >> 3) & 0x07,
            ;
        }
        if col == 6 {
            let v = self.ld_r8_n8(memory);
            self.add_a_r8(row, v);
            (false, 8)
        } else {
            let ret = self.registers.pc.wrapping_add(1);
            self.push16(memory, ret);
            self.registers.pc = row as u16 * 8;
            (true, 16)
        }
    }

    /// Opcodes 0xC0-0xFF.
    #[verifier::rlimit(30)]
    fn exec_block3(&mut self, op: u8, memory: &mut Memory) -> (r: (bool, u64))
        requires
            old(self).wf(),
            old(memory).wf(),
            op >= 0xC0,
            !undefined_opcode(op),
        ensures
            final(self).wf(),
            final(memory).wf(),
            (*final(self), final(memory)@, r.0, r.1) == block3_model(*old(self), old(memory)@, op),
            r.1 <= 24,
    {
        let col = op & 0x07;
        if col == 0 {
            self.exec_col0(op, memory)
        } else if col == 1 {
            self.exec_col1(op, memory)
        } else if col == 2 {
            self.exec_col2(op, memory)
        } else if col == 3 {
            self.exec_col3(op, memory)
        } else if col == 4 || col == 5 {
            self.exec_col45(op, memory)
        } else {
            proof {
                assert(col < 8) by (bit_vector)
                    requires
                        col == op & 0x07,
                ;
            }
            self.exec_col67(op, memory)
        }
    }

    /// Executes the instruction `opcode` found at PC. Returns whether PC was set
    /// explicitly (so the caller must not advance it) and the cycles taken.
    #[verifier::rlimit(30)]
    pub fn process_opcode(&mut self, opcode: u8, memory: &mut Memory) -> (r: (bool, u64))
        requires
            old(self).wf(),
            old(memory).wf(),
            !undefined_opcode(opcode),
        ensures
            final(self).wf(),
            final(memory).wf(),
            (*final(self), final(memory)@, r.0, r.1) == step_model(*old(self), old(memory)@, opcode),
            r.1 <= 24,
    {
        proof {
            reveal(step_model);
        }
        if opcode < 0x40 {
            self.exec_block0(opcode, memory)
        } else if opcode < 0x80 {
            self.exec_block1(opcode, memory)
        } else if opcode < 0xC0 {
            self.exec_block2(opcode, memory)
        } else {
            self.exec_block3(opcode, memory)
        }
    }

    /// Dispatches the lowest enabled and pending interrupt when the master flag is
    /// on: PC is pushed, PC jumps to the vector, the request is cleared and the
    /// master flag and the halted state are turned off. With the master flag off
    /// a pending request only ends HALT. Returns the cycles the dispatch takes.
    #[verifier::rlimit(30)]
    pub fn check_interrupts(&mut self, memory: &mut Memory) -> (r: u64)
        requires
            old(self).wf(),
            old(memory).wf(),
        ensures
            final(self).wf(),
            final(memory).wf(),
            (*final(self), final(memory)@, r) == interrupt_model(*old(self), old(memory)@),
            r <= 20,
    {
        proof {
            reveal(interrupt_model);
        }
        let ie = memory.read_or_zero(IE);
        let flags = memory.read_or_zero(IF);
        let pending = ie & flags & 0x1F;
        if self.ime && pending != 0 {
            let bit: u8 = if pending & 0x01 != 0 {
                0
            } else if pending & 0x02 != 0 {
                1
            } else if pending & 0x04 != 0 {
                2
            } else if pending & 0x08 != 0 {
                3
            } else {
                4
            };
            let pc = self.registers.pc;
            self.push16(memory, pc);
            self.registers.pc = 0x40 + 8 * bit as u16;
            memory.write_memory(IF, flags & !(1u8 << bit));
            self.ime = false;
            self.halted = false;
            20
        } else {
            if !self.ime && self.halted && pending != 0 {
                self.halted = false;
            }
            0
        }
    }
}

} // verus!

verus! {

/// The accumulator operations on a register or (HL) set the flags by the
/// nibble and byte rules: half-carry is the carry (or borrow) out of bit 3, carry
/// the carry (or borrow) out of bit 7, zero tells whether the result is zero,
/// and subtract tells whether the operation subtracts.
pub proof fn lemma_alu_flags(c: Cpu, m: MemView, op: u8)
    requires
        0x80 <= op < 0xC0,
    ensures
        ({
            let a = c.registers.a;
            let v = operand_model(c.registers, m, op & 0x07);
            let kind = (op >> 3) & 0x07;
            let cin = carry_in(c.registers);
            let r = step_model(c, m, op).0.registers;
            &&& kind == 0 ==> r.a == (a + v) % 256 && r.hc() == ((a & 0x0F) + (v & 0x0F) > 0x0F)
                && r.cy() == (a + v > 0xFF) && !r.n()
            &&& kind == 1 ==> r.a == (a + v + cin) % 256 && r.hc() == ((a & 0x0F) + (v & 0x0F) + cin
                > 0x0F) && r.cy() == (a + v + cin > 0xFF) && !r.n()
            &&& kind == 2 ==> r.a == (a - v + 256) % 256 && r.hc() == ((a & 0x0F) < (v & 0x0F))
                && r.cy() == (a < v) && r.n()
            &&& kind == 3 ==> r.a == (a - v - cin + 512) % 256 && r.hc() == ((a & 0x0F) < (v & 0x0F)
                + cin) && r.cy() == (a < v + cin) && r.n()
            &&& kind == 4 ==> r.a == a & v && r.hc() && !r.cy() && !r.n()
            &&& kind == 5 ==> r.a == a ^ v && !r.hc() && !r.cy() && !r.n()
            &&& kind == 6 ==> r.a == a | v && !r.hc() && !r.cy() && !r.n()
            &&& kind == 7 ==> r.a == a && r.z() == (a == v) && r.hc() == ((a & 0x0F) < (v & 0x0F))
                && r.cy() == (a < v) && r.n()
            &&& kind != 7 ==> r.z() == (r.a == 0)
            &&& r.f & 0x0F == 0
        }),
{
    reveal(step_model);
    let a = c.registers.a;
    let v = operand_model(c.registers, m, op & 0x07);
    let cin = carry_in(c.registers);
    let kind = (op >> 3) & 0x07;
    assert(kind < 8) by (bit_vector)
        requires
            kind == (op >> 3) & 0x07,
    ;
    if kind == 0 {
        let res = ((a + v) % 256) as u8;
        lemma_flags_byte(res == 0, false, (a & 0x0F) + (v & 0x0F) > 0x0F, a + v > 0xFF);
    } else if kind == 1 {
        let res = ((a + v + cin) % 256) as u8;
        lemma_flags_byte(res == 0, false, (a & 0x0F) + (v & 0x0F) + cin > 0x0F, a + v + cin > 0xFF);
    } else if kind == 2 {
        let res = ((a - v + 256) % 256) as u8;
        lemma_flags_byte(res == 0, true, (a & 0x0F) < (v & 0x0F), a < v);
    } else if kind == 3 {
        let res = ((a - v - cin + 512) % 256) as u8;
        lemma_flags_byte(res == 0, true, (a & 0x0F) < (v & 0x0F) + cin, a < v + cin);
    } else if kind == 4 {
        lemma_flags_byte(a & v == 0, false, true, false);
    } else if kind == 5 {
        lemma_flags_byte(a ^ v == 0, false, false, false);
    } else if kind == 6 {
        lemma_flags_byte(a | v == 0, false, false, false);
    } else {
        lemma_flags_byte(a == v, true, (a & 0x0F) < (v & 0x0F), a < v);
    }
}

/// With the master flag on and a request both enabled and pending, the lowest
/// such request is serviced: PC jumps to its vector (0x40 + 8 * bit), exactly that
/// request bit is cleared, every lower bit was clear, and the master flag and the
/// halted state are turned off.
pub proof fn lemma_interrupt_priority(c: Cpu, m: MemView)
    requires
        m.wf(),
        c.ime,
        pending_model(m) != 0,
    ensures
        ({
            let p = pending_model(m);
            let bit = lowest_pending(p);
            let flags = m.read_or_zero(IF as int);
            let (c2, m2, cycles) = interrupt_model(c, m);
            &&& bit < 5
            &&& p & (1u8 << bit) != 0
            &&& forall|j: u8| j < bit ==> #[trigger] (p & (1u8 << j)) == 0
            &&& c2.registers.pc == 0x40 + 8 * bit
            &&& m2.read(IF as int) == Some(flags & !(1u8 << bit))
            &&& !c2.ime && !c2.halted
            &&& cycles == 20
        }),
{
    reveal(interrupt_model);
    let p = pending_model(m);
    let bit = lowest_pending(p);
    let ie = m.read_or_zero(IE as int);
    let fl = m.read_or_zero(IF as int);
    assert(p < 32) by (bit_vector)
        requires
            p == ie & fl & 0x1F,
    ;
    assert(bit < 5 && p & (1u8 << bit) != 0 && forall|j: u8| j < bit ==> #[trigger] (p & (1u8
        << j)) == 0) by (bit_vector)
        requires
            p < 32,
            p != 0,
            bit == if p & 0x01 != 0 {
                0u8
            } else if p & 0x02 != 0 {
                1u8
            } else if p & 0x04 != 0 {
                2u8
            } else if p & 0x08 != 0 {
                3u8
            } else {
                4u8
            },
    ;
    let sp1 = add16(c.registers.sp, -1);
    let m1 = write_model(m, sp1 as int, (c.registers.pc >> 8) as u8);
    lemma_write_keeps(m, sp1 as int, (c.registers.pc >> 8) as u8);
    let sp2 = add16(sp1, -1);
    let m2 = write_model(m1, sp2 as int, c.registers.pc as u8);
    lemma_write_keeps(m1, sp2 as int, c.registers.pc as u8);
    lemma_write_io_readback(m2, IF as int, m.read_or_zero(IF as int) & !(1u8 << bit));
}

/// With the master flag off, a halted processor with a request both enabled and
/// pending wakes up without a dispatch: nothing else changes.
pub proof fn lemma_halt_wake(c: Cpu, m: MemView)
    requires
        !c.ime,
        c.halted,
        pending_model(m) != 0,
    ensures
        interrupt_model(c, m) == (Cpu { halted: false, ..c }, m, 0u64),
{
    reveal(interrupt_model);
}

} // verus!
