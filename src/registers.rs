use vstd::prelude::*;

verus! {

/// Flag bit masks of the status byte.
pub const FLAG_Z: u8 = 0x80;

pub const FLAG_N: u8 = 0x40;

pub const FLAG_H: u8 = 0x20;

pub const FLAG_C: u8 = 0x10;

/// Joins a high and a low byte into a 16-bit value.
pub open spec fn pair16(hi: u8, lo: u8) -> u16 {
    (hi as u16 * 256 + lo as u16) as u16
}

/// The eight 8-bit registers, the stack pointer and the program counter.
/// The flags byte keeps its low nibble at zero.
#[derive(Clone, Copy, Debug, PartialEq, Eq)]
pub struct Registers {
    pub a: u8,
    pub f: u8,
    pub b: u8,
    pub c: u8,
    pub d: u8,
    pub e: u8,
    pub h: u8,
    pub l: u8,
    pub sp: u16,
    pub pc: u16,
}

impl Registers {
    pub open spec fn wf(&self) -> bool {
        self.f & 0x0F == 0
    }

    pub open spec fn z(&self) -> bool {
        self.f & FLAG_Z != 0
    }

    pub open spec fn n(&self) -> bool {
        self.f & FLAG_N != 0
    }

    pub open spec fn hc(&self) -> bool {
        self.f & FLAG_H != 0
    }

    pub open spec fn cy(&self) -> bool {
        self.f & FLAG_C != 0
    }

    pub open spec fn hl(&self) -> u16 {
        pair16(self.h, self.l)
    }

    pub open spec fn bc(&self) -> u16 {
        pair16(self.b, self.c)
    }

    pub open spec fn de(&self) -> u16 {
        pair16(self.d, self.e)
    }

    pub open spec fn af(&self) -> u16 {
        pair16(self.a, self.f)
    }

    /// The register values that the boot program leaves behind.
    pub open spec fn default_spec() -> Registers {
        Registers {
            a: 0x01,
            f: 0x80,
            b: 0x00,
            c: 0x13,
            d: 0x00,
            e: 0xD8,
            h: 0x01,
            l: 0x4D,
            sp: 0xFFFE,
            pc: 0x0000,
        }
    }

    /// The register values that the boot program leaves behind.
    pub fn default() -> (r: Registers)
        ensures
            r.wf(),
            r == Registers::default_spec(),
    {
        let r = Registers {
            a: 0x01,
            f: 0b1000_0000,
            b: 0x00,
            c: 0x13,
            d: 0x00,
            e: 0xD8,
            h: 0x01,
            l: 0x4D,
            sp: 0xFFFE,
            pc: 0x0000,
        };
        assert(0x80u8 & 0x0F == 0) by (bit_vector);
        r
    }

    pub fn get_af(&self) -> (r: u16)
        ensures
            r == self.af(),
    {
        join16(self.a, self.f)
    }

    pub fn get_bc(&self) -> (r: u16)
        ensures
            r == self.bc(),
    {
        join16(self.b, self.c)
    }

    pub fn get_de(&self) -> (r: u16)
        ensures
            r == self.de(),
    {
        join16(self.d, self.e)
    }

    pub fn get_hl(&self) -> (r: u16)
        ensures
            r == self.hl(),
    {
        join16(self.h, self.l)
    }

    pub fn get_z(&self) -> (r: bool)
        ensures
            r == self.z(),
    {
        self.f & FLAG_Z != 0
    }

    pub fn get_n(&self) -> (r: bool)
        ensures
            r == self.n(),
    {
        self.f & FLAG_N != 0
    }

    pub fn get_h(&self) -> (r: bool)
        ensures
            r == self.hc(),
    {
        self.f & FLAG_H != 0
    }

    pub fn get_c(&self) -> (r: bool)
        ensures
            r == self.cy(),
    {
        self.f & FLAG_C != 0
    }

    /// Writes AF; the low nibble of the flags is dropped.
    pub fn set_af(&mut self, val: u16)
        ensures
            *final(self) == (Registers { a: (val >> 8) as u8, f: (val & 0xF0) as u8, ..*old(self) }),
            final(self).wf(),
            final(self).af() == val & 0xFFF0,
    {
        self.a = (val >> 8) as u8;
        self.f = (val & 0x00F0) as u8;
        proof {
            lemma_split16(val);
            assert(((val & 0xF0) as u8) & 0x0F == 0 && (val & 0xF0) == ((val & 0xF0) as u8) as u16) by (bit_vector);
            assert(((val >> 8) as u8) as u16 * 256 + ((val & 0xF0) as u8) as u16 == val & 0xFFF0) by (bit_vector);
        }
    }

    pub fn set_bc(&mut self, val: u16)
        ensures
            *final(self) == (Registers { b: (val >> 8) as u8, c: val as u8, ..*old(self) }),
            final(self).bc() == val,
    {
        self.b = (val >> 8) as u8;
        self.c = val as u8;
        proof { lemma_split16(val); }
    }

    pub fn set_de(&mut self, val: u16)
        ensures
            *final(self) == (Registers { d: (val >> 8) as u8, e: val as u8, ..*old(self) }),
            final(self).de() == val,
    {
        self.d = (val >> 8) as u8;
        self.e = val as u8;
        proof { lemma_split16(val); }
    }

    pub fn set_hl(&mut self, val: u16)
        ensures
            *final(self) == (Registers { h: (val >> 8) as u8, l: val as u8, ..*old(self) }),
            final(self).hl() == val,
    {
        self.h = (val >> 8) as u8;
        self.l = val as u8;
        proof { lemma_split16(val); }
    }

    pub fn set_z(&mut self, toggle: bool)
        ensures
            *final(self) == (Registers { f: set_flag_bit(old(self).f, FLAG_Z, toggle), ..*old(self) }),
            final(self).z() == toggle,
            final(self).n() == old(self).n(),
            final(self).hc() == old(self).hc(),
            final(self).cy() == old(self).cy(),
            old(self).wf() ==> final(self).wf(),
    {
        self.f = set_flag(self.f, FLAG_Z, toggle);
    }

    pub fn set_n(&mut self, toggle: bool)
        ensures
            *final(self) == (Registers { f: set_flag_bit(old(self).f, FLAG_N, toggle), ..*old(self) }),
            final(self).n() == toggle,
            final(self).z() == old(self).z(),
            final(self).hc() == old(self).hc(),
            final(self).cy() == old(self).cy(),
            old(self).wf() ==> final(self).wf(),
    {
        self.f = set_flag(self.f, FLAG_N, toggle);
    }

    pub fn set_h(&mut self, toggle: bool)
        ensures
            *final(self) == (Registers { f: set_flag_bit(old(self).f, FLAG_H, toggle), ..*old(self) }),
            final(self).hc() == toggle,
            final(self).z() == old(self).z(),
            final(self).n() == old(self).n(),
            final(self).cy() == old(self).cy(),
            old(self).wf() ==> final(self).wf(),
    {
        self.f = set_flag(self.f, FLAG_H, toggle);
    }

    pub fn set_c(&mut self, toggle: bool)
        ensures
            *final(self) == (Registers { f: set_flag_bit(old(self).f, FLAG_C, toggle), ..*old(self) }),
            final(self).cy() == toggle,
            final(self).z() == old(self).z(),
            final(self).n() == old(self).n(),
            final(self).hc() == old(self).hc(),
            old(self).wf() ==> final(self).wf(),
    {
        self.f = set_flag(self.f, FLAG_C, toggle);
    }

    /// Sets all four flags at once.
    pub fn set_flags(&mut self, z: bool, n: bool, h: bool, c: bool)
        ensures
            *final(self) == (Registers { f: flags_byte(z, n, h, c), ..*old(self) }),
            final(self).wf(),
            final(self).z() == z,
            final(self).n() == n,
            final(self).hc() == h,
            final(self).cy() == c,
    {
        self.f = make_flags(z, n, h, c);
    }
}

/// The flags byte with each bit given.
pub open spec fn flags_byte(z: bool, n: bool, h: bool, c: bool) -> u8 {
    ((if z { 0x80u8 } else { 0u8 }) | (if n { 0x40u8 } else { 0u8 }) | (if h { 0x20u8 } else {
        0u8
    }) | (if c { 0x10u8 } else { 0u8 })) as u8
}

pub open spec fn set_flag_bit(f: u8, mask: u8, on: bool) -> u8 {
    if on {
        f | mask
    } else {
        f & !mask
    }
}

pub fn make_flags(z: bool, n: bool, h: bool, c: bool) -> (r: u8)
    ensures
        r == flags_byte(z, n, h, c),
        r & 0x0F == 0,
        (r & FLAG_Z != 0) == z,
        (r & FLAG_N != 0) == n,
        (r & FLAG_H != 0) == h,
        (r & FLAG_C != 0) == c,
{
    let zb: u8 = if z { 0x80 } else { 0 };
    let nb: u8 = if n { 0x40 } else { 0 };
    let hb: u8 = if h { 0x20 } else { 0 };
    let cb: u8 = if c { 0x10 } else { 0 };
    let r = zb | nb | hb | cb;
    assert(r & 0x0F == 0 && (r & 0x80 != 0) == (zb == 0x80) && (r & 0x40 != 0) == (nb == 0x40)
        && (r & 0x20 != 0) == (hb == 0x20) && (r & 0x10 != 0) == (cb == 0x10)) by (bit_vector)
        requires
            r == zb | nb | hb | cb,
            zb == 0x80 || zb == 0,
            nb == 0x40 || nb == 0,
            hb == 0x20 || hb == 0,
            cb == 0x10 || cb == 0,
    ;
    r
}

fn set_flag(f: u8, mask: u8, on: bool) -> (r: u8)
    requires
        mask == FLAG_Z || mask == FLAG_N || mask == FLAG_H || mask == FLAG_C,
    ensures
        r == set_flag_bit(f, mask, on),
        (r & mask != 0) == on,
        mask != FLAG_Z ==> ((r & FLAG_Z != 0) == (f & FLAG_Z != 0)),
        mask != FLAG_N ==> ((r & FLAG_N != 0) == (f & FLAG_N != 0)),
        mask != FLAG_H ==> ((r & FLAG_H != 0) == (f & FLAG_H != 0)),
        mask != FLAG_C ==> ((r & FLAG_C != 0) == (f & FLAG_C != 0)),
        (f & 0x0F == 0) ==> (r & 0x0F == 0),
{
    let r = if on {
        f | mask
    } else {
        f & !mask
    };
    assert((mask != 0x80u8 ==> ((r & 0x80u8 != 0) == (f & 0x80u8 != 0))) && (mask != 0x40u8 ==> ((r
        & 0x40u8 != 0) == (f & 0x40u8 != 0))) && (mask != 0x20u8 ==> ((r & 0x20u8 != 0) == (f
        & 0x20u8 != 0))) && (mask != 0x10u8 ==> ((r & 0x10u8 != 0) == (f & 0x10u8 != 0))))
        by (bit_vector)
        requires
            mask == 0x80u8 || mask == 0x40u8 || mask == 0x20u8 || mask == 0x10u8,
            r == (if on { f | mask } else { f & !mask }),
    ;
    assert(((f | mask) & mask != 0) && ((f & !mask) & mask == 0) && ((f & 0x0F == 0) ==> ((f | mask)
        & 0x0F == 0 && (f & !mask) & 0x0F == 0))) by (bit_vector)
        requires
            mask == 0x80u8 || mask == 0x40u8 || mask == 0x20u8 || mask == 0x10u8,
    ;
    r
}

/// Composes a 16-bit value from two halves.
pub fn join16(hi: u8, lo: u8) -> (r: u16)
    ensures
        r == pair16(hi, lo),
        r >> 8 == hi as u16,
        r & 0xFF == lo as u16,
{
    let r = (hi as u16) << 8 | lo as u16;
    assert(((hi as u16) << 8 | lo as u16) == (hi as u16 * 256 + lo as u16) as u16 && (((hi as u16)
        << 8 | lo as u16) >> 8) == hi as u16 && (((hi as u16) << 8 | lo as u16) & 0xFF) == lo as u16)
        by (bit_vector);
    r
}

/// Each flag bit of `flags_byte` holds the flag it was built from.
pub proof fn lemma_flags_byte(z: bool, n: bool, h: bool, c: bool)
    ensures
        (flags_byte(z, n, h, c) & FLAG_Z != 0) == z,
        (flags_byte(z, n, h, c) & FLAG_N != 0) == n,
        (flags_byte(z, n, h, c) & FLAG_H != 0) == h,
        (flags_byte(z, n, h, c) & FLAG_C != 0) == c,
        flags_byte(z, n, h, c) & 0x0F == 0,
{
    let zb: u8 = if z {
        0x80
    } else {
        0
    };
    let nb: u8 = if n {
        0x40
    } else {
        0
    };
    let hb: u8 = if h {
        0x20
    } else {
        0
    };
    let cb: u8 = if c {
        0x10
    } else {
        0
    };
    let r = zb | nb | hb | cb;
    assert(r & 0x0F == 0 && (r & 0x80 != 0) == (zb == 0x80) && (r & 0x40 != 0) == (nb == 0x40)
        && (r & 0x20 != 0) == (hb == 0x20) && (r & 0x10 != 0) == (cb == 0x10)) by (bit_vector)
        requires
            r == zb | nb | hb | cb,
            zb == 0x80 || zb == 0,
            nb == 0x40 || nb == 0,
            hb == 0x20 || hb == 0,
            cb == 0x10 || cb == 0,
    ;
}

/// The halves of a joined pair are the bytes it was joined from.
pub proof fn lemma_pair16_halves(hi: u8, lo: u8)
    ensures
        (pair16(hi, lo) >> 8) as u8 == hi,
        pair16(hi, lo) as u8 == lo,
{
    assert((((hi as u16 * 256 + lo as u16) as u16) >> 8) as u8 == hi && ((hi as u16 * 256
        + lo as u16) as u16) as u8 == lo) by (bit_vector);
}

/// Splitting a 16-bit value and joining the halves gives it back.
pub proof fn lemma_split16(v: u16)
    ensures
        pair16((v >> 8) as u8, v as u8) == v,
{
    assert((((v >> 8) as u8) as u16 * 256 + (v as u8) as u16) as u16 == v) by (bit_vector);
}

} // verus!
