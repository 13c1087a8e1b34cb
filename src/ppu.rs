use vstd::prelude::*;
use crate::memory::{
    Memory, MemView, Mbc, is_banked, lemma_write_plain, lemma_io_read, requests_kept, LCDC, STAT, LY, LYC, IF,
};

verus! {

/// The screen's width and height in pixels.
pub const WIDTH: usize = 160;

pub const HEIGHT: usize = 144;

/// Bytes in the framebuffer: four per pixel.
pub const FRAMEBUFFER_LEN: usize = 92160;

/// Cycles in one scanline and in one frame of 154 scanlines.
pub const LINE_CYCLES: u64 = 456;

pub const FRAME_CYCLES: u64 = 70224;

/// The pixel pipeline's modes.
#[derive(Clone, Copy, Debug, PartialEq, Eq, Structural)]
pub enum PpuMode {
    OAMScan,
    PixelDrawing,
    HBlank,
    VBlank,
}

/// How many cycles a mode lasts.
pub open spec fn mode_len(mode: PpuMode) -> int {
    match mode {
        PpuMode::OAMScan => 80,
        PpuMode::PixelDrawing => 172,
        PpuMode::HBlank => 204,
        PpuMode::VBlank => 456,
    }
}

/// Where a mode starts within its scanline.
pub open spec fn mode_start(mode: PpuMode) -> int {
    match mode {
        PpuMode::OAMScan => 0,
        PpuMode::PixelDrawing => 80,
        PpuMode::HBlank => 252,
        PpuMode::VBlank => 0,
    }
}

/// The position within the frame, in cycles, of a mode, scanline and sub-cycle count.
pub open spec fn frame_pos(mode: PpuMode, line: u8, clock: u64) -> int {
    line * 456 + mode_start(mode) + clock
}

/// The mode, scanline and sub-cycle count at position `p` of a frame.
pub open spec fn timing_at(p: int) -> (PpuMode, u8, u64) {
    let line = p / 456;
    let r = p % 456;
    if line >= 144 {
        (PpuMode::VBlank, line as u8, r as u64)
    } else if r < 80 {
        (PpuMode::OAMScan, line as u8, r as u64)
    } else if r < 252 {
        (PpuMode::PixelDrawing, line as u8, (r - 80) as u64)
    } else {
        (PpuMode::HBlank, line as u8, (r - 252) as u64)
    }
}

/// The STAT mode bits of a mode.
pub open spec fn mode_code(mode: PpuMode) -> u8 {
    match mode {
        PpuMode::HBlank => 0,
        PpuMode::VBlank => 1,
        PpuMode::OAMScan => 2,
        PpuMode::PixelDrawing => 3,
    }
}

/// What the pixel pipeline may change in the address space: the STAT, LY and IF
/// registers and nothing else.
pub open spec fn io_frame(old: MemView, new: MemView) -> bool {
    &&& new == old.with_memory(new.memory)
    &&& new.memory.len() == old.memory.len()
    &&& forall|i: int|
        0 <= i < old.memory.len() && i != STAT && i != LY && i != IF ==> #[trigger] new.memory[i]
            == old.memory[i]
}

/// The pixel pipeline: its mode state machine and the framebuffer it renders into.
pub struct PPU {
    pub prev_mode: PpuMode,
    pub mode: PpuMode,
    pub framebuffer: Vec<u8>,
    pub prev_line: u8,
    pub line: u8,
    pub mode_clock: u64,
    pub window_line_counter: u8,
}

/// A store into register `a` without write side effects, where one can reach it.
pub open spec fn io_store(m: MemView, a: int, v: u8) -> MemView {
    if m.writable(a) {
        m.store(a, v)
    } else {
        m
    }
}

/// Whether STAT enables the interrupt source of entering `mode`.
pub open spec fn mode_source(mode: PpuMode, stat: u8) -> bool {
    match mode {
        PpuMode::OAMScan => stat & 0x20 != 0,
        PpuMode::VBlank => stat & 0x10 != 0,
        PpuMode::HBlank => stat & 0x08 != 0,
        PpuMode::PixelDrawing => false,
    }
}

/// The STAT update after a mode or scanline change: the address space after it,
/// the remembered scanline, and whether the screen was blanked (LCD off).
#[verifier::opaque]
pub open spec fn update_stat_model(
    mode: PpuMode,
    prev_mode: PpuMode,
    line: u8,
    prev_line: u8,
    m: MemView,
) -> (MemView, u8, bool) {
    let lcdc = m.read_or_zero(LCDC as int);
    let lyc = m.read_or_zero(LYC as int);
    let stat = m.read_or_zero(STAT as int);
    if lcdc & 0x80 == 0 {
        (io_store(m, STAT as int, ((stat & 0xFC) | 0x01) & !0x04u8), prev_line, true)
    } else {
        let s = if line == lyc {
            (stat & !0x04u8) | 0x04
        } else {
            stat & !0x04u8
        };
        let m1 = io_store(m, STAT as int, s);
        let m2 = if line == lyc && s & 0x40 != 0 {
            io_store(m1, IF as int, m1.read_or_zero(IF as int) | 0x02)
        } else {
            m1
        };
        let m3 = if mode != prev_mode && mode_source(mode, m2.read_or_zero(STAT as int)) {
            io_store(m2, IF as int, m2.read_or_zero(IF as int) | 0x02)
        } else {
            m2
        };
        (m3, line, false)
    }
}

/// Stores `v` into register `addr` without write side effects, where a store can
/// reach it.
fn store_register(memory: &mut Memory, addr: usize, v: u8)
    requires
        old(memory).wf(),
        0xFF00 <= addr < 0x10000,
    ensures
        final(memory).wf(),
        final(memory)@ == io_store(old(memory)@, addr as int, v),
{
    match memory.get_mut(addr) {
        Some(cell) => {
            *cell = v;
        },
        None => {},
    }
}

/// A register store keeps the address space's shape and touches only that register.
proof fn lemma_io_store_frame(m: MemView, a: int, v: u8)
    requires
        m.wf(),
        0xFF00 <= a < 0x10000,
    ensures
        io_store(m, a, v).wf(),
        io_store(m, a, v) == m.with_memory(io_store(m, a, v).memory),
        io_store(m, a, v).memory == m.memory || io_store(m, a, v).memory == m.memory.update(a, v),
{
}

/// The gray shade that a 2-bit palette entry stands for.
pub open spec fn shade_of(v: u8) -> u8 {
    if v == 0 {
        0xFF
    } else if v == 1 {
        0xAA
    } else if v == 2 {
        0x55
    } else {
        0x00
    }
}

fn shade(palette: u8, color_id: u8) -> (r: u8)
    requires
        color_id < 4,
    ensures
        r == shade_of((palette >> (2 * color_id)) & 0x03),
{
    let v = (palette >> (2 * color_id)) & 0x03;
    if v == 0 {
        0xFF
    } else if v == 1 {
        0xAA
    } else if v == 2 {
        0x55
    } else {
        0x00
    }
}

/// The 2-bit color index of pixel `bit` of a tile row given by its two bytes.
fn color_index(byte1: u8, byte2: u8, bit: u8) -> (r: u8)
    requires
        bit < 8,
    ensures
        r < 4,
        r == color_index_of(byte1, byte2, bit),
{
    let low = (byte1 >> bit) & 1;
    let high = (byte2 >> bit) & 1;
    proof {
        assert((((byte2 >> bit) & 1) << 1) | ((byte1 >> bit) & 1) < 4) by (bit_vector);
    }
    (high << 1) | low
}

/// Swapping two entries keeps the same entries.
proof fn lemma_swap_multiset(s: Seq<(u8, u8, u8, u8)>, i: int, j: int)
    requires
        0 <= i < s.len(),
        0 <= j < s.len(),
    ensures
        s.update(i, s[j]).update(j, s[i]).to_multiset() == s.to_multiset(),
{
    broadcast use vstd::multiset::group_multiset_axioms;

    let s1 = s.update(i, s[j]);
    vstd::seq_lib::to_multiset_update(s, i, s[j]);
    vstd::seq_lib::to_multiset_update(s1, j, s[i]);
    if i == j {
        assert(s.update(i, s[j]) =~= s);
        assert(s.update(i, s[j]).update(j, s[i]) =~= s);
    } else {
        assert(s1[j] == s[j]);
        assert(s.contains(s[i]));
        assert(s.contains(s[j]));
        vstd::seq_lib::to_multiset_contains(s, s[i]);
        vstd::seq_lib::to_multiset_contains(s, s[j]);
        assert(s.to_multiset().insert(s[j]).remove(s[i]).insert(s[i]).remove(s[j]) =~= s.to_multiset());
    }
}

/// The color index of pixel `px` of object `spr` on scanline `line`.
#[verifier::rlimit(60)]
fn sprite_color_id(memory: &Memory, line: u8, tall: bool, spr: (u8, u8, u8, u8), px: u8) -> (r: u8)
    requires
        memory.wf(),
        px < 8,
    ensures
        r == sprite_id(render_view(memory@), line, tall, spr, px as int),
    r < 4,
{
    proof {
        lemma_render_view(memory@);
    }
    let (_, y_pos, tile_num, attributes) = spr;
    let row = sprite_tile_row(line, y_pos, tall, attributes);
    let address: u16 = 0x8000 + tile_num as u16 * 16 + row;
    let byte1 = memory.read_or_zero(address as usize);
    let byte2 = memory.read_or_zero(address as usize + 1);
    let bit_index = if attributes & 0x20 != 0 {
        px
    } else {
        7 - px
    };
    color_index(byte1, byte2, bit_index)
}

#[verifier::rlimit(60)]
fn sprite_tile_row(line: u8, y: u8, tall: bool, attr: u8) -> (r: u16)
    ensures
        r as int == sprite_row(line, y, tall, attr),
        r < 512,
{
    let height: u8 = if tall {
        16
    } else {
        8
    };
    let d = line.wrapping_sub(y.wrapping_sub(16));
    if attr & 0x40 != 0 {
        (height - 1).wrapping_sub(d) as u16 * 2
    } else {
        d as u16 * 2
    }
}

/// `x_pos - 8 + px`, wrapping: the screen column of pixel `px` of an object.
fn sprite_column(x_pos: u8, px: u8) -> (r: u8)
    requires
        px < 8,
    ensures
        r == (x_pos + 248 + px) % 256,
{
    x_pos.wrapping_sub(8).wrapping_add(px)
}

/// Object attribute entry `k`.
fn oam_read(memory: &Memory, k: usize, tall: bool) -> (r: (u8, u8, u8, u8))
    requires
        memory.wf(),
        k < 40,
    ensures
        r == oam_entry(render_view(memory@), k as int, tall),
{
    proof {
        lemma_render_view(memory@);
    }
    let base: usize = 0xFE00 + k * 4;
    let y_pos = memory.read_or_zero(base);
    let x_pos = memory.read_or_zero(base + 1);
    let tile = memory.read_or_zero(base + 2);
    let attributes = memory.read_or_zero(base + 3);
    (x_pos, y_pos, if tall {
        tile & 0xFE
    } else {
        tile
    }, attributes)
}

/// Whether an object at vertical position `y` covers scanline `line`.
fn covers_line(line: u8, y: u8, height: u8) -> (r: bool)
    ensures
        r == covers(line, y, height),
{
    let top = y.wrapping_sub(16);
    line >= top && line < top.wrapping_add(height)
}

/// The entries of object memory that cover scanline `line`, in stored order.
fn collect_sprites(memory: &Memory, line: u8, tall: bool) -> (r: Vec<(u8, u8, u8, u8)>)
    requires
        memory.wf(),
    ensures
        r@ == oam_hits(render_view(memory@), line,tall, 40),
{
    proof {
        lemma_render_view(memory@);
    }
    let height: u8 = if tall {
        16
    } else {
        8
    };
    let mut sprites: Vec<(u8, u8, u8, u8)> = Vec::new();
    let mut k: usize = 0;
    while k < 40
        invariant
            k <= 40,
            memory.wf(),
            height == sprite_height(tall),
            sprites@ == oam_hits(render_view(memory@), line, tall, k as nat),
        decreases 40 - k,
    {
        let entry = oam_read(memory, k, tall);
        if covers_line(line, entry.1, height) {
            sprites.push(entry);
        }
        proof {
            assert(oam_hits(render_view(memory@), line, tall, (k + 1) as nat) == {
                let hits = oam_hits(render_view(memory@), line, tall, k as nat);
                let e = oam_entry(render_view(memory@), k as int, tall);
                if covers(line, e.1, sprite_height(tall)) {
                    hits.push(e)
                } else {
                    hits
                }
            });
        }
        k = k + 1;
    }
    sprites
}

/// Orders the sprites by x position, keeping the order of equal ones.
fn sort_by_x(v: &mut Vec<(u8, u8, u8, u8)>)
    ensures
        final(v)@.len() == old(v)@.len(),
        final(v)@.to_multiset() == old(v)@.to_multiset(),
        forall|i: int, j: int| 0 <= i < j < final(v)@.len() ==> final(v)@[i].0 <= final(v)@[j].0,
{
    let n = v.len();
    let mut i: usize = 1;
    while i < n
        invariant
            n == v@.len(),
            n == old(v)@.len(),
            v@.to_multiset() == old(v)@.to_multiset(),
            1 <= i || n == 0,
            i <= n || n == 0,
            forall|a: int, b: int| 0 <= a < b < i && b < n ==> v@[a].0 <= v@[b].0,
        decreases n - i,
    {
        let mut j: usize = i;
        while j > 0 && v[j - 1].0 > v[j].0
            invariant
                n == v@.len(),
                v@.to_multiset() == old(v)@.to_multiset(),
                i < n,
                j <= i,
                forall|a: int, b: int| 0 <= a < b <= i && b != j && a != j ==> v@[a].0 <= v@[b].0,
                forall|a: int, b: int| j <= a < b <= i ==> v@[a].0 <= v@[b].0,
                j > 0 && j < i ==> v@[j - 1].0 <= v@[j + 1].0,
            decreases j,
        {
            let x = v[j - 1];
            let y = v[j];
            proof {
                lemma_swap_multiset(v@, j - 1, j as int);
            }
            v.set(j - 1, y);
            v.set(j, x);
            j = j - 1;
        }
        i = i + 1;
    }
}

/// A state that a frame passes through sits at a position inside the frame, and
/// the position gives it back.
pub proof fn lemma_timing_round_trip(mode: PpuMode, line: u8, clock: u64)
    requires
        line <= 153,
        (line >= 144) == (mode == PpuMode::VBlank),
        clock < mode_len(mode),
    ensures
        0 <= frame_pos(mode, line, clock) < FRAME_CYCLES,
        timing_at(frame_pos(mode, line, clock)) == (mode, line, clock),
{
    let off = mode_start(mode) + clock;
    vstd::arithmetic::div_mod::lemma_fundamental_div_mod_converse(
        frame_pos(mode, line, clock),
        456,
        line as int,
        off,
    );
}

/// One frame is 70224 cycles: advancing by that many cycles from any state of
/// the frame returns to the same mode, scanline and sub-cycle count.
pub proof fn lemma_frame_length(mode: PpuMode, line: u8, clock: u64)
    requires
        line <= 153,
        (line >= 144) == (mode == PpuMode::VBlank),
        clock < mode_len(mode),
    ensures
        timing_at((frame_pos(mode, line, clock) + FRAME_CYCLES) % (FRAME_CYCLES as int)) == (
            mode,
            line,
            clock,
        ),
{
    lemma_timing_round_trip(mode, line, clock);
    vstd::arithmetic::div_mod::lemma_fundamental_div_mod_converse(
        frame_pos(mode, line, clock) + FRAME_CYCLES,
        FRAME_CYCLES as int,
        1,
        frame_pos(mode, line, clock),
    );
}

/// Whether the window layer covers part of scanline `line`.
pub open spec fn window_visible(m: MemView, line: u8) -> bool {
    let lcdc = m.read_or_zero(LCDC as int);
    let wx = m.read_or_zero(0xFF4B);
    lcdc & 0x20 != 0 && line >= m.read_or_zero(0xFF4A) && 7 <= wx <= 166
}

/// The 2-bit color index of pixel `bit` of a tile row given by its two bytes.
pub open spec fn color_index_of(byte1: u8, byte2: u8, bit: u8) -> u8 {
    (((byte2 >> bit) & 1) << 1) | ((byte1 >> bit) & 1)
}

/// Where background or window pixel `x` of scanline `line` comes from: its
/// column and row in the layer and the tile map that covers it. `wline` counts
/// the scanlines that have shown the window so far, this one included.
pub open spec fn bg_coords(m: MemView, line: u8, wline: u8, x: u8) -> (u8, u8, int) {
    let lcdc = m.read_or_zero(LCDC as int);
    let wx = ((m.read_or_zero(0xFF4B) + 256 - 7) % 256) as u8;
    if window_visible(m, line) && x >= wx {
        (((x - wx + 256) % 256) as u8, ((wline + 255) % 256) as u8, if lcdc & 0x40 != 0 {
            0x9C00
        } else {
            0x9800
        })
    } else {
        (
            ((x + m.read_or_zero(0xFF43)) % 256) as u8,
            ((line + m.read_or_zero(0xFF42)) % 256) as u8,
            if lcdc & 0x08 != 0 {
                0x9C00
            } else {
                0x9800
            },
        )
    }
}

/// The gray shade of the layer pixel at column `px`, row `py` of tile map `map`.
pub open spec fn tile_pixel(m: MemView, map: int, px: u8, py: u8) -> u8 {
    let lcdc = m.read_or_zero(LCDC as int);
    let tile_num = m.read_or_zero(map + (py / 8) * 32 + px / 8) as int;
    let tile_addr: int = if lcdc & 0x10 != 0 {
        0x8000 + tile_num * 16
    } else if tile_num < 128 {
        0x8800 + (tile_num + 128) * 16
    } else {
        0x8800 + (tile_num - 128) * 16
    };
    let row = (py % 8) * 2;
    let id = color_index_of(
        m.read_or_zero(tile_addr + row),
        m.read_or_zero(tile_addr + row + 1),
        (7 - px % 8) as u8,
    );
    if lcdc & 0x01 == 0 {
        0xFF
    } else {
        shade_of((m.read_or_zero(0xFF47) >> (2 * id)) & 0x03)
    }
}

/// The gray shade of background or window pixel `x` of scanline `line`.
pub open spec fn bg_pixel(m: MemView, line: u8, wline: u8, x: u8) -> u8 {
    let (px, py, map) = bg_coords(m, line, wline, x);
    tile_pixel(m, map, px, py)
}

/// One of the four gray shades.
pub open spec fn is_shade(c: u8) -> bool {
    c == 0x00 || c == 0x55 || c == 0xAA || c == 0xFF
}

/// Pixel `x` of scanline `line` in the framebuffer is an opaque gray shade.
pub open spec fn gray_pixel(fb: Seq<u8>, line: u8, x: int) -> bool {
    let i = line * 640 + x * 4;
    fb[i] == fb[i + 1] && fb[i + 1] == fb[i + 2] && is_shade(fb[i]) && fb[i + 3] == 0xFF
}

/// Pixel `x` of scanline `line` in the framebuffer shows gray `color`, opaque.
pub open spec fn pixel_is(fb: Seq<u8>, line: u8, x: int, color: u8) -> bool {
    let i = line * 640 + x * 4;
    fb[i] == color && fb[i + 1] == color && fb[i + 2] == color && fb[i + 3] == 0xFF
}

/// The gray shade of background or window pixel `x` of scanline `line`.
fn background_pixel(memory: &Memory, line: u8, wline: u8, x: u8) -> (r: u8)
    requires
        memory.wf(),
    ensures
        r == bg_pixel(render_view(memory@), line,wline, x),
{
    proof {
        lemma_render_view(memory@);
    }
    let (px, py, map) = layer_coords(memory, line, wline, x);
    layer_pixel(memory, map, px, py)
}

#[verifier::rlimit(30)]
fn layer_coords(memory: &Memory, line: u8, wline: u8, x: u8) -> (r: (u8, u8, u16))
    requires
        memory.wf(),
    ensures
        (r.0, r.1, r.2 as int) == bg_coords(render_view(memory@), line, wline, x),
        r.2 == 0x9800 || r.2 == 0x9C00,
{
    proof {
        lemma_render_view(memory@);
    }
    let lcdc = memory.read_or_zero(LCDC);
    let wy = memory.read_or_zero(0xFF4A);
    let wx_effective = memory.read_or_zero(0xFF4B);
    let wx = wx_effective.wrapping_sub(7);
    let show_window = lcdc & 0x20 != 0 && line >= wy && 7 <= wx_effective && wx_effective <= 166;
    if show_window && x >= wx {
        (x.wrapping_sub(wx), wline.wrapping_sub(1), if lcdc & 0x40 != 0 {
            0x9C00
        } else {
            0x9800
        })
    } else {
        let scy = memory.read_or_zero(0xFF42);
        let scx = memory.read_or_zero(0xFF43);
        (x.wrapping_add(scx), line.wrapping_add(scy), if lcdc & 0x08 != 0 {
            0x9C00
        } else {
            0x9800
        })
    }
}

#[verifier::rlimit(30)]
fn layer_pixel(memory: &Memory, map: u16, px: u8, py: u8) -> (r: u8)
    requires
        memory.wf(),
        map == 0x9800 || map == 0x9C00,
    ensures
        r == tile_pixel(render_view(memory@), map as int, px, py),
{
    proof {
        lemma_render_view(memory@);
    }
    let lcdc = memory.read_or_zero(LCDC);
    let tile_x = px as u16 / 8;
    let tile_y = py as u16 / 8;
    let tile_num = memory.read_or_zero((map + tile_y * 32 + tile_x) as usize) as u16;
    let tile_data_address: u16 = if lcdc & 0x10 != 0 {
        0x8000 + tile_num * 16
    } else if tile_num < 128 {
        0x8800 + (tile_num + 128) * 16
    } else {
        0x8800 + (tile_num - 128) * 16
    };
    let row = (py % 8) as u16 * 2;
    let byte1 = memory.read_or_zero((tile_data_address + row) as usize);
    let byte2 = memory.read_or_zero((tile_data_address + row + 1) as usize);
    let color_id = color_index(byte1, byte2, 7 - px % 8);
    if lcdc & 0x01 == 0 {
        0xFF
    } else {
        shade(memory.read_or_zero(0xFF47), color_id)
    }
}

/// Every interrupt request that was set in `a` is still set in `b`, and only the
/// VBlank and STAT requests (bits 0 and 1) may have been raised.
pub open spec fn lcd_requests(a: MemView, b: MemView) -> bool {
    &&& requests_kept(a, b)
    &&& b.memory[IF as int] & 0xFC == a.memory[IF as int] & 0xFC
}

/// Scanline `line` of `fb` is as the renderer draws it from `rv`: the background
/// and window row, with the objects that cover the line drawn over it when LCDC
/// enables objects. `wline` counts the scanlines that have shown the window.
pub open spec fn row_rendered(fb: Seq<u8>, rv: MemView, line: u8, wline: u8) -> bool {
    if rv.read_or_zero(LCDC as int) & 0x02 == 0 {
        forall|x: u8| x < 160 ==> #[trigger] pixel_is(fb, line, x as int, bg_pixel(rv, line, wline, x))
    } else {
        exists|fb1: Seq<u8>, s: Seq<(u8, u8, u8, u8)>|
            #[trigger] sprites_drawn(fb1, rv, line, tall_objects(rv), s) == fb && sprite_order(
                s,
                rv,
                line,
                tall_objects(rv),
            ) && forall|x: u8|
                x < 160 ==> #[trigger] pixel_is(fb1, line, x as int, bg_pixel(rv, line, wline, x))
    }
}

/// The address space as the renderer sees it: STAT, LY and IF, which only the
/// pipeline's own bookkeeping touches, read as zero.
pub open spec fn render_view(m: MemView) -> MemView {
    m.with_memory(m.memory.update(STAT as int, 0).update(LY as int, 0).update(IF as int, 0))
}

/// Everywhere but STAT, LY and IF the renderer's view reads as the address space.
proof fn lemma_render_view(m: MemView)
    requires
        m.wf(),
    ensures
        forall|a: int|
            a != STAT && a != LY && a != IF ==> #[trigger] render_view(m).read_or_zero(a)
                == m.read_or_zero(a),
{
    reveal(MemView::read);
}

/// Changes to STAT, LY and IF alone leave the renderer's view as it is.
proof fn lemma_render_view_frame(a: MemView, b: MemView)
    requires
        io_frame(a, b),
        a.wf(),
    ensures
        render_view(a) == render_view(b),
{
    assert forall|i: int| 0 <= i < a.memory.len() implies render_view(a).memory[i] == render_view(
        b,
    ).memory[i] by {
        if i != STAT && i != LY && i != IF {
            assert(b.memory[i] == a.memory[i]);
        }
    }
    assert(render_view(a).memory =~= render_view(b).memory);
}

/// Whether LCDC selects objects 16 pixels tall.
pub open spec fn tall_objects(m: MemView) -> bool {
    m.read_or_zero(LCDC as int) & 0x04 != 0
}

/// Whether LCDC turns the display on.
pub open spec fn lcd_on(m: MemView) -> bool {
    m.read_or_zero(LCDC as int) & 0x80 != 0
}

/// Whether the display is on does not change while only STAT, LY and IF change.
proof fn lemma_lcd_on_frame(a: MemView, b: MemView)
    requires
        io_frame(a, b),
        a.wf(),
        b.memory[LCDC as int] == a.memory[LCDC as int],
    ensures
        lcd_on(a) == lcd_on(b),
{
    reveal(MemView::read);
}

proof fn lemma_kept_trans(a: MemView, b: MemView, c: MemView)
    requires
        lcd_requests(a, b),
        lcd_requests(b, c),
    ensures
        lcd_requests(a, c),
{
    let x = a.memory[IF as int];
    let y = b.memory[IF as int];
    let z = c.memory[IF as int];
    assert(x & z == x && z & 0xFC == x & 0xFC) by (bit_vector)
        requires
            x & y == x,
            y & z == y,
            y & 0xFC == x & 0xFC,
            z & 0xFC == y & 0xFC,
    ;
}

proof fn lemma_kept_same(a: MemView, b: MemView)
    requires
        a.memory[IF as int] == b.memory[IF as int],
    ensures
        lcd_requests(a, b),
{
    let x = a.memory[IF as int];
    assert(x & x == x) by (bit_vector);
}

proof fn lemma_kept_bits(a: MemView, b: MemView, mask: u8)
    requires
        lcd_requests(a, b) || requests_kept(a, b),
        a.memory[IF as int] & mask != 0,
    ensures
        b.memory[IF as int] & mask != 0,
{
    let x = a.memory[IF as int];
    let y = b.memory[IF as int];
    assert(y & mask != 0) by (bit_vector)
        requires
            x & y == x,
            x & mask != 0,
    ;
}

/// The STAT writes of the pipeline change only bits 0 to 2.
proof fn lemma_stat_write(stat: u8, code: u8)
    requires
        code < 4,
    ensures
        ((stat & 0xFC) | code) & 0x03 == code,
        ((stat & 0xFC) | code) & 0xFC == stat & 0xFC,
        (((stat & 0xFC) | 0x01) & !0x04u8) & 0xF8 == stat & 0xF8,
        ((stat & !0x04u8) | 0x04) & 0xF8 == stat & 0xF8,
        ((stat & !0x04u8) | 0x04) & 0x04 != 0,
        (stat & !0x04u8) & 0xF8 == stat & 0xF8,
        (stat & !0x04u8) & 0x04 == 0,
{
    assert(((stat & 0xFC) | code) & 0x03 == code && ((stat & 0xFC) | code) & 0xFC == stat & 0xFC
        && (((stat & 0xFC) | 0x01) & !0x04u8) & 0xF8 == stat & 0xF8 && ((stat & !0x04u8) | 0x04)
        & 0xF8 == stat & 0xF8 && ((stat & !0x04u8) | 0x04) & 0x04 != 0 && (stat & !0x04u8) & 0xF8
        == stat & 0xF8 && (stat & !0x04u8) & 0x04 == 0) by (bit_vector)
        requires
            code < 4,
    ;
}

/// Equal bits 3 to 7 mean equal interrupt-source bits.
proof fn lemma_high_bits(x: u8, y: u8)
    ensures
        (x & 0xF8 == y & 0xF8) ==> (x & 0x40 == y & 0x40 && x & 0x20 == y & 0x20 && x & 0x10 == y
            & 0x10 && x & 0x08 == y & 0x08),
        (x & 0xFC == y & 0xFC) ==> x & 0xF8 == y & 0xF8 && x & 0x04 == y & 0x04,
{
    assert(((x & 0xF8 == y & 0xF8) ==> (x & 0x40 == y & 0x40 && x & 0x20 == y & 0x20 && x & 0x10
        == y & 0x10 && x & 0x08 == y & 0x08)) && ((x & 0xFC == y & 0xFC) ==> x & 0xF8 == y & 0xF8
        && x & 0x04 == y & 0x04)) by (bit_vector);
}

/// STAT values that agree on bits 3 to 7 enable the same interrupt sources.
proof fn lemma_stat_sources(a: MemView, b: MemView)
    requires
        a.memory[STAT as int] & 0xF8 == b.memory[STAT as int] & 0xF8,
    ensures
        a.memory[STAT as int] & 0x40 == b.memory[STAT as int] & 0x40,
        forall|mode: PpuMode|
            mode_source(mode, a.memory[STAT as int]) == #[trigger] mode_source(mode, b.memory[STAT as int]),
{
    lemma_high_bits(a.memory[STAT as int], b.memory[STAT as int]);
}

/// A store into STAT keeps LY and the interrupt requests.
proof fn lemma_store_stat(m: MemView, v: u8)
    requires
        m.wf(),
    ensures
        lcd_requests(m, io_store(m, STAT as int, v)),
        io_store(m, STAT as int, v).memory[LY as int] == m.memory[LY as int],
        io_store(m, STAT as int, v).memory[LCDC as int] == m.memory[LCDC as int],
{
    lemma_kept_same(m, io_store(m, STAT as int, v));
}

/// Raising request bits keeps LY and the requests already set, and sets the new
/// ones where the register can be reached.
proof fn lemma_store_request(m: MemView, bits: u8)
    requires
        m.wf(),
        bits == 1 || bits == 2,
    ensures
        lcd_requests(m, io_store(m, IF as int, m.read_or_zero(IF as int) | bits)),
        io_store(m, IF as int, m.read_or_zero(IF as int) | bits).memory[LY as int] == m.memory[LY as int],
        io_store(m, IF as int, m.read_or_zero(IF as int) | bits).memory[LCDC as int] == m.memory[LCDC as int],
        m.writable(IF as int) ==> io_store(m, IF as int, m.read_or_zero(IF as int) | bits).memory[IF as int]
            & bits == bits,
{
    let n = io_store(m, IF as int, m.read_or_zero(IF as int) | bits);
    if m.writable(IF as int) {
        lemma_io_read(m, IF as int);
        let x = m.memory[IF as int];
        assert(x & (x | bits) == x && (x | bits) & bits == bits && (x | bits) & 0xFC == x & 0xFC)
            by (bit_vector)
            requires
                bits == 1 || bits == 2,
        ;
    } else {
        lemma_kept_same(m, n);
    }
}

/// The height of objects in pixels: 16 when LCDC selects tall objects, else 8.
pub open spec fn sprite_height(tall: bool) -> u8 {
    if tall {
        16
    } else {
        8
    }
}

/// Object attribute entry `k` as (x, y, tile, attributes); tall objects use an
/// even tile number.
pub open spec fn oam_entry(m: MemView, k: int, tall: bool) -> (u8, u8, u8, u8) {
    let b = 0xFE00 + k * 4;
    let tile = m.read_or_zero(b + 2);
    (m.read_or_zero(b + 1), m.read_or_zero(b), if tall {
        tile & 0xFE
    } else {
        tile
    }, m.read_or_zero(b + 3))
}

/// Whether an object at vertical position `y` covers scanline `line`.
pub open spec fn covers(line: u8, y: u8, height: u8) -> bool {
    let top = ((y + 240) % 256) as u8;
    line >= top && line < ((top + height) % 256) as u8
}

/// The entries among the first `k` of object memory that cover scanline `line`,
/// in the order they are stored.
pub open spec fn oam_hits(m: MemView, line: u8, tall: bool, k: nat) -> Seq<(u8, u8, u8, u8)>
    decreases k,
{
    if k == 0 {
        Seq::empty()
    } else {
        let hits = oam_hits(m, line, tall, (k - 1) as nat);
        let e = oam_entry(m, k - 1, tall);
        if covers(line, e.1, sprite_height(tall)) {
            hits.push(e)
        } else {
            hits
        }
    }
}

/// The 2-bit color index of pixel `px` (0 to 7, left to right) of object `spr`
/// on scanline `line`, flipped as its attributes say.
pub open spec fn sprite_id(m: MemView, line: u8, tall: bool, spr: (u8, u8, u8, u8), px: int) -> u8 {
    let (x_pos, y_pos, tile, attr) = spr;
    let addr = 0x8000 + tile * 16 + sprite_row(line, y_pos, tall, attr);
    let bit = if attr & 0x20 != 0 {
        px as u8
    } else {
        (7 - px) as u8
    };
    color_index_of(m.read_or_zero(addr), m.read_or_zero(addr + 1), bit)
}

/// The byte offset, within its tile, of the row of an object at vertical
/// position `y` that scanline `line` shows, flipped vertically if `attr` says so.
pub open spec fn sprite_row(line: u8, y: u8, tall: bool, attr: u8) -> int {
    let top = ((y + 240) % 256) as u8;
    let d = ((line - top + 256) % 256) as u8;
    if attr & 0x40 != 0 {
        ((sprite_height(tall) - 1 - d + 256) % 256) * 2
    } else {
        d * 2
    }
}

/// The shade of color index `id` through the object palette that `attr` selects.
pub open spec fn sprite_shade(m: MemView, attr: u8, id: u8) -> u8 {
    let palette = if attr & 0x10 != 0 {
        m.read_or_zero(0xFF49)
    } else {
        m.read_or_zero(0xFF48)
    };
    shade_of((palette >> (2 * id)) & 0x03)
}

/// The framebuffer after pixel `px` of object `spr` is drawn on scanline `line`:
/// through its palette, unless the pixel is transparent, off screen, or behind a
/// background pixel that is not white.
#[verifier::opaque]
pub open spec fn sprite_pixel(
    fb: Seq<u8>,
    m: MemView,
    line: u8,
    tall: bool,
    spr: (u8, u8, u8, u8),
    px: int,
) -> Seq<u8> {
    let id = sprite_id(m, line, tall, spr, px);
    let color = sprite_shade(m, spr.3, id);
    let x = (spr.0 + 248 + px) % 256;
    let i = line * 640 + x * 4;
    if id != 0 && x < 160 && (spr.3 & 0x80 == 0 || fb[i] == 0xFF) {
        fb.update(i, color).update(i + 1, color).update(i + 2, color).update(i + 3, 0xFF)
    } else {
        fb
    }
}

/// The framebuffer after the first `n` pixels of object `spr` are drawn.
pub open spec fn sprite_upto(
    fb: Seq<u8>,
    m: MemView,
    line: u8,
    tall: bool,
    spr: (u8, u8, u8, u8),
    n: nat,
) -> Seq<u8>
    decreases n,
{
    if n == 0 {
        fb
    } else {
        sprite_pixel(sprite_upto(fb, m, line, tall, spr, (n - 1) as nat), m, line, tall, spr, n - 1)
    }
}

/// The framebuffer after objects `s[k..count]` are drawn, the last one first, so
/// that `s[k]` ends up on top.
pub open spec fn sprites_from(
    fb: Seq<u8>,
    m: MemView,
    line: u8,
    tall: bool,
    s: Seq<(u8, u8, u8, u8)>,
    k: int,
    count: int,
) -> Seq<u8>
    decreases count - k,
{
    if k >= count {
        fb
    } else {
        sprite_upto(sprites_from(fb, m, line, tall, s, k + 1, count), m, line, tall, s[k], 8)
    }
}

/// The framebuffer after the first ten objects of `s` (or all, if fewer) are
/// drawn on scanline `line`, the leftmost on top.
pub open spec fn sprites_drawn(
    fb: Seq<u8>,
    m: MemView,
    line: u8,
    tall: bool,
    s: Seq<(u8, u8, u8, u8)>,
) -> Seq<u8> {
    sprites_from(fb, m, line, tall, s, 0, if s.len() < 10 {
        s.len() as int
    } else {
        10
    })
}

/// `s` holds the objects covering the scanline, ordered by x position.
pub open spec fn sprite_order(s: Seq<(u8, u8, u8, u8)>, m: MemView, line: u8, tall: bool) -> bool {
    &&& s.to_multiset() == oam_hits(m, line, tall, 40).to_multiset()
    &&& forall|i: int, j: int| 0 <= i < j < s.len() ==> s[i].0 <= s[j].0
}

/// One call of `step`: from pipeline `p0` and address space `m0`, `cycles` cycles
/// later, pipeline `p1` and address space `m1`. The timing moves on by exactly
/// those cycles; only STAT bits 0 to 2, LY and the VBlank and STAT requests
/// change; LY follows the scanline; STAT's coincidence bit and the VBlank and
/// STAT requests are set as their sources say; a scanline just finished is drawn.
pub open spec fn ppu_step(p0: PPU, m0: MemView, cycles: u64, p1: PPU, m1: MemView) -> bool {
    let pos = frame_pos(p0.mode, p0.line, p0.mode_clock);
    let lyc = m0.memory[LYC as int];
    let stat = m0.memory[STAT as int];
    let moved = p0.mode_clock + cycles >= mode_len(p0.mode);
    &&& p1.wf()
    &&& m1.wf()
    &&& p1.timing() == timing_at((pos + cycles) % (FRAME_CYCLES as int))
    &&& io_frame(m0, m1)
    &&& lcd_requests(m0, m1)
    &&& m1.memory[STAT as int] & 0xF8 == stat & 0xF8
    &&& p1.mode_clock > 0 && m0.writable(STAT as int) ==> m1.memory[STAT as int] & 0x03 == mode_code(
        p1.mode,
    )
    &&& cycles >= 456 - pos % 456 ==> m1.memory[LY as int] == p1.line
    &&& cycles < 456 - pos % 456 ==> m1.memory[LY as int] == m0.memory[LY as int]
    &&& lcd_on(m0) && moved ==> ((m1.memory[STAT as int] & 0x04 != 0) == (p1.line == lyc))
    &&& lcd_on(m0) && moved && p1.line == lyc && stat & 0x40 != 0 ==> m1.memory[IF as int] & 0x02
        != 0
    &&& lcd_on(m0) && p1.mode_clock < cycles && p1.mode != PpuMode::VBlank && mode_source(
        p1.mode,
        stat,
    ) ==> m1.memory[IF as int] & 0x02 != 0
    &&& pos < 144 * 456 && pos + cycles >= 144 * 456 && lcd_on(m0) && m0.writable(IF as int)
        ==> m1.memory[IF as int] & 0x01 != 0
    &&& lcd_on(m0) && p1.mode == PpuMode::HBlank && p1.mode_clock < cycles ==> forall|x: int|
        0 <= x < 160 ==> #[trigger] gray_pixel(p1.framebuffer@, p1.line, x)
    &&& lcd_on(m0) && p1.mode == PpuMode::HBlank && p1.mode_clock < cycles ==> row_rendered(
        p1.framebuffer@,
        render_view(m1),
        p1.line,
        p1.window_line_counter,
    )
}

impl PPU {
    /// The timing state is one that a frame passes through.
    pub open spec fn timing_wf(&self) -> bool {
        &&& self.line <= 153
        &&& (self.line >= 144) == (self.mode == PpuMode::VBlank)
        &&& self.mode_clock < mode_len(self.mode)
    }

    pub open spec fn wf(&self) -> bool {
        &&& self.timing_wf()
        &&& self.framebuffer@.len() == FRAMEBUFFER_LEN
        &&& self.prev_line <= 154
        &&& self.window_line_counter <= self.line + 1
        &&& (self.mode == PpuMode::OAMScan || self.mode == PpuMode::PixelDrawing)
            ==> self.window_line_counter <= self.line
        &&& self.mode == PpuMode::VBlank ==> self.window_line_counter == 0
    }

    /// The state at power-on: OAM scan of scanline 0 after the last vertical
    /// blank scanline, with a black framebuffer.
    pub open spec fn is_reset(&self) -> bool {
        &&& self.timing() == (PpuMode::OAMScan, 0u8, 0u64)
        &&& self.prev_mode == PpuMode::VBlank
        &&& self.prev_line == 153
        &&& self.window_line_counter == 0
        &&& self.framebuffer@ == Seq::new(FRAMEBUFFER_LEN as nat, |i: int| 0u8)
    }

    pub open spec fn timing(&self) -> (PpuMode, u8, u64) {
        (self.mode, self.line, self.mode_clock)
    }

    /// The pipeline at the start of a frame: OAM scan of scanline 0.
    pub fn new() -> (r: PPU)
        ensures
            r.wf(),
            r.is_reset(),
    {
        let mut framebuffer: Vec<u8> = Vec::new();
        let mut i: usize = 0;
        while i < FRAMEBUFFER_LEN
            invariant
                i <= FRAMEBUFFER_LEN,
                framebuffer@ == Seq::new(i as nat, |q: int| 0u8),
            decreases FRAMEBUFFER_LEN - i,
        {
            framebuffer.push(0);
            i = i + 1;
        }
        PPU {
            prev_mode: PpuMode::VBlank,
            mode: PpuMode::OAMScan,
            framebuffer,
            prev_line: 153,
            line: 0,
            mode_clock: 0,
            window_line_counter: 0,
        }
    }

    /// Copies the framebuffer into `output`.
    pub fn copy_to_framebuffer(&self, output: &mut [u8])
        requires
            self.wf(),
            old(output)@.len() == FRAMEBUFFER_LEN,
        ensures
            final(output)@ == self.framebuffer@,
    {
        let mut i: usize = 0;
        while i < FRAMEBUFFER_LEN
            invariant
                i <= FRAMEBUFFER_LEN,
                self.framebuffer@.len() == FRAMEBUFFER_LEN,
                output@.len() == FRAMEBUFFER_LEN,
                forall|j: int| 0 <= j < i ==> output@[j] == self.framebuffer@[j],
            decreases FRAMEBUFFER_LEN - i,
        {
            output[i] = self.framebuffer[i];
            i = i + 1;
        }
        assert(output@ =~= self.framebuffer@);
    }

    /// Recomputes the scanline-coincidence bit and raises the STAT interrupt for
    /// its enabled sources; with the LCD off, blanks the screen instead.
    #[verifier::rlimit(30)]
    fn update_stat(&mut self, memory: &mut Memory)
        requires
            old(memory).wf(),
            old(self).framebuffer@.len() == FRAMEBUFFER_LEN,
        ensures
            final(memory).wf(),
            io_frame(old(memory)@, final(memory)@),
            final(self).prev_line == old(self).prev_line || final(self).prev_line == old(self).line,
            final(self).framebuffer@.len() == FRAMEBUFFER_LEN,
            lcd_requests(old(memory)@, final(memory)@),
            final(memory)@.memory[LY as int] == old(memory)@.memory[LY as int],
            final(memory)@.memory[LCDC as int] == old(memory)@.memory[LCDC as int],
            lcd_on(old(memory)@) ==> final(self).framebuffer == old(self).framebuffer,
            final(memory)@.memory[STAT as int] & 0xF8 == old(memory)@.memory[STAT as int] & 0xF8,
            final(memory)@.memory[LYC as int] == old(memory)@.memory[LYC as int],
            lcd_on(old(memory)@) ==> final(self).prev_line == old(self).line,
            lcd_on(old(memory)@) ==> ((final(memory)@.memory[STAT as int] & 0x04 != 0) == (old(self).line
                == old(memory)@.memory[LYC as int])),
            lcd_on(old(memory)@) && old(self).line == old(memory)@.memory[LYC as int]
                && old(memory)@.memory[STAT as int] & 0x40 != 0 ==> final(memory)@.memory[IF as int]
                & 0x02 != 0,
            lcd_on(old(memory)@) && old(self).mode != old(self).prev_mode && mode_source(
                old(self).mode,
                old(memory)@.memory[STAT as int],
            ) ==> final(memory)@.memory[IF as int] & 0x02 != 0,
            ({
                let (m, pl, blank) = update_stat_model(
                    old(self).mode,
                    old(self).prev_mode,
                    old(self).line,
                    old(self).prev_line,
                    old(memory)@,
                );
                &&& final(memory)@ == m
                &&& *final(self) == (PPU { prev_line: pl, framebuffer: final(self).framebuffer, ..*old(self) })
                &&& final(self).framebuffer@ == if blank {
                    Seq::new(FRAMEBUFFER_LEN as nat, |i: int| 0xFFu8)
                } else {
                    old(self).framebuffer@
                }
            }),
    {
        proof {
            reveal(update_stat_model);
        }
        let ghost m0 = memory@;
        proof {
            lemma_io_store_frame(m0, STAT as int, 0);
            lemma_kept_same(m0, m0);
        }
        let lcdc = memory.read_or_zero(LCDC);
        let lyc = memory.read_or_zero(LYC);
        let stat = memory.read_or_zero(STAT);
        proof {
            lemma_io_read(m0, LCDC as int);
            lemma_io_read(m0, LYC as int);
            lemma_io_read(m0, STAT as int);
            lemma_stat_write(stat, 0);
        }
        if lcdc & 0x80 == 0 {
            store_register(memory, STAT, ((stat & 0xFC) | 0x01) & !0x04u8);
            proof {
                lemma_store_stat(m0, ((stat & 0xFC) | 0x01) & !0x04u8);
            }
            self.blank();
            return;
        }
        let s = if self.line == lyc {
            (stat & !0x04u8) | 0x04
        } else {
            stat & !0x04u8
        };
        store_register(memory, STAT, s);
        let ghost m1 = memory@;
        proof {
            lemma_store_stat(m0, s);
            lemma_io_read(m1, STAT as int);
            lemma_high_bits(stat, s);
        }
        self.prev_line = self.line;
        if self.line == lyc && s & 0x40 != 0 {
            let flags = memory.read_or_zero(IF);
            store_register(memory, IF, flags | 0x02);
            proof {
                lemma_store_request(m1, 0x02);
                lemma_kept_trans(m0, m1, memory@);
            }
        }
        let ghost m2 = memory@;
        proof {
            lemma_io_read(m2, STAT as int);
        }
        if self.mode != self.prev_mode {
            let stat2 = memory.read_or_zero(STAT);
            let trigger = match self.mode {
                PpuMode::OAMScan => stat2 & 0x20 != 0,
                PpuMode::VBlank => stat2 & 0x10 != 0,
                PpuMode::HBlank => stat2 & 0x08 != 0,
                PpuMode::PixelDrawing => false,
            };
            if trigger {
                let flags = memory.read_or_zero(IF);
                store_register(memory, IF, flags | 0x02);
                proof {
                    lemma_store_request(m2, 0x02);
                    lemma_kept_trans(m0, m2, memory@);
                    if m2.memory[IF as int] & 0x02 != 0 {
                        lemma_kept_bits(m2, memory@, 0x02);
                    }
                }
            }
        }
    }

    /// Fills the framebuffer with white.
    fn blank(&mut self)
        requires
            old(self).framebuffer@.len() == FRAMEBUFFER_LEN,
        ensures
            final(self).framebuffer@ == Seq::new(FRAMEBUFFER_LEN as nat, |i: int| 0xFFu8),
            *final(self) == (PPU { framebuffer: final(self).framebuffer, ..*old(self) }),
    {
        let mut i: usize = 0;
        while i < FRAMEBUFFER_LEN
            invariant
                i <= FRAMEBUFFER_LEN,
                self.framebuffer@.len() == FRAMEBUFFER_LEN,
                forall|j: int| 0 <= j < i ==> self.framebuffer@[j] == 0xFFu8,
                *self == (PPU { framebuffer: self.framebuffer, ..*old(self) }),
            decreases FRAMEBUFFER_LEN - i,
        {
            self.framebuffer.set(i, 0xFF);
            i = i + 1;
        }
        assert(self.framebuffer@ =~= Seq::new(FRAMEBUFFER_LEN as nat, |i: int| 0xFFu8));
    }

    /// Renders scanline `line` into the framebuffer: background and window from
    /// the tile maps through the background palette, then up to ten sprites.
    #[verifier::rlimit(30)]
    fn render_scanline(&mut self, memory: &Memory)
        requires
            memory.wf(),
            old(self).framebuffer@.len() == FRAMEBUFFER_LEN,
            old(self).line < 144,
            old(self).window_line_counter <= old(self).line,
        ensures
            lcd_on(memory@) ==> row_rendered(
                final(self).framebuffer@,
                render_view(memory@),
                old(self).line,
                final(self).window_line_counter,
            ),
            final(self).framebuffer@.len() == FRAMEBUFFER_LEN,
            forall|i: int|
                0 <= i < FRAMEBUFFER_LEN && !(old(self).line * 640 <= i < old(self).line * 640 + 640)
                    ==> #[trigger] final(self).framebuffer@[i] == old(self).framebuffer@[i],
            final(self).window_line_counter <= old(self).window_line_counter + 1,
            *final(self) == (PPU {
                framebuffer: final(self).framebuffer,
                window_line_counter: final(self).window_line_counter,
                ..*old(self)
            }),
            render_view(memory@).read_or_zero(LCDC as int) & 0x80 == 0 ==> *final(self) == *old(self),
            render_view(memory@).read_or_zero(LCDC as int) & 0x80 != 0 ==> final(self).window_line_counter == if window_visible(
                render_view(memory@),
                old(self).line,
            ) {
                old(self).window_line_counter + 1
            } else {
                old(self).window_line_counter as int
            },
            render_view(memory@).read_or_zero(LCDC as int) & 0x80 != 0 ==> forall|x: int|
                0 <= x < 160 ==> #[trigger] gray_pixel(final(self).framebuffer@, old(self).line, x),
            render_view(memory@).read_or_zero(LCDC as int) & 0x82 == 0x82 ==> exists|
                fb1: Seq<u8>,
                s: Seq<(u8, u8, u8, u8)>,
            |
                #[trigger] sprites_drawn(
                    fb1,
                    render_view(memory@),
                    old(self).line,
                    tall_objects(render_view(memory@)),
                    s,
                ) == final(self).framebuffer@ && sprite_order(
                    s,
                    render_view(memory@),
                    old(self).line,
                    tall_objects(render_view(memory@)),
                ) && forall|x: u8|
                    x < 160 ==> #[trigger] pixel_is(
                        fb1,
                        old(self).line,
                        x as int,
                        bg_pixel(render_view(memory@), old(self).line, final(self).window_line_counter, x),
                    ),
            render_view(memory@).read_or_zero(LCDC as int) & 0x82 == 0x80 ==> forall|x: u8|
                x < 160 ==> #[trigger] pixel_is(
                    final(self).framebuffer@,
                    old(self).line,
                 x as int,
                    bg_pixel(render_view(memory@), old(self).line, final(self).window_line_counter, x),
                ),
    {
        proof {
            lemma_render_view(memory@);
        }
        let lcdc = memory.read_or_zero(LCDC);
        proof {
            assert(((lcdc & 0x82 == 0x80) ==> (lcdc & 0x80 != 0 && lcdc & 0x02 == 0)) && ((lcdc & 0x82
                == 0x82) ==> (lcdc & 0x80 != 0 && lcdc & 0x02 != 0)) && ((lcdc & 0x02 != 0) && (lcdc
                & 0x80 != 0) ==> lcdc & 0x82 == 0x82) && ((lcdc & 0x02 == 0) ==> lcdc & 0x82 != 0x82)
                && ((lcdc & 0x02 == 0) && (lcdc & 0x80 != 0) ==> lcdc & 0x82 == 0x80)) by (bit_vector);
        }
        if lcdc & 0x80 == 0 {
            return;
        }
        let obj_enable = lcdc & 0x02 != 0;
        let obj_size = lcdc & 0x04 != 0;
        let window_enable = lcdc & 0x20 != 0;
        let wy = memory.read_or_zero(0xFF4A);
        let wx_effective = memory.read_or_zero(0xFF4B);
        let line = self.line;
        let show_window = window_enable && line >= wy && 7 <= wx_effective && wx_effective <= 166;
        if show_window {
            self.window_line_counter = self.window_line_counter + 1;
        }
        let ghost fb0 = self.framebuffer@;
        let ghost s0 = *self;
        let row_start: usize = line as usize * 640;
        let mut x: usize = 0;
        while x < WIDTH
            invariant
                x <= WIDTH,
                memory.wf(),
                *self == (PPU { framebuffer: self.framebuffer, ..s0 }),
                line == s0.line,
                line < 144,
                row_start == line * 640,
                self.framebuffer@.len() == FRAMEBUFFER_LEN,
                forall|i: int|
                    0 <= i < FRAMEBUFFER_LEN && !(row_start <= i < row_start + 640) ==> #[trigger] self.framebuffer@[i]
                        == fb0[i],
                forall|q: u8|
                    q < x ==> #[trigger] pixel_is(
                        self.framebuffer@,
                        line,
                        q as int,
                        bg_pixel(render_view(memory@), line, self.window_line_counter, q),
                    ),
            decreases WIDTH - x,
        {
            let color = background_pixel(memory, line, self.window_line_counter, x as u8);
            let index = row_start + x * 4;
            let ghost before = self.framebuffer@;
            self.framebuffer.set(index, color);
            self.framebuffer.set(index + 1, color);
            self.framebuffer.set(index + 2, color);
            self.framebuffer.set(index + 3, 0xFF);
            proof {
                assert forall|q: u8| q < x + 1 implies #[trigger] pixel_is(
                    self.framebuffer@,
                    line,
                    q as int,
                    bg_pixel(render_view(memory@), line, self.window_line_counter, q),
                ) by {
                    if q < x {
                        assert(pixel_is(
                            before,
                            line,
                            q as int,
                            bg_pixel(render_view(memory@), line, self.window_line_counter, q),
                        ));
                    }
                }
            }
            x = x + 1;
        }
        proof {
            assert forall|q: int| 0 <= q < 160 implies #[trigger] gray_pixel(self.framebuffer@, line, q) by {
                let c = bg_pixel(render_view(memory@), line, self.window_line_counter, q as u8);
                assert(pixel_is(self.framebuffer@, line, (q as u8) as int, c));
            }
        }
        let ghost fb1 = self.framebuffer@;
        if obj_enable {
            self.render_sprites(memory, obj_size);
            proof {
                let s = choose|s: Seq<(u8, u8, u8, u8)>|
                    #[trigger] sprite_order(s, render_view(memory@), line, obj_size) && self.framebuffer@
                        == sprites_drawn(fb1, render_view(memory@), line, obj_size, s);
                assert(sprites_drawn(fb1, render_view(memory@), line, obj_size, s) == self.framebuffer@);
                assert(obj_size == tall_objects(render_view(memory@)));
                assert(forall|x: u8|
                    x < 160 ==> #[trigger] pixel_is(
                        fb1,
                        line,
                        x as int,
                        bg_pixel(render_view(memory@), line, self.window_line_counter, x),
                    ));
                assert(sprites_drawn(fb1, render_view(memory@), line, tall_objects(render_view(memory@)), s) == self.framebuffer@
                    && sprite_order(s, render_view(memory@), line, tall_objects(render_view(memory@))));
            }
        }
    }

    /// Draws the sprites that cover scanline `line`: the ten leftmost, the
    /// leftmost drawn last, each pixel through its palette unless it is
    /// transparent or hidden behind a background pixel that is not white.
    fn render_sprites(&mut self, memory: &Memory, tall: bool)
        requires
            memory.wf(),
            old(self).framebuffer@.len() == FRAMEBUFFER_LEN,
            old(self).line < 144,
            forall|x: int| 0 <= x < 160 ==> #[trigger] gray_pixel(old(self).framebuffer@, old(self).line, x),
        ensures
            forall|x: int| 0 <= x < 160 ==> #[trigger] gray_pixel(final(self).framebuffer@, old(self).line, x),
            final(self).framebuffer@.len() == FRAMEBUFFER_LEN,
            forall|i: int|
                0 <= i < FRAMEBUFFER_LEN && !(old(self).line * 640 <= i < old(self).line * 640 + 640)
                    ==> #[trigger] final(self).framebuffer@[i] == old(self).framebuffer@[i],
            *final(self) == (PPU { framebuffer: final(self).framebuffer, ..*old(self) }),
            exists|s: Seq<(u8, u8, u8, u8)>|
                #[trigger] sprite_order(s, render_view(memory@), old(self).line, tall) && final(self).framebuffer@
                    == sprites_drawn(old(self).framebuffer@, render_view(memory@), old(self).line, tall, s),
    {
        proof {
            lemma_render_view(memory@);
        }
        let line = self.line;
        let mut sprites = collect_sprites(memory, line, tall);
        sort_by_x(&mut sprites);
        let ghost fb0 = self.framebuffer@;
        let ghost order = sprites@;
        let count: usize = if sprites.len() < 10 {
            sprites.len()
        } else {
            10
        };
        let mut n: usize = count;
        while n > 0
            invariant
                n <= count,
                memory.wf(),
                count <= sprites@.len(),
                sprites@ == order,
                line == old(self).line,
                line < 144,
                self.framebuffer@.len() == FRAMEBUFFER_LEN,
                forall|i: int|
                    0 <= i < FRAMEBUFFER_LEN && !(line * 640 <= i < line * 640 + 640) ==> #[trigger] self.framebuffer@[i]
                        == fb0[i],
                *self == (PPU { framebuffer: self.framebuffer, ..*old(self) }),
                forall|q: int| 0 <= q < 160 ==> #[trigger] gray_pixel(self.framebuffer@, line, q),
                self.framebuffer@ == sprites_from(fb0, render_view(memory@), line, tall, order, n as int, count as int),
            decreases n,
        {
            n = n - 1;
            let spr = sprites[n];
            let ghost before = self.framebuffer@;
            self.draw_sprite(memory, tall, spr);
            proof {
                assert forall|i: int|
                    0 <= i < FRAMEBUFFER_LEN && !(line * 640 <= i < line * 640 + 640) implies #[trigger] self.framebuffer@[i]
                        == fb0[i] by {
                    assert(before[i] == fb0[i]);
                }
            }
        }
        assert(sprite_order(order, render_view(memory@), line, tall));
    }

    /// Draws the eight pixels of object `spr` on scanline `line`.
    fn draw_sprite(&mut self, memory: &Memory, tall: bool, spr: (u8, u8, u8, u8))
        requires
            memory.wf(),
            old(self).framebuffer@.len() == FRAMEBUFFER_LEN,
            old(self).line < 144,
            forall|x: int| 0 <= x < 160 ==> #[trigger] gray_pixel(old(self).framebuffer@, old(self).line, x),
        ensures
            final(self).framebuffer@ == sprite_upto(old(self).framebuffer@, render_view(memory@), old(self).line, tall, spr, 8),
            forall|x: int| 0 <= x < 160 ==> #[trigger] gray_pixel(final(self).framebuffer@, old(self).line, x),
            final(self).framebuffer@.len() == FRAMEBUFFER_LEN,
            forall|i: int|
                0 <= i < FRAMEBUFFER_LEN && !(old(self).line * 640 <= i < old(self).line * 640 + 640)
                    ==> #[trigger] final(self).framebuffer@[i] == old(self).framebuffer@[i],
            *final(self) == (PPU { framebuffer: final(self).framebuffer, ..*old(self) }),
    {
        proof {
            lemma_render_view(memory@);
        }
        let ghost fb0 = self.framebuffer@;
        let line = self.line;
        let mut px: u8 = 0;
        while px < 8
            invariant
                px <= 8,
                memory.wf(),
                line == old(self).line,
                line < 144,
                self.framebuffer@.len() == FRAMEBUFFER_LEN,
                forall|i: int|
                    0 <= i < FRAMEBUFFER_LEN && !(line * 640 <= i < line * 640 + 640) ==> #[trigger] self.framebuffer@[i]
                        == fb0[i],
                *self == (PPU { framebuffer: self.framebuffer, ..*old(self) }),
                forall|q: int| 0 <= q < 160 ==> #[trigger] gray_pixel(self.framebuffer@, line, q),
                self.framebuffer@ == sprite_upto(fb0, render_view(memory@), line, tall, spr, px as nat),
            decreases 8 - px,
        {
            let ghost before = self.framebuffer@;
            self.draw_sprite_pixel(memory, tall, spr, px);
            proof {
                assert forall|i: int|
                    0 <= i < FRAMEBUFFER_LEN && !(line * 640 <= i < line * 640 + 640) implies #[trigger] self.framebuffer@[i]
                        == fb0[i] by {
                    assert(before[i] == fb0[i]);
                }
                assert(sprite_upto(fb0, render_view(memory@), line, tall, spr, (px + 1) as nat) == sprite_pixel(
                    sprite_upto(fb0, render_view(memory@), line, tall, spr, px as nat),
                    render_view(memory@),
                    line,
                    tall,
                    spr,
                    px as int,
                ));
            }
            px = px + 1;
        }
    }

    /// Draws pixel `px` of object `spr` on scanline `line`.
    #[verifier::rlimit(60)]
    fn draw_sprite_pixel(&mut self, memory: &Memory, tall: bool, spr: (u8, u8, u8, u8), px: u8)
        requires
            memory.wf(),
            px < 8,
            old(self).framebuffer@.len() == FRAMEBUFFER_LEN,
            old(self).line < 144,
            forall|x: int| 0 <= x < 160 ==> #[trigger] gray_pixel(old(self).framebuffer@, old(self).line, x),
        ensures
            final(self).framebuffer@ == sprite_pixel(old(self).framebuffer@, render_view(memory@), old(self).line, tall, spr, px as int),
            forall|x: int| 0 <= x < 160 ==> #[trigger] gray_pixel(final(self).framebuffer@, old(self).line, x),
            final(self).framebuffer@.len() == FRAMEBUFFER_LEN,
            forall|i: int|
                0 <= i < FRAMEBUFFER_LEN && !(old(self).line * 640 <= i < old(self).line * 640 + 640)
                    ==> #[trigger] final(self).framebuffer@[i] == old(self).framebuffer@[i],
            *final(self) == (PPU { framebuffer: final(self).framebuffer, ..*old(self) }),
    {
        proof {
            lemma_render_view(memory@);
        }
        proof {
            reveal(sprite_pixel);
        }
        let line = self.line;
        let (x_pos, _, _, attributes) = spr;
        let color_id = sprite_color_id(memory, line, tall, spr, px);
        let pixel_x = sprite_column(x_pos, px);
        let ghost before = self.framebuffer@;
        if color_id != 0 && (pixel_x as usize) < WIDTH {
            let palette = if attributes & 0x10 != 0 {
                memory.read_or_zero(0xFF49)
            } else {
                memory.read_or_zero(0xFF48)
            };
            let color = shade(palette, color_id);
            assert(color == sprite_shade(render_view(memory@), attributes, color_id));
            let index = line as usize * 640 + pixel_x as usize * 4;
            if attributes & 0x80 == 0 || self.framebuffer[index] == 0xFF {
                self.framebuffer.set(index, color);
                self.framebuffer.set(index + 1, color);
                self.framebuffer.set(index + 2, color);
                self.framebuffer.set(index + 3, 0xFF);
                proof {
                    assert forall|q: int| 0 <= q < 160 implies #[trigger] gray_pixel(
                        self.framebuffer@,
                        line,
                        q,
                    ) by {
                        if q != pixel_x as int {
                            assert(gray_pixel(before, line, q));
                        }
                    }
                }
            }
        }
        proof {
            assert(self.framebuffer@ =~= sprite_pixel(before, render_view(memory@), line, tall, spr, px as int));
        }
    }

    /// Advances the pipeline by `cycles` cycles: the mode and scanline move on by
    /// exactly that many cycles of the frame, excess cycles carried over. Entering
    /// vertical blank with the LCD on requests the VBlank interrupt; scanline and
    /// mode changes update STAT; each finished drawing mode renders its scanline.
    #[verifier::rlimit(30)]
    pub fn step(&mut self, cycles: u64, memory: &mut Memory)
        requires
            old(self).wf(),
            old(memory).wf(),
            cycles <= u64::MAX - 456,
        ensures
            ppu_step(*old(self), old(memory)@, cycles, *final(self), final(memory)@),
    {
        let ghost p0 = frame_pos(self.mode, self.line, self.mode_clock);
        let ghost m0 = memory@;
        let ghost line0 = self.line;
        let ghost mode0 = self.mode;
        let ghost mut crossed = false;
        let ghost mut entered = false;
        let ghost mut moved = false;
        let ghost mut rendered = false;
        let ghost mut changed_mode = false;
        let ghost clock0 = self.mode_clock;
        proof {
            lemma_kept_same(m0, m0);
            lemma_timing_round_trip(self.mode, self.line, self.mode_clock);
            vstd::arithmetic::div_mod::lemma_fundamental_div_mod_converse(
                p0,
                456,
                line0 as int,
                p0 - line0 * 456,
            );
        }
        self.mode_clock = self.mode_clock + cycles;
        let mut coded = false;
        while self.mode_clock > 0
            invariant_except_break
                !coded,
            invariant
                self.pending_wf(),
                frame_pos(self.mode, self.line, self.mode_clock) % (FRAME_CYCLES as int) == (p0 + cycles)
                    % (FRAME_CYCLES as int),
                memory.wf(),
                io_frame(m0, memory@),
                m0.wf(),
                lcd_requests(m0, memory@),
                memory@.memory[LCDC as int] == m0.memory[LCDC as int],
                crossed ==> memory@.memory[LY as int] == self.line,
                !crossed ==> memory@.memory[LY as int] == m0.memory[LY as int],
                crossed ==> cycles + (p0 - line0 * 456) >= 456,
                p0 % 456 == p0 - line0 * 456,
                !moved ==> self.mode == mode0 && self.mode_clock == clock0 + cycles,
                memory@.memory[STAT as int] & 0xF8 == m0.memory[STAT as int] & 0xF8,
                memory@.memory[LYC as int] == m0.memory[LYC as int],
                moved && lcd_on(m0) ==> ((memory@.memory[STAT as int] & 0x04 != 0) == (self.line
                    == m0.memory[LYC as int])),
                moved && lcd_on(m0) && self.line == m0.memory[LYC as int] && m0.memory[STAT as int]
                    & 0x40 != 0 ==> memory@.memory[IF as int] & 0x02 != 0,
                moved && self.mode != PpuMode::VBlank ==> changed_mode,
                changed_mode && lcd_on(m0) && mode_source(self.mode, m0.memory[STAT as int])
                    ==> memory@.memory[IF as int] & 0x02 != 0,
                moved && self.mode == PpuMode::HBlank ==> rendered,
                rendered && self.mode == PpuMode::HBlank && lcd_on(m0) ==> forall|x: int|
                    0 <= x < 160 ==> #[trigger] gray_pixel(self.framebuffer@, self.line, x),
                rendered && self.mode == PpuMode::HBlank && lcd_on(m0) ==> row_rendered(
                    self.framebuffer@,
                    render_view(memory@),
                    self.line,
                    self.window_line_counter,
                ),
                !crossed ==> self.line == line0 && frame_pos(self.mode, self.line, self.mode_clock) == p0 + cycles,
                mode0 != PpuMode::VBlank && !entered ==> self.mode != PpuMode::VBlank && frame_pos(
                    self.mode,
                    self.line,
                    self.mode_clock,
                ) == p0 + cycles,
                entered && lcd_on(m0) && m0.writable(IF as int) ==> memory@.memory[IF as int] & 1 != 0,
            ensures
                self.mode_clock < mode_len(self.mode),
                self.pending_wf(),
                frame_pos(self.mode, self.line, self.mode_clock) % (FRAME_CYCLES as int) == (p0 + cycles)
                    % (FRAME_CYCLES as int),
                memory.wf(),
                io_frame(m0, memory@),
                coded ==> m0.writable(STAT as int) ==> memory@.memory[STAT as int] & 0x03 == mode_code(self.mode),
                self.mode_clock > 0 ==> coded,
                lcd_requests(m0, memory@),
                crossed ==> memory@.memory[LY as int] == self.line,
                !crossed ==> memory@.memory[LY as int] == m0.memory[LY as int],
                crossed ==> cycles + (p0 - line0 * 456) >= 456,
                p0 % 456 == p0 - line0 * 456,
                !moved ==> self.mode == mode0 && self.mode_clock == clock0 + cycles,
                memory@.memory[STAT as int] & 0xF8 == m0.memory[STAT as int] & 0xF8,
                memory@.memory[LYC as int] == m0.memory[LYC as int],
                moved && lcd_on(m0) ==> ((memory@.memory[STAT as int] & 0x04 != 0) == (self.line
                    == m0.memory[LYC as int])),
                moved && lcd_on(m0) && self.line == m0.memory[LYC as int] && m0.memory[STAT as int]
                    & 0x40 != 0 ==> memory@.memory[IF as int] & 0x02 != 0,
                moved && self.mode != PpuMode::VBlank ==> changed_mode,
                changed_mode && lcd_on(m0) && mode_source(self.mode, m0.memory[STAT as int])
                    ==> memory@.memory[IF as int] & 0x02 != 0,
                moved && self.mode == PpuMode::HBlank ==> rendered,
                rendered && self.mode == PpuMode::HBlank && lcd_on(m0) ==> forall|x: int|
                    0 <= x < 160 ==> #[trigger] gray_pixel(self.framebuffer@, self.line, x),
                rendered && self.mode == PpuMode::HBlank && lcd_on(m0) ==> row_rendered(
                    self.framebuffer@,
                    render_view(memory@),
                    self.line,
                    self.window_line_counter,
                ),
                !crossed ==> self.line == line0 && frame_pos(self.mode, self.line, self.mode_clock) == p0 + cycles,
                mode0 != PpuMode::VBlank && !entered ==> self.mode != PpuMode::VBlank && frame_pos(
                    self.mode,
                    self.line,
                    self.mode_clock,
                ) == p0 + cycles,
                entered && lcd_on(m0) && m0.writable(IF as int) ==> memory@.memory[IF as int] & 1 != 0,
            decreases self.mode_clock,
        {
            coded = false;
            let code: u8 = match self.mode {
                PpuMode::OAMScan => 0b10,
                PpuMode::PixelDrawing => 0b11,
                PpuMode::HBlank => 0b00,
                PpuMode::VBlank => 0b01,
            };
            let stat = memory.read_or_zero(STAT);
            let ghost ma = memory@;
            self.set_stat_mode(memory, stat, code);
            let ghost mb = memory@;
            proof {
                lemma_io_store_frame(m0, STAT as int, 0);
                lemma_store_stat(ma, (stat & 0xFC) | code);
                lemma_kept_trans(m0, ma, mb);
                assert(io_frame(ma, mb));
                lemma_render_view_frame(ma, mb);
                if entered && lcd_on(m0) && m0.writable(IF as int) {
                    lemma_kept_bits(ma, mb, 0x01);
                }
                if ma.memory[IF as int] & 0x02 != 0 {
                    lemma_kept_bits(ma, mb, 0x02);
                }
            }
            let ghost om = self.mode;
            let ghost ol = self.line;
            if !self.next_mode(memory) {
                coded = true;
                assert(memory@.mbc == m0.mbc);
                break;
            }
            proof {
                lemma_kept_trans(m0, mb, memory@);
                if entered && lcd_on(m0) && m0.writable(IF as int) {
                    lemma_kept_bits(mb, memory@, 0x01);
                }
                lemma_stat_sources(m0, mb);
                changed_mode = self.mode != om;
                lemma_io_read(m0, LCDC as int);
                lemma_io_read(mb, LCDC as int);
                if !crossed && (om == PpuMode::HBlank || om == PpuMode::VBlank) {
                    assert(cycles + (p0 - line0 * 456) >= 456);
                }
                lemma_lcd_on_frame(m0, mb);
                crossed = crossed || om == PpuMode::HBlank || om == PpuMode::VBlank;
                moved = true;
                rendered = om == PpuMode::PixelDrawing;
                entered = entered || (om == PpuMode::HBlank && ol == 143);
            }
        }
        proof {
            lemma_timing_round_trip(self.mode, self.line, self.mode_clock);
            vstd::arithmetic::div_mod::lemma_fundamental_div_mod_converse(
                p0 + cycles,
                FRAME_CYCLES as int,
                (p0 + cycles) / (FRAME_CYCLES as int),
                frame_pos(self.mode, self.line, self.mode_clock),
            );
            vstd::arithmetic::div_mod::lemma_fundamental_div_mod_converse(
                p0,
                456,
                line0 as int,
                p0 - line0 * 456,
            );
        }
    }

    /// The pipeline's timing invariant, with the scanline and window bookkeeping,
    /// while the sub-cycle count may still exceed the current mode's length.
    pub open spec fn pending_wf(&self) -> bool {
        &&& self.line <= 153
        &&& (self.line >= 144) == (self.mode == PpuMode::VBlank)
        &&& self.framebuffer@.len() == FRAMEBUFFER_LEN
        &&& self.prev_line <= 154
        &&& self.window_line_counter <= self.line + 1
        &&& (self.mode == PpuMode::OAMScan || self.mode == PpuMode::PixelDrawing)
            ==> self.window_line_counter <= self.line
        &&& self.mode == PpuMode::VBlank ==> self.window_line_counter == 0
    }

    /// Leaves the current mode if its cycles have run out, returning whether it did.
    #[verifier::rlimit(30)]
    fn next_mode(&mut self, memory: &mut Memory) -> (r: bool)
        requires
            old(self).pending_wf(),
            old(memory).wf(),
        ensures
            final(self).pending_wf(),
            final(memory).wf(),
            io_frame(old(memory)@, final(memory)@),
            lcd_requests(old(memory)@, final(memory)@),
            final(memory)@.memory[LCDC as int] == old(memory)@.memory[LCDC as int],
            r == (old(self).mode_clock >= mode_len(old(self).mode)),
            r ==> final(self).mode_clock == old(self).mode_clock - mode_len(old(self).mode),
            r ==> frame_pos(final(self).mode, final(self).line, final(self).mode_clock) == frame_pos(
                old(self).mode,
                old(self).line,
                old(self).mode_clock,
            ) || (old(self).mode == PpuMode::VBlank && old(self).line == 153 && frame_pos(
                final(self).mode,
                final(self).line,
                final(self).mode_clock,
            ) == frame_pos(old(self).mode, old(self).line, old(self).mode_clock) - FRAME_CYCLES),
            r && (old(self).mode == PpuMode::HBlank || old(self).mode == PpuMode::VBlank)
                ==> final(memory)@.memory[LY as int] == final(self).line,
            r && !(old(self).mode == PpuMode::HBlank || old(self).mode == PpuMode::VBlank) ==> final(self).line == old(self).line && final(memory)@.memory[LY as int] == old(memory)@.memory[LY as int],
            r && old(self).mode != PpuMode::VBlank && final(self).mode == PpuMode::VBlank ==> old(self).mode == PpuMode::HBlank && old(self).line == 143,
            r && old(self).mode == PpuMode::HBlank && old(self).line == 143 && lcd_on(old(memory)@)
                && old(memory)@.writable(IF as int) ==> final(memory)@.memory[IF as int] & 1 != 0,
            r && final(self).mode == PpuMode::HBlank ==> old(self).mode == PpuMode::PixelDrawing,
            r && old(self).mode == PpuMode::PixelDrawing && lcd_on(old(memory)@) ==> row_rendered(
                final(self).framebuffer@,
                render_view(final(memory)@),
                final(self).line,
                final(self).window_line_counter,
            ),
            r && old(self).mode == PpuMode::PixelDrawing && lcd_on(old(memory)@) ==> forall|x: int|
                0 <= x < 160 ==> #[trigger] gray_pixel(final(self).framebuffer@, final(self).line, x),
            final(memory)@.memory[STAT as int] & 0xF8 == old(memory)@.memory[STAT as int] & 0xF8,
            final(memory)@.memory[LYC as int] == old(memory)@.memory[LYC as int],
            r && lcd_on(old(memory)@) ==> ((final(memory)@.memory[STAT as int] & 0x04 != 0) == (final(
                self).line == old(memory)@.memory[LYC as int])),
            r && lcd_on(old(memory)@) && final(self).line == old(memory)@.memory[LYC as int]
                && old(memory)@.memory[STAT as int] & 0x40 != 0 ==> final(memory)@.memory[IF as int]
                & 0x02 != 0,
            r && lcd_on(old(memory)@) && final(self).mode != old(self).mode && mode_source(
                final(self).mode,
                old(memory)@.memory[STAT as int],
            ) ==> final(memory)@.memory[IF as int] & 0x02 != 0,
            !r ==> *final(self) == *old(self) && final(memory)@ == old(memory)@,
    {
        let ghost m0 = memory@;
        proof {
            lemma_io_store_frame(m0, STAT as int, 0);
            lemma_kept_same(m0, m0);
        }
        match self.mode {
            PpuMode::OAMScan => {
                if self.mode_clock < 80 {
                    return false;
                }
                self.mode_clock -= 80;
                self.prev_mode = self.mode;
                self.mode = PpuMode::PixelDrawing;
                self.update_stat(memory);
                proof {
                    lemma_lcd_on_frame(m0, m0);
                    lemma_stat_sources(m0, m0);
                }

            },
            PpuMode::PixelDrawing => {
                if self.mode_clock < 172 {
                    return false;
                }
                self.mode_clock -= 172;
                self.prev_mode = self.mode;
                self.mode = PpuMode::HBlank;
                self.update_stat(memory);
                proof {
                    lemma_lcd_on_frame(m0, memory@);
                    lemma_stat_sources(m0, m0);
                    lemma_render_view(memory@);
                }
                self.render_scanline(memory);
            },
            PpuMode::HBlank => {
                if self.mode_clock < 204 {
                    return false;
                }
                self.mode_clock -= 204;
                self.line = self.line + 1;
                self.set_ly(memory);
                let ghost ma = memory@;
                proof {
                    lemma_kept_same(m0, ma);
                }
                self.prev_mode = self.mode;
                if self.line >= 144 {
                    self.mode = PpuMode::VBlank;
                    self.update_stat(memory);
                    self.window_line_counter = 0;
                    let ghost mb = memory@;
                    proof {
                        lemma_lcd_on_frame(m0, ma);
                        lemma_stat_sources(m0, ma);
                        lemma_kept_trans(m0, ma, mb);
                        lemma_io_read(m0, LCDC as int);
                        lemma_io_read(mb, LCDC as int);
                    }
                    if memory.read_or_zero(LCDC) & 0x80 != 0 {
                        let flags = memory.read_or_zero(IF);
                        store_register(memory, IF, flags | 0x01);
                        proof {
                            lemma_io_store_frame(mb, IF as int, 0);
                            lemma_store_request(mb, 0x01);
                            lemma_kept_trans(m0, mb, memory@);
                            if mb.memory[IF as int] & 0x02 != 0 {
                                lemma_kept_bits(mb, memory@, 0x02);
                            }
                        }
                    }
                } else {
                    self.mode = PpuMode::OAMScan;
                    self.update_stat(memory);
                    proof {
                        lemma_kept_trans(m0, ma, memory@);
                        lemma_lcd_on_frame(m0, ma);
                        lemma_stat_sources(m0, ma);
                    }
                }
            },
            PpuMode::VBlank => {
                if self.mode_clock < 456 {
                    return false;
                }
                self.mode_clock -= 456;
                self.line = self.line + 1;
                self.set_ly(memory);
                let ghost ma = memory@;
                proof {
                    lemma_kept_same(m0, ma);
                }
                self.update_stat(memory);
                proof {
                    lemma_kept_trans(m0, ma, memory@);
                    lemma_lcd_on_frame(m0, ma);
                    lemma_stat_sources(m0, ma);
                }
                if self.line > 153 {
                    self.line = 0;
                    self.prev_mode = self.mode;
                    self.mode = PpuMode::OAMScan;
                    let ghost mb = memory@;
                    self.set_ly(memory);
                    let ghost mc = memory@;
                    proof {
                        lemma_kept_same(mb, mc);
                        lemma_kept_trans(m0, mb, mc);
                    }
                    self.update_stat(memory);
                    proof {
                        lemma_kept_trans(m0, mc, memory@);
                        lemma_lcd_on_frame(m0, mc);
                        lemma_stat_sources(m0, mc);
                    }
                }
            },
        }
        true
    }

    /// Writes the mode bits of STAT.
    fn set_stat_mode(&self, memory: &mut Memory, stat: u8, code: u8)
        requires
            old(memory).wf(),
            stat == old(memory)@.read_or_zero(STAT as int),
            code < 4,
        ensures
            final(memory).wf(),
            final(memory)@ == io_store(old(memory)@, STAT as int, (stat & 0xFC) | code),
            old(memory)@.writable(STAT as int) ==> final(memory)@.memory[STAT as int] & 0x03 == code,
            final(memory)@.memory[STAT as int] & 0xF8 == old(memory)@.memory[STAT as int] & 0xF8,
            final(memory)@.memory[STAT as int] & 0x04 == old(memory)@.memory[STAT as int] & 0x04,
    {
        store_register(memory, STAT, (stat & 0xFC) | code);
        proof {
            lemma_stat_write(stat, code);
            lemma_io_read(old(memory)@, STAT as int);
            lemma_high_bits(stat, (stat & 0xFC) | code);
        }
    }

    /// Writes the scanline into LY.
    fn set_ly(&self, memory: &mut Memory)
        requires
            old(memory).wf(),
        ensures
            final(memory).wf(),
            final(memory)@ == old(memory)@.with_memory(old(memory)@.memory.update(LY as int, self.line)),
    {
        memory.write_memory(LY, self.line);
        proof {
            lemma_write_plain(old(memory)@, LY as int, self.line);
        }
    }
}

} // verus!
