use dmg_core::gameboy::{is_undefined_opcode, Fault, Gameboy};
use dmg_core::header::{cartridge_type_decoder, destination_decoder, ram_size_decoder, rom_size_decoder};
use dmg_core::memory::Memory;
use dmg_core::ppu::{PpuMode, FRAMEBUFFER_LEN, FRAME_CYCLES, PPU};

fn boot_jump() -> Vec<u8> {
    let mut boot = vec![0u8; 0x100];
    boot[0] = 0xC3;
    boot[1] = 0x00;
    boot[2] = 0x01;
    boot
}

/// A cartridge whose program sends `text` through the serial port, then loops.
fn serial_program(text: &str) -> Vec<u8> {
    let mut data = vec![0u8; 0x8000];
    let mut at = 0x100;
    for b in text.bytes() {
        for byte in [0x3E, b, 0xE0, 0x01, 0x3E, 0x81, 0xE0, 0x02] {
            data[at] = byte;
            at += 1;
        }
    }
    data[at] = 0x18;
    data[at + 1] = 0xFE;
    data
}

fn timing(ppu: &PPU) -> (PpuMode, u8, u64) {
    (ppu.mode, ppu.line, ppu.mode_clock)
}

#[test]
fn frame_returns_to_same_state() {
    let mut ppu = PPU::new();
    let mut memory = Memory::new();
    let start = timing(&ppu);
    ppu.step(FRAME_CYCLES, &mut memory);
    assert_eq!(timing(&ppu), start);
    ppu.step(1000, &mut memory);
    let mid = timing(&ppu);
    for _ in 0..70 {
        ppu.step(1003, &mut memory);
    }
    ppu.step(FRAME_CYCLES - 70 * 1003 % FRAME_CYCLES, &mut memory);
    assert_eq!(timing(&ppu), mid);
}

#[test]
fn mode_sequence_within_a_line() {
    let mut ppu = PPU::new();
    let mut memory = Memory::new();
    ppu.step(80, &mut memory);
    assert_eq!(timing(&ppu), (PpuMode::PixelDrawing, 0, 0));
    ppu.step(172, &mut memory);
    assert_eq!(timing(&ppu), (PpuMode::HBlank, 0, 0));
    ppu.step(210, &mut memory);
    assert_eq!(timing(&ppu), (PpuMode::OAMScan, 1, 6));
    assert_eq!(memory.get(0xFF44), Some(1));
    assert_eq!(memory.get(0xFF41).unwrap() & 0x03, 2);
}

#[test]
fn vblank_requests_interrupt() {
    let mut ppu = PPU::new();
    let mut memory = Memory::new();
    memory.write_memory(0xFF0F, 0x00);
    ppu.step(144 * 456 - 1, &mut memory);
    assert_eq!(ppu.mode, PpuMode::HBlank);
    assert_eq!(memory.get(0xFF0F).unwrap() & 0x01, 0);
    ppu.step(1, &mut memory);
    assert_eq!((ppu.mode, ppu.line), (PpuMode::VBlank, 144));
    assert_eq!(memory.get(0xFF0F).unwrap() & 0x01, 0x01);
    ppu.step(10 * 456, &mut memory);
    assert_eq!(timing(&ppu), (PpuMode::OAMScan, 0, 0));
}

#[test]
fn coincidence_raises_stat_interrupt() {
    let mut ppu = PPU::new();
    let mut memory = Memory::new();
    memory.write_memory(0xFF0F, 0x00);
    memory.write_memory(0xFF45, 3);
    memory.write_memory(0xFF41, 0x40);
    ppu.step(3 * 456, &mut memory);
    assert_eq!(ppu.line, 3);
    assert_eq!(memory.get(0xFF0F).unwrap() & 0x02, 0x02);
    assert_eq!(memory.get(0xFF41).unwrap() & 0x04, 0x04);
}

#[test]
fn coincidence_bit_follows_line() {
    let mut ppu = PPU::new();
    let mut memory = Memory::new();
    memory.write_memory(0xFF45, 2);
    memory.write_memory(0xFF41, 0x04);
    ppu.step(80, &mut memory);
    assert_eq!(memory.get(0xFF41).unwrap() & 0x04, 0);
    ppu.step(2 * 456 - 80, &mut memory);
    assert_eq!(ppu.line, 2);
    assert_eq!(memory.get(0xFF41).unwrap() & 0x04, 0x04);
    ppu.step(456, &mut memory);
    assert_eq!(memory.get(0xFF41).unwrap() & 0x04, 0);
}

#[test]
fn lcd_off_blanks_screen() {
    let mut ppu = PPU::new();
    let mut memory = Memory::new();
    memory.write_memory(0xFF40, 0x00);
    ppu.step(80, &mut memory);
    let mut out = vec![0u8; FRAMEBUFFER_LEN];
    ppu.copy_to_framebuffer(&mut out);
    assert!(out.iter().all(|b| *b == 0xFF));
}

#[test]
fn scanline_renders_background_tile() {
    let mut ppu = PPU::new();
    let mut memory = Memory::new();
    memory.write_memory(0xFF40, 0x91);
    memory.write_memory(0xFF47, 0xE4);
    for i in 0..0x400usize {
        memory.write_memory(0x9800 + i, 0x00);
    }
    memory.write_memory(0x8000, 0xFF);
    memory.write_memory(0x8001, 0xFF);
    ppu.step(80 + 172, &mut memory);
    let mut out = vec![0u8; FRAMEBUFFER_LEN];
    ppu.copy_to_framebuffer(&mut out);
    assert_eq!(&out[0..4], &[0x00, 0x00, 0x00, 0xFF]);
    assert_eq!(&out[4 * 159..4 * 160], &[0x00, 0x00, 0x00, 0xFF]);
}

#[test]
fn scanline_renders_sprite_over_background() {
    let mut ppu = PPU::new();
    let mut memory = Memory::new();
    memory.write_memory(0xFF40, 0x93);
    memory.write_memory(0xFF47, 0xE4);
    memory.write_memory(0xFF48, 0xE4);
    for i in 0..0x400usize {
        memory.write_memory(0x9800 + i, 0x00);
    }
    for i in 0..16usize {
        memory.write_memory(0x8000 + i, 0x00);
    }
    memory.write_memory(0x8010, 0xFF);
    memory.write_memory(0x8011, 0x00);
    for i in 0..0xA0usize {
        memory.write_memory(0xFE00 + i, 0x00);
    }
    memory.write_memory(0xFE00, 16);
    memory.write_memory(0xFE01, 8);
    memory.write_memory(0xFE02, 1);
    memory.write_memory(0xFE03, 0x00);
    ppu.step(80 + 172, &mut memory);
    let mut out = vec![0u8; FRAMEBUFFER_LEN];
    ppu.copy_to_framebuffer(&mut out);
    for x in 0..8 {
        assert_eq!(&out[4 * x..4 * x + 4], &[0xAA, 0xAA, 0xAA, 0xFF]);
    }
    assert_eq!(&out[32..36], &[0xFF, 0xFF, 0xFF, 0xFF]);
}

#[test]
fn serial_program_passes() {
    let mut gameboy = Gameboy::new();
    gameboy.load_cartridge(&serial_program("Passed"), &boot_jump());
    assert_eq!(gameboy.start(200), Ok(()));
    let output = gameboy.memory.get_serial_output().get_output();
    assert!(output.contains("Passed"), "Test failed. Output: {}", output);
    assert_eq!(gameboy.memory.get(0x0000), Some(0x00));
}

#[test]
fn header_checksum_sets_flags() {
    let mut gameboy = Gameboy::new();
    let mut data = serial_program("");
    data[0x14D] = 0x3C;
    gameboy.cpu.registers.set_h(false);
    gameboy.cpu.registers.set_c(false);
    gameboy.load_cartridge(&data, &boot_jump());
    assert!(gameboy.cpu.registers.get_h() && gameboy.cpu.registers.get_c());
}

#[test]
fn undefined_opcode_faults() {
    let mut gameboy = Gameboy::new();
    gameboy.memory.write_memory(0xC000, 0xD3);
    gameboy.cpu.registers.pc = 0xC000;
    assert_eq!(gameboy.execute_cycle(), Err(Fault::UndefinedOpcode { opcode: 0xD3, pc: 0xC000 }));
    assert_eq!(gameboy.cpu.registers.pc, 0xC000);
    assert!(is_undefined_opcode(0x10));
    assert!(!is_undefined_opcode(0x00));
}

#[test]
fn unmapped_pc_faults() {
    let mut gameboy = Gameboy::new();
    let mut data = vec![0u8; 0x8000];
    data[0x147] = 0x01;
    data[0x148] = 0x02;
    gameboy.load_cartridge(&data, &boot_jump());
    gameboy.memory.write_memory(0x2000, 5);
    gameboy.cpu.registers.pc = 0x4000;
    assert_eq!(gameboy.execute_cycle(), Err(Fault::UnmappedAddress { pc: 0x4000 }));
}

#[test]
fn halted_machine_idles_then_wakes() {
    let mut gameboy = Gameboy::new();
    gameboy.cpu.halted = true;
    gameboy.memory.write_memory(0xFFFF, 0x04);
    gameboy.memory.write_memory(0xFF0F, 0x00);
    assert_eq!(gameboy.execute_cycle(), Ok(()));
    assert_eq!(gameboy.cycles, 4);
    assert!(gameboy.cpu.halted);
    gameboy.memory.write_memory(0xFF0F, 0x04);
    let pc = gameboy.cpu.registers.pc;
    assert_eq!(gameboy.execute_cycle(), Ok(()));
    assert!(!gameboy.cpu.halted);
    assert_eq!(gameboy.cpu.registers.pc, pc);
    assert_eq!(gameboy.memory.get(0xFF0F).unwrap() & 0x04, 0x04);
}

#[test]
fn header_decoders() {
    assert_eq!(cartridge_type_decoder(0x01), "MBC1");
    assert_eq!(cartridge_type_decoder(0x04), "Do not correspond to any hardware type");
    assert_eq!(rom_size_decoder(0x05), "1 MiB");
    assert_eq!(ram_size_decoder(0x03), "32 KiB");
    assert_eq!(destination_decoder(0x01), "Overseas only");
    assert_eq!(destination_decoder(0x02), "Do not correspond to any destination");
}
