use dmg_core::memory::{cartridge_supported, Mbc, Memory};
use dmg_core::serial::SerialOutput;

fn boot_jump() -> Vec<u8> {
    let mut boot = vec![0u8; 0x100];
    boot[0] = 0xC3;
    boot[1] = 0x00;
    boot[2] = 0x01;
    boot
}

fn banked_cartridge(kind: u8, rom_code: u8, ram_code: u8, banks: usize) -> Vec<u8> {
    let mut data = vec![0u8; banks * 0x4000];
    for bank in 0..banks {
        data[bank * 0x4000 + 0x200] = bank as u8;
        data[bank * 0x4000 + 0x201] = 0xB0 | (bank as u8 & 0x0F);
    }
    data[0x147] = kind;
    data[0x148] = rom_code;
    data[0x149] = ram_code;
    data
}

#[test]
fn echo_ram_mirrors_writes() {
    let mut memory = Memory::new();
    for a in [0xC000usize, 0xC123, 0xDDFF] {
        memory.write_memory(a, 0x5A);
        assert_eq!(memory.get(a), Some(0x5A));
        assert_eq!(memory.get(a + 0x2000), Some(0x5A));
    }
}

#[test]
fn unusable_region_drops_writes() {
    let mut memory = Memory::new();
    let before = memory.get(0xFEA5);
    memory.write_memory(0xFEA5, 0x12);
    assert_eq!(memory.get(0xFEA5), before);
}

#[test]
fn read_out_of_range_is_none() {
    let memory = Memory::new();
    assert_eq!(memory.get(0x10000), None);
    assert_eq!(memory.read_or_zero(0x10000), 0);
}

#[test]
fn divider_counts_every_256_cycles() {
    let mut memory = Memory::new();
    let div = memory.get(0xFF04).unwrap();
    memory.update_timer(256);
    assert_eq!(memory.get(0xFF04), Some(div.wrapping_add(1)));
    memory.write_memory(0xFF07, 0x05);
    memory.update_timer(255);
    assert_eq!(memory.get(0xFF04), Some(div.wrapping_add(1)));
    memory.update_timer(1);
    assert_eq!(memory.get(0xFF04), Some(div.wrapping_add(2)));
}

#[test]
fn divider_write_resets() {
    let mut memory = Memory::new();
    memory.update_timer(200);
    memory.write_memory(0xFF04, 0x77);
    assert_eq!(memory.get(0xFF04), Some(0));
    memory.update_timer(255);
    assert_eq!(memory.get(0xFF04), Some(0));
    memory.update_timer(1);
    assert_eq!(memory.get(0xFF04), Some(1));
}

#[test]
fn counter_overflow_reloads_and_requests() {
    let mut memory = Memory::new();
    memory.write_memory(0xFF0F, 0x00);
    memory.write_memory(0xFF06, 0xAB);
    memory.write_memory(0xFF05, 0xFE);
    memory.write_memory(0xFF07, 0x05);
    memory.update_timer(16);
    assert_eq!(memory.get(0xFF05), Some(0xFF));
    assert_eq!(memory.get(0xFF0F), Some(0x00));
    memory.update_timer(16);
    assert_eq!(memory.get(0xFF05), Some(0xAB));
    assert_eq!(memory.get(0xFF0F), Some(0x04));
}

#[test]
fn counter_stopped_when_disabled() {
    let mut memory = Memory::new();
    memory.write_memory(0xFF05, 0x10);
    memory.write_memory(0xFF07, 0x01);
    memory.update_timer(1024);
    assert_eq!(memory.get(0xFF05), Some(0x10));
}

#[test]
fn serial_transfer_emits_byte() {
    let mut memory = Memory::new();
    memory.write_memory(0xFF01, b'P');
    memory.write_memory(0xFF02, 0x81);
    assert_eq!(memory.get(0xFF02), Some(0x01));
    memory.write_memory(0xFF01, b'a');
    memory.write_memory(0xFF02, 0x01);
    assert_eq!(memory.get_serial_output().bytes(), &[b'P'][..]);
    assert_eq!(memory.get_serial_output().get_output(), "P");
}

#[test]
fn serial_text_is_decoded_lossily() {
    let mut out = SerialOutput::new();
    assert_eq!(out.get_output(), "");
    for b in [b'o', b'k', 0xFF] {
        out.write_byte(b);
    }
    assert_eq!(out.get_output(), "ok\u{FFFD}");
}

#[test]
fn dma_copies_object_memory() {
    let mut memory = Memory::new();
    for i in 0..0xA0usize {
        memory.write_memory(0xC000 + i, i as u8);
    }
    memory.write_memory(0xFF46, 0xC0);
    for i in 0..0xA0usize {
        assert_eq!(memory.get(0xFE00 + i), Some(i as u8));
    }
    assert_eq!(memory.get(0xFF46), Some(0xC0));
}

#[test]
fn joypad_selects_half() {
    let mut memory = Memory::new();
    memory.input_buffer = 0b1110_1110;
    memory.write_memory(0xFF00, 0x20);
    assert_eq!(memory.get(0xFF00), Some(0x2E));
    memory.write_memory(0xFF00, 0x10);
    assert_eq!(memory.get(0xFF00), Some(0x1E));
    memory.write_memory(0xFF00, 0x30);
    assert_eq!(memory.get(0xFF00), Some(0x3F));
}

#[test]
fn bank_select_takes_modulo() {
    let mut memory = Memory::new();
    let data = banked_cartridge(0x01, 0x01, 0x00, 4);
    memory.write_cartridge(&data, &boot_jump());
    assert_eq!(memory.mbc, Mbc::Mbc1);
    assert_eq!(memory.rombanks, 4);
    assert_eq!(memory.get(0x4200), Some(1));
    for v in 0u8..0x20 {
        memory.write_memory(0x2000, v);
        let expected = (if v == 0 { 1 } else { v as usize }) % 4;
        assert_eq!(memory.rombank, expected);
        assert_eq!(memory.get(0x4200), Some(expected as u8));
        assert_eq!(memory.get(0x4201), Some(0xB0 | expected as u8));
    }
}

#[test]
fn mbc5_bank_select() {
    let mut memory = Memory::new();
    let data = banked_cartridge(0x19, 0x02, 0x00, 8);
    memory.write_cartridge(&data, &boot_jump());
    assert_eq!(memory.mbc, Mbc::Mbc5);
    memory.write_memory(0x2000, 6);
    assert_eq!(memory.get(0x4200), Some(6));
    memory.write_memory(0x2000, 0);
    assert_eq!(memory.get(0x4200), Some(1));
    memory.write_memory(0x2000, 13);
    assert_eq!(memory.get(0x4200), Some(5));
}

#[test]
fn external_ram_needs_enable() {
    let mut memory = Memory::new();
    let data = banked_cartridge(0x03, 0x01, 0x03, 4);
    memory.write_cartridge(&data, &boot_jump());
    assert_eq!(memory.get(0xA000), Some(0xFF));
    memory.write_memory(0xA000, 0x12);
    memory.write_memory(0x0000, 0x0A);
    assert_eq!(memory.get(0xA000), Some(0x00));
    memory.write_memory(0xA000, 0x12);
    assert_eq!(memory.get(0xA000), Some(0x12));
    memory.write_memory(0x0000, 0x00);
    assert_eq!(memory.get(0xA000), Some(0xFF));
}

#[test]
fn boot_program_overlay_and_unmap() {
    let mut memory = Memory::new();
    let mut data = vec![0u8; 0x8000];
    data[0] = 0x99;
    data[0x100] = 0x42;
    memory.write_cartridge(&data, &boot_jump());
    assert_eq!(memory.get(0x0000), Some(0xC3));
    assert_eq!(memory.get(0x0100), Some(0x42));
    memory.disable_rom();
    assert_eq!(memory.get(0x0000), Some(0x99));
}

#[test]
fn cartridge_support_check() {
    assert!(!cartridge_supported(&[0u8; 0x100]));
    assert!(cartridge_supported(&vec![0u8; 0x8000]));
    let mut bad = vec![0u8; 0x8000];
    bad[0x147] = 0x01;
    bad[0x148] = 0x52;
    assert!(!cartridge_supported(&bad));
}

#[test]
fn other_controllers_map_directly() {
    let mut memory = Memory::new();
    let mut data = vec![0u8; 0x10000];
    data[0x147] = 0x13;
    data[0x100] = 0x42;
    data[0x8000] = 0x77;
    memory.write_cartridge(&data, &boot_jump());
    assert_eq!(memory.mbc, Mbc::Mbc3);
    assert_eq!(memory.get(0x0100), Some(0x42));
    assert_eq!(memory.get(0x8000), Some(0xFF));
    memory.write_memory(0xC010, 0x5A);
    assert_eq!(memory.get(0xE010), Some(0x5A));
    memory.write_memory(0xFF04, 0x12);
    assert_eq!(memory.get(0xFF04), Some(0));
}
