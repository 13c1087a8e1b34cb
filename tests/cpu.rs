use dmg_core::cpu::Cpu;
use dmg_core::memory::Memory;

fn machine_at(pc: u16, program: &[u8]) -> (Cpu, Memory) {
    let mut cpu = Cpu::new();
    let mut memory = Memory::new();
    for (i, b) in program.iter().enumerate() {
        memory.memory[pc as usize + i] = *b;
    }
    cpu.registers.pc = pc;
    (cpu, memory)
}

#[test]
fn add_immediate_sets_half_carry() {
    let (mut cpu, mut memory) = machine_at(0xC000, &[0xC6, 0x0F]);
    cpu.registers.a = 0x01;
    let (jumped, cycles) = cpu.process_opcode(0xC6, &mut memory);
    assert!(!jumped);
    assert_eq!(cycles, 8);
    assert_eq!(cpu.registers.a, 0x10);
    assert!(!cpu.registers.get_z());
    assert!(!cpu.registers.get_n());
    assert!(cpu.registers.get_h());
    assert!(!cpu.registers.get_c());
    assert_eq!(cpu.registers.pc, 0xC001);
}

#[test]
fn add_register_carry_and_zero() {
    let (mut cpu, mut memory) = machine_at(0xC000, &[0x80]);
    cpu.registers.a = 0xF0;
    cpu.registers.b = 0x10;
    assert_eq!(cpu.process_opcode(0x80, &mut memory), (false, 4));
    assert_eq!(cpu.registers.a, 0x00);
    assert!(cpu.registers.get_z());
    assert!(!cpu.registers.get_h());
    assert!(cpu.registers.get_c());
}

#[test]
fn adc_sub_sbc_cp_flags() {
    let (mut cpu, mut memory) = machine_at(0xC000, &[0x88]);
    cpu.registers.a = 0x0E;
    cpu.registers.b = 0x01;
    cpu.registers.set_c(true);
    cpu.process_opcode(0x88, &mut memory);
    assert_eq!(cpu.registers.a, 0x10);
    assert!(cpu.registers.get_h());
    assert!(!cpu.registers.get_c());

    cpu.registers.a = 0x10;
    cpu.registers.c = 0x01;
    cpu.process_opcode(0x91, &mut memory);
    assert_eq!(cpu.registers.a, 0x0F);
    assert!(cpu.registers.get_n());
    assert!(cpu.registers.get_h());
    assert!(!cpu.registers.get_c());

    cpu.registers.a = 0x00;
    cpu.registers.d = 0x00;
    cpu.registers.set_c(true);
    cpu.process_opcode(0x9A, &mut memory);
    assert_eq!(cpu.registers.a, 0xFF);
    assert!(cpu.registers.get_h());
    assert!(cpu.registers.get_c());

    cpu.registers.a = 0x42;
    cpu.registers.e = 0x42;
    cpu.process_opcode(0xBB, &mut memory);
    assert_eq!(cpu.registers.a, 0x42);
    assert!(cpu.registers.get_z());
    assert!(cpu.registers.get_n());
}

#[test]
fn logic_operations_flags() {
    let (mut cpu, mut memory) = machine_at(0xC000, &[]);
    cpu.registers.a = 0xF0;
    cpu.registers.b = 0x0F;
    cpu.registers.set_c(true);
    cpu.process_opcode(0xA0, &mut memory);
    assert_eq!(cpu.registers.a, 0x00);
    assert!(cpu.registers.get_z() && cpu.registers.get_h() && !cpu.registers.get_c());

    cpu.registers.a = 0xF0;
    cpu.registers.set_c(true);
    cpu.process_opcode(0xA8, &mut memory);
    assert_eq!(cpu.registers.a, 0xFF);
    assert!(!cpu.registers.get_z() && !cpu.registers.get_h() && !cpu.registers.get_c());

    cpu.registers.a = 0x00;
    cpu.registers.c = 0x00;
    cpu.process_opcode(0xB1, &mut memory);
    assert!(cpu.registers.get_z());
}

#[test]
fn inc_dec_keep_carry() {
    let (mut cpu, mut memory) = machine_at(0xC000, &[]);
    cpu.registers.b = 0x0F;
    cpu.registers.set_c(true);
    assert_eq!(cpu.process_opcode(0x04, &mut memory), (false, 4));
    assert_eq!(cpu.registers.b, 0x10);
    assert!(cpu.registers.get_h() && cpu.registers.get_c() && !cpu.registers.get_n());
    cpu.registers.c = 0x01;
    cpu.process_opcode(0x0D, &mut memory);
    assert_eq!(cpu.registers.c, 0x00);
    assert!(cpu.registers.get_z() && cpu.registers.get_n() && cpu.registers.get_c());
}

#[test]
fn decimal_adjust_after_add() {
    let (mut cpu, mut memory) = machine_at(0xC000, &[]);
    cpu.registers.a = 0x15;
    cpu.registers.b = 0x27;
    cpu.process_opcode(0x80, &mut memory);
    assert_eq!(cpu.registers.a, 0x3C);
    cpu.process_opcode(0x27, &mut memory);
    assert_eq!(cpu.registers.a, 0x42);
    assert!(!cpu.registers.get_c());
}

#[test]
fn sp_offset_flags_from_low_byte() {
    let (mut cpu, mut memory) = machine_at(0xC000, &[0xE8, 0x01]);
    cpu.registers.sp = 0x00FF;
    assert_eq!(cpu.process_opcode(0xE8, &mut memory), (false, 16));
    assert_eq!(cpu.registers.sp, 0x0100);
    assert!(cpu.registers.get_h() && cpu.registers.get_c());
    assert!(!cpu.registers.get_z() && !cpu.registers.get_n());

    let (mut cpu, mut memory) = machine_at(0xC000, &[0xF8, 0xFF]);
    cpu.registers.sp = 0x1000;
    assert_eq!(cpu.process_opcode(0xF8, &mut memory), (false, 12));
    assert_eq!(cpu.registers.get_hl(), 0x0FFF);
    assert!(!cpu.registers.get_h() && !cpu.registers.get_c());
}

#[test]
fn relative_jump_is_signed() {
    let (mut cpu, mut memory) = machine_at(0xC010, &[0x18, 0xFC]);
    assert_eq!(cpu.process_opcode(0x18, &mut memory), (false, 12));
    // The driver adds one more for the opcode itself.
    assert_eq!(cpu.registers.pc, 0xC00D);
}

#[test]
fn call_and_return() {
    let (mut cpu, mut memory) = machine_at(0xC000, &[0xCD, 0x34, 0x12]);
    cpu.registers.sp = 0xDFF0;
    assert_eq!(cpu.process_opcode(0xCD, &mut memory), (true, 24));
    assert_eq!(cpu.registers.pc, 0x1234);
    assert_eq!(cpu.registers.sp, 0xDFEE);
    assert_eq!(memory.get(0xDFEF), Some(0xC0));
    assert_eq!(memory.get(0xDFEE), Some(0x03));
    assert_eq!(cpu.process_opcode(0xC9, &mut memory), (true, 16));
    assert_eq!(cpu.registers.pc, 0xC003);
    assert_eq!(cpu.registers.sp, 0xDFF0);
}

#[test]
fn conditional_jump_not_taken() {
    let (mut cpu, mut memory) = machine_at(0xC000, &[0xC2, 0x00, 0x20]);
    cpu.registers.set_z(true);
    assert_eq!(cpu.process_opcode(0xC2, &mut memory), (false, 12));
    assert_eq!(cpu.registers.pc, 0xC002);
}

#[test]
fn pop_af_masks_low_nibble() {
    let (mut cpu, mut memory) = machine_at(0xC000, &[]);
    cpu.registers.sp = 0xD000;
    memory.write_memory(0xD000, 0xFF);
    memory.write_memory(0xD001, 0x12);
    cpu.process_opcode(0xF1, &mut memory);
    assert_eq!(cpu.registers.get_af(), 0x12F0);
}

#[test]
fn cb_prefix_cycles_and_results() {
    let (mut cpu, mut memory) = machine_at(0xC000, &[0xCB, 0x7C]);
    cpu.registers.h = 0x80;
    assert_eq!(cpu.process_opcode(0xCB, &mut memory), (false, 8));
    assert!(!cpu.registers.get_z() && cpu.registers.get_h());

    let (mut cpu, mut memory) = machine_at(0xC000, &[0xCB, 0x86]);
    cpu.registers.set_hl(0xD000);
    memory.write_memory(0xD000, 0xFF);
    assert_eq!(cpu.process_opcode(0xCB, &mut memory), (false, 16));
    assert_eq!(memory.get(0xD000), Some(0xFE));

    let (mut cpu, mut memory) = machine_at(0xC000, &[0xCB, 0x37]);
    cpu.registers.a = 0xA5;
    assert_eq!(cpu.process_opcode(0xCB, &mut memory), (false, 8));
    assert_eq!(cpu.registers.a, 0x5A);
}

#[test]
fn vblank_serviced_before_timer() {
    let (mut cpu, mut memory) = machine_at(0xC000, &[]);
    cpu.ime = true;
    cpu.registers.pc = 0x1234;
    cpu.registers.sp = 0xDFF0;
    memory.write_memory(0xFFFF, 0xFF);
    memory.write_memory(0xFF0F, 0x05);
    assert_eq!(cpu.check_interrupts(&mut memory), 20);
    assert_eq!(cpu.registers.pc, 0x0040);
    assert_eq!(memory.get(0xFF0F), Some(0x04));
    assert!(!cpu.ime);
    assert_eq!(memory.get(0xDFEF), Some(0x12));
    assert_eq!(memory.get(0xDFEE), Some(0x34));
    cpu.ime = true;
    assert_eq!(cpu.check_interrupts(&mut memory), 20);
    assert_eq!(cpu.registers.pc, 0x0050);
    assert_eq!(memory.get(0xFF0F), Some(0x00));
}

#[test]
fn halt_wakes_without_dispatch() {
    let (mut cpu, mut memory) = machine_at(0xC000, &[]);
    cpu.ime = false;
    cpu.halted = true;
    memory.write_memory(0xFFFF, 0x04);
    memory.write_memory(0xFF0F, 0x04);
    assert_eq!(cpu.check_interrupts(&mut memory), 0);
    assert!(!cpu.halted);
    assert_eq!(cpu.registers.pc, 0xC000);
    assert_eq!(memory.get(0xFF0F), Some(0x04));
}

#[test]
fn enable_interrupts_is_delayed() {
    let (mut cpu, mut memory) = machine_at(0xC000, &[]);
    cpu.process_opcode(0xFB, &mut memory);
    cpu.update_ime();
    assert!(!cpu.ime);
    cpu.update_ime();
    assert!(cpu.ime);
    cpu.process_opcode(0xF3, &mut memory);
    assert!(!cpu.ime);
}

#[test]
fn halt_sets_halted() {
    let (mut cpu, mut memory) = machine_at(0xC000, &[]);
    assert_eq!(cpu.process_opcode(0x76, &mut memory), (false, 4));
    assert!(cpu.halted);
}

#[test]
fn add_hl_carries_from_bits_11_and_15() {
    let (mut cpu, _) = machine_at(0xC000, &[]);
    cpu.registers.set_hl(0x8FFF);
    cpu.registers.set_bc(0x8001);
    cpu.registers.set_z(true);
    cpu.add_hl_r16(0x09);
    assert_eq!(cpu.registers.get_hl(), 0x1000);
    assert!(cpu.registers.get_z() && !cpu.registers.get_n());
    assert!(cpu.registers.get_h() && cpu.registers.get_c());
}

#[test]
fn dec_keeps_carry_and_borrows_nibble() {
    let (mut cpu, _) = machine_at(0xC000, &[]);
    cpu.registers.set_c(false);
    assert_eq!(cpu.dec_r8(0x00), 0xFF);
    assert!(!cpu.registers.get_z() && cpu.registers.get_n() && cpu.registers.get_h());
    assert!(!cpu.registers.get_c());
    cpu.add_a_r8(0, 0x0F);
    assert_eq!(cpu.registers.a, 0x10);
}
