//! A Game Boy (DMG) emulation core: register file, banked memory with its
//! I/O side effects and timers, the instruction engine with its interrupt
//! controller, and the pixel pipeline's timing state machine.

pub mod registers;
pub mod serial;
pub mod memory;
pub mod cpu;
pub mod ppu;
pub mod header;
pub mod gameboy;
