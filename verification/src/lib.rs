//! A CHIP-8 virtual machine: memory, registers, the instruction decoder and
//! executor, sprite drawing and the hexadecimal keypad mapping.
pub mod behaviour;
pub mod cpu;
pub mod draw;
pub mod keys;
pub mod laws;
pub mod machine;
pub mod ops;
mod random;
pub mod timer;
