//! A CHIP-8 virtual machine: memory, registers, stack, timers, keypad and a
//! monochrome frame buffer, with each instruction specified over a
//! mathematical model of the machine.

pub mod cpu;
pub mod display;
mod draw;
pub mod instruction_laws;
pub mod keypad;
pub mod laws;
pub mod machine;
mod rng;
