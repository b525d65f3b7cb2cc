//! AArch64 (Raspberry Pi class) machines.
pub mod fdt;
pub mod stub;
pub mod bcm_peripherals;
pub mod kearly_console;
pub mod kdebug_console;
pub mod systimer;
pub mod mmu;
