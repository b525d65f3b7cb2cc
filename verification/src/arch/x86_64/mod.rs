//! x86_64 PCs.
pub mod stub;
pub mod x86_pic;
pub mod kearly_console;
pub mod kdebug_console;
pub mod systimer;
pub mod x86_pit;
pub mod mmu;
