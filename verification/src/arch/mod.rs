//! Machine-specific logic of the two supported architectures.
use vstd::prelude::*;

pub mod console;
pub mod paging;
pub mod aarch64;
pub mod x86_64;

verus! {

/// What a CPU's system timer does.
#[derive(Clone, Copy, Debug, PartialEq, Eq, Structural)]
pub enum SysTimerMode {
    OneShot,
    Periodic,
    Disabled,
}

} // verus!
