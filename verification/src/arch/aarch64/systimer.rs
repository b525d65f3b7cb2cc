//! The AArch64 system timer: the EL1 physical timer.
use vstd::prelude::*;
use crate::arch::SysTimerMode;

verus! {

/// A CPU's system timer.
#[derive(Clone, Copy, Debug)]
pub struct SystemTimer {
    pub mode: SysTimerMode,
}

/// CNTP_CTL_EL0: timer enabled, interrupt unmasked.
pub const CNTP_CTL_ENABLED: u64 = 1;
/// CNTP_CTL_EL0: timer disabled, interrupt masked.
pub const CNTP_CTL_DISABLED: u64 = 2;

impl SystemTimer {
    pub fn new() -> (t: Self)
        ensures
            t.mode == SysTimerMode::Disabled,
    {
        SystemTimer { mode: SysTimerMode::Disabled }
    }

    /// Switches to one-shot or off: the control register value and whether
    /// the core's timer interrupt is masked. (There is no periodic mode.)
    pub fn set_mode(&mut self, mode: SysTimerMode) -> (r: (u64, bool))
        requires
            mode != SysTimerMode::Periodic,
        ensures
            r == if mode == SysTimerMode::OneShot { (CNTP_CTL_ENABLED, false) } else { (CNTP_CTL_DISABLED, true) },
            final(self).mode == mode,
    {
        self.mode = mode;
        match mode {
            SysTimerMode::OneShot => (CNTP_CTL_ENABLED, false),
            _ => (CNTP_CTL_DISABLED, true),
        }
    }

    /// Whether the timer interrupt is pending, from CNTP_CTL_EL0.
    pub fn irq_pending(ctl: u64) -> (b: bool)
        ensures
            b == (ctl & 0x4 > 0),
    {
        ctl & 0x4 > 0
    }

    /// CNTKCTL_EL1 with EL0 access to both counters allowed.
    pub fn per_cpu_cntkctl(cntkctl: u64) -> (v: u64)
        ensures
            v == cntkctl | 0x3,
    {
        cntkctl | 0x3
    }
}

} // verus!
