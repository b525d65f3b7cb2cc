//! The x86_64 system timer (the local APIC in TSC-deadline mode) and the
//! time stamp counter's frequency.
use vstd::prelude::*;
use crate::arch::SysTimerMode;

verus! {

/// The vector of the timer interrupt.
pub const TIMER_VECTOR: u8 = 33;

/// A CPU's system timer.
#[derive(Clone, Copy, Debug)]
pub struct SystemTimer {
    pub mode: SysTimerMode,
}

impl SystemTimer {
    pub fn new() -> (t: Self)
        ensures
            t.mode == SysTimerMode::Disabled,
    {
        SystemTimer { mode: SysTimerMode::Disabled }
    }

    /// Switches the timer to one-shot or off: the local APIC timer on vector
    /// 33, unmasked or masked. (There is no periodic mode.)
    pub fn set_mode(&mut self, mode: SysTimerMode) -> (masked: bool)
        requires
            mode != SysTimerMode::Periodic,
        ensures
            masked == (mode == SysTimerMode::Disabled),
            final(self).mode == mode,
    {
        self.mode = mode;
        match mode {
            SysTimerMode::OneShot => false,
            _ => true,
        }
    }

    /// Whether arming the timer sets a deadline (only in one-shot mode; a
    /// disabled timer ignores it).
    pub fn arm(&self) -> (sets: bool)
        requires
            self.mode != SysTimerMode::Periodic,
        ensures
            sets == (self.mode == SysTimerMode::OneShot),
    {
        match self.mode {
            SysTimerMode::OneShot => true,
            _ => false,
        }
    }
}

/// The time stamp counter: its frequency, once known and invariant.
#[derive(Clone, Copy, Debug)]
pub struct X86TimeStampCounter {
    pub freq_hz: u64,
    pub enabled: bool,
    pub tsc_deadline: bool,
}

/// Why the TSC cannot be used.
#[derive(Clone, Copy, Debug, PartialEq, Eq, Structural)]
pub enum TscError {
    NoTsc,
    NoTscDeadline,
    NoInvariantTsc,
    NoExtendedLeaf,
}

/// How the TSC frequency is found.
#[derive(Clone, Copy, Debug, PartialEq, Eq, Structural)]
pub enum TscSource {
    /// crystal * numerator / denominator (CPUID 15H)
    Crystal { crystal_hz: u32, numerator: u32, denominator: u32 },
    /// Measured against the HPET
    CalibrateHpet,
    /// Measured against the PIT
    CalibratePit,
}

/// The display model from CPUID 1 EAX: the model, with the extended model
/// prepended for families 6 and 15.
pub open spec fn spec_cpu_model(eax: u32) -> u8 {
    let model = ((eax & 0xF0) >> 4u32) as u8;
    let family = ((eax & 0xF00) >> 8u32) as u8;
    if family == 0x06 || family == 0x0F {
        (model | ((eax & 0xF0000) >> 12u32) as u8) as u8
    } else {
        model
    }
}

/// The nominal crystal of the family 6 models that do not report it.
pub open spec fn known_crystal_hz(model: u8) -> u32 {
    if model == 0x55 {
        25000000
    } else if model == 0x4E || model == 0x8E {
        24000000
    } else if model == 0x5C {
        19200000
    } else {
        0
    }
}

impl X86TimeStampCounter {
    pub fn new() -> (t: Self)
        ensures
            t.freq_hz == 0 && !t.enabled && !t.tsc_deadline,
    {
        X86TimeStampCounter { freq_hz: 0, enabled: false, tsc_deadline: false }
    }

    /// Decides how to learn the TSC frequency from CPUID: leaf 1 (`eax1`,
    /// `ecx1`, `edx1`), the highest extended leaf, leaf 80000007H EDX and
    /// leaf 15H, and whether the machine has a valid HPET. The TSC must
    /// exist, support deadlines and be invariant. Without an enumerated
    /// frequency it is measured against the HPET, or the PIT without one.
    pub fn init_source(eax1: u32, ecx1: u32, edx1: u32, max_ext_leaf: u32, edx_ext7: u32, eax15: u32, ebx15: u32, ecx15: u32, hpet_valid: bool) -> (r: Result<TscSource, TscError>)
        ensures
            r == if edx1 & 0x10 == 0 {
                Err::<TscSource, TscError>(TscError::NoTsc)
            } else if ecx1 & 0x1000000 == 0 {
                Err(TscError::NoTscDeadline)
            } else if max_ext_leaf < 0x80000007 {
                Err(TscError::NoExtendedLeaf)
            } else if edx_ext7 & 0x100 == 0 {
                Err(TscError::NoInvariantTsc)
            } else {
                let family = ((eax1 & 0xF00) >> 8u32) as u8;
                let crystal = if ecx15 == 0 && family == 0x6 {
                    known_crystal_hz(spec_cpu_model(eax1))
                } else {
                    ecx15
                };
                if eax15 > 0 && ebx15 > 0 && crystal > 0 {
                    Ok(TscSource::Crystal { crystal_hz: crystal, numerator: ebx15, denominator: eax15 })
                } else if hpet_valid {
                    Ok(TscSource::CalibrateHpet)
                } else {
                    Ok(TscSource::CalibratePit)
                }
            },
    {
        if edx1 & 0x10 == 0 {
            return Err(TscError::NoTsc);
        }
        if ecx1 & 0x1000000 == 0 {
            return Err(TscError::NoTscDeadline);
        }
        if max_ext_leaf < 0x80000007 {
            return Err(TscError::NoExtendedLeaf);
        }
        if edx_ext7 & 0x100 == 0 {
            return Err(TscError::NoInvariantTsc);
        }
        let mut model = ((eax1 & 0xF0) >> 4u32) as u8;
        let family = ((eax1 & 0xF00) >> 8u32) as u8;
        if family == 0x06 || family == 0x0F {
            model = model | ((eax1 & 0xF0000) >> 12u32) as u8;
        }
        let crystal: u32 = if ecx15 == 0 && family == 0x6 {
            if model == 0x55 {
                25000000
            } else if model == 0x4E || model == 0x8E {
                24000000
            } else if model == 0x5C {
                19200000
            } else {
                0
            }
        } else {
            ecx15
        };
        if eax15 > 0 && ebx15 > 0 && crystal > 0 {
            Ok(TscSource::Crystal { crystal_hz: crystal, numerator: ebx15, denominator: eax15 })
        } else if hpet_valid {
            Ok(TscSource::CalibrateHpet)
        } else {
            Ok(TscSource::CalibratePit)
        }
    }

    /// The frequency measured over the PIT's 100 ms: the TSC ticks between
    /// start and end, less twice the cost of reading the TSC, times ten.
    pub fn pit_frequency(start_tsc: u64, end_tsc: u64, overhead_tsc: u64) -> (f: u64)
        requires
            start_tsc <= end_tsc <= overhead_tsc,
            end_tsc - start_tsc >= 2 * (overhead_tsc - end_tsc),
            (end_tsc - start_tsc - 2 * (overhead_tsc - end_tsc)) * 10 <= u64::MAX,
        ensures
            f == (end_tsc - start_tsc - 2 * (overhead_tsc - end_tsc)) * 10,
    {
        (end_tsc - start_tsc - (overhead_tsc - end_tsc) * 2) * 10
    }

    /// Records the frequency found from `source`. Only a frequency that
    /// CPUID enumerates (the crystal and its ratio) marks the counter
    /// enabled; with a calibrated one it stays disabled.
    pub fn set_frequency(&mut self, freq_hz: u64, source: TscSource)
        ensures
            final(self).freq_hz == freq_hz,
            final(self).enabled == source is Crystal,
            final(self).tsc_deadline == old(self).tsc_deadline,
    {
        self.freq_hz = freq_hz;
        self.enabled = match source {
            TscSource::Crystal { .. } => true,
            _ => false,
        };
    }

    pub fn freq_hz(&self) -> (f: u64)
        ensures
            f == self.freq_hz,
    {
        self.freq_hz
    }

    pub fn enabled(&self) -> (b: bool)
        ensures
            b == self.enabled,
    {
        self.enabled
    }
}

} // verus!
