//! The 8254 programmable interval timer: the port writes that program it.
use vstd::prelude::*;

verus! {

pub const PIT_PORT_CH0: u16 = 0x40;
/// Data port of channel 2
pub const PIT_PORT_CH2: u16 = 0x42;
pub const PIT_PORT_CMD: u16 = 0x43;
pub const PIT_ACCESS_LOW_HI: u8 = 0x3;
pub const PIT_OPMODE_ONESHOT: u8 = 0x1;
pub const PIT_OPMODE_RATEGEN: u8 = 0x2;
pub const PIT_FREQ_HZ: u32 = 1193182;
/// System control port B (speaker gate and channel 2 output)
pub const SYS_CTL_PORT_B: u16 = 0x61;

/// A command byte: channel, access mode and operating mode.
pub open spec fn spec_make_cmd(channel: u8, access: u8, opmode: u8) -> u8 {
    (((channel & 0x3) << 6u8) | ((access & 0x3) << 4u8) | ((opmode & 0x7) << 1u8)) as u8
}

pub fn make_cmd(channel: u8, access: u8, opmode: u8) -> (c: u8)
    ensures
        c == spec_make_cmd(channel, access, opmode),
{
    ((channel & 0x3) << 6u8) | ((access & 0x3) << 4u8) | ((opmode & 0x7) << 1u8)
}

/// Channel 0 as a rate generator at `hz`: the command, then the low and
/// high byte of the reload value.
pub fn config_periodic_irq(hz: u16) -> (w: Vec<(u16, u8)>)
    requires
        hz > 0,
    ensures
        ({
            let reload = (PIT_FREQ_HZ / hz as u32) as u16;
            w@ == seq![
                (PIT_PORT_CMD, spec_make_cmd(0, PIT_ACCESS_LOW_HI, PIT_OPMODE_RATEGEN)),
                (PIT_PORT_CH0, (reload & 0xFF) as u8),
                (PIT_PORT_CH0, (reload >> 8u16) as u8),
            ]
        }),
{
    let reload: u16 = (PIT_FREQ_HZ / hz as u32) as u16;
    let cmd = make_cmd(0, PIT_ACCESS_LOW_HI, PIT_OPMODE_RATEGEN);
    let mut w: Vec<(u16, u8)> = Vec::new();
    w.push((PIT_PORT_CMD, cmd));
    w.push((PIT_PORT_CH0, (reload & 0xFF) as u8));
    w.push((PIT_PORT_CH0, (reload >> 8u16) as u8));
    assert(w@ =~= seq![
        (PIT_PORT_CMD, spec_make_cmd(0, PIT_ACCESS_LOW_HI, PIT_OPMODE_RATEGEN)),
        (PIT_PORT_CH0, (reload & 0xFF) as u8),
        (PIT_PORT_CH0, (reload >> 8u16) as u8),
    ]);
    w
}

/// The count of a `ms`-millisecond one-shot: 1193.182 ticks per
/// millisecond, saturating at the 16-bit maximum.
pub open spec fn oneshot_reload(ms: u32) -> u16 {
    let t = PIT_FREQ_HZ as int * ms / 1000;
    if t > 0xFFFF {
        0xFFFFu16
    } else {
        t as u16
    }
}

/// Channel 2 counting down `ms` milliseconds once, with the speaker gated
/// off (`sys_ctl_b` is port B as read): port B, the command, and the low
/// and high byte of the count.
pub fn config_oneshot_count(ms: u32, sys_ctl_b: u8) -> (w: Vec<(u16, u8)>)
    ensures
        ({
            let reload = oneshot_reload(ms);
            w@ == seq![
                (SYS_CTL_PORT_B, sys_ctl_b & 0xFC),
                (PIT_PORT_CMD, spec_make_cmd(2, PIT_ACCESS_LOW_HI, PIT_OPMODE_ONESHOT)),
                (PIT_PORT_CH2, (reload & 0xFF) as u8),
                (PIT_PORT_CH2, (reload >> 8u16) as u8),
            ]
        }),
{
    let t: u64 = PIT_FREQ_HZ as u64 * ms as u64 / 1000;
    let reload: u16 = if t > 0xFFFF { 0xFFFF } else { t as u16 };
    let cmd = make_cmd(2, PIT_ACCESS_LOW_HI, PIT_OPMODE_ONESHOT);
    let mut w: Vec<(u16, u8)> = Vec::new();
    w.push((SYS_CTL_PORT_B, sys_ctl_b & 0xFC));
    w.push((PIT_PORT_CMD, cmd));
    w.push((PIT_PORT_CH2, (reload & 0xFF) as u8));
    w.push((PIT_PORT_CH2, (reload >> 8u16) as u8));
    assert(w@ =~= seq![
        (SYS_CTL_PORT_B, sys_ctl_b & 0xFC),
        (PIT_PORT_CMD, spec_make_cmd(2, PIT_ACCESS_LOW_HI, PIT_OPMODE_ONESHOT)),
        (PIT_PORT_CH2, (reload & 0xFF) as u8),
        (PIT_PORT_CH2, (reload >> 8u16) as u8),
    ]);
    w
}

/// Starts the count: gate bit cleared, then set (from port B as read).
pub fn start_oneshot_count(sys_ctl_b: u8) -> (w: [(u16, u8); 2])
    ensures
        w@ == seq![(SYS_CTL_PORT_B, sys_ctl_b & 0xFE), (SYS_CTL_PORT_B, sys_ctl_b | 0x01)],
{
    let w = [(SYS_CTL_PORT_B, sys_ctl_b & 0xFE), (SYS_CTL_PORT_B, sys_ctl_b | 0x01)];
    assert(w@ =~= seq![(SYS_CTL_PORT_B, sys_ctl_b & 0xFE), (SYS_CTL_PORT_B, sys_ctl_b | 0x01)]);
    w
}

/// Whether the count reached zero: bit 5 of port B.
pub fn wait_for_oneshot_count(sys_ctl_b: u8) -> (done: bool)
    ensures
        done == (sys_ctl_b & 0x20 != 0),
{
    sys_ctl_b & 0x20 != 0
}

} // verus!
