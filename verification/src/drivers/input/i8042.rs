//! The PS/2 controller (i8042): its keyboard on port 1 and its mouse on
//! port 2. The port I/O stays with the caller; this is what the driver
//! decides and what it makes of the bytes the controller gives.
use vstd::prelude::*;
use crate::fs::{MountTable, mount_names};
use crate::drivers::input::{Keyboard, Mouse, kbd_name, listener_gets, spec_clip_move};

verus! {

pub const IOPORT_DATA: u16 = 0x60;
pub const IOPORT_STATUS: u16 = 0x64;
pub const IOPORT_CMD: u16 = 0x64;
pub const CMD_READ_CONFIG: u8 = 0x20;
pub const CMD_WRITE_CONFIG: u8 = 0x60;
pub const CMD_PORT2_ENABLE: u8 = 0xA8;
/// The next byte written to the data port goes to port 2 (the mouse)
pub const CMD_PORT2_WRITE_INPUT: u8 = 0xD4;
pub const MOUSE_CMD_ENABLE_REPORT: u8 = 0xF4;
pub const MOUSE_CMD_1X1_SCALING: u8 = 0xE6;
pub const MOUSE_CMD_SET_RESOLUTION: u8 = 0xE8;
pub const MOUSE_RESP_ACK: u8 = 0xFA;
/// Configuration bit: port 2 raises its IRQ
pub const CONFIG_PORT2_IRQ: u8 = 0x2;

/// The handle `Keyboard::register_keyboard` gives a keyboard registered
/// with `kbd` while `mounts` names these mount points.
pub open spec fn spec_registered_hnd(kbd: Keyboard, mounts: MountTable) -> usize {
    if kbd.initialized || !mount_names(mounts.entries()).contains(kbd_name()) {
        kbd.next_dev
    } else {
        0
    }
}

/// A byte of a movement, negative when its sign bit says so.
pub open spec fn spec_movement(v: u8, negative: bool) -> i16 {
    if negative && v >= 128 {
        (v - 256) as i16
    } else {
        v as i16
    }
}

/// What a mouse packet (status, x and y movement) reports: the movement
/// and the buttons; nothing when either movement overflowed.
pub open spec fn spec_decode_mouse(stat: u8, movx: u8, movy: u8) -> Option<(i16, i16, u8)> {
    if stat & 0xC0 != 0 {
        None
    } else {
        Some((spec_movement(movx, stat & 0x10 != 0), spec_movement(movy, stat & 0x20 != 0), stat & 0x7))
    }
}

/// A movement byte as the packet's sign bit has it.
fn movement(v: u8, negative: bool) -> (m: i16)
    ensures
        m == spec_movement(v, negative),
{
    if negative && v >= 128 {
        v as i16 - 256
    } else {
        v as i16
    }
}

/// Decodes a mouse packet.
pub fn decode_mouse_packet(stat: u8, movx: u8, movy: u8) -> (r: Option<(i16, i16, u8)>)
    ensures
        r == spec_decode_mouse(stat, movx, movy),
{
    if stat & 0xC0 > 0 {
        return None;
    }
    Some((movement(movx, stat & 0x10 > 0), movement(movy, stat & 0x20 > 0), stat & 0x7))
}

/// The PS/2 controller: the handle of its keyboard and whether its mouse
/// reports.
pub struct I8042 {
    pub kbd_hnd: usize,
    pub mouse_enabled: bool,
}

impl I8042 {
    pub fn new() -> (c: Self)
        ensures
            c.kbd_hnd == 0 && !c.mouse_enabled,
    {
        I8042 { kbd_hnd: 0, mouse_enabled: false }
    }

    /// Registers the controller's keyboard as `PS2KBD`; one device.
    pub fn enumerate(&mut self, kbd: &mut Keyboard, mounts: &mut MountTable) -> (n: usize)
        requires
            old(mounts).wf(),
            old(kbd).next_dev < usize::MAX,
        ensures
            n == 1,
            final(mounts).wf(),
            final(self).kbd_hnd == spec_registered_hnd(*old(kbd), *old(mounts)),
            final(self).mouse_enabled == old(self).mouse_enabled,
            final(kbd).listeners@ == old(kbd).listeners@,
    {
        let name: [u8; 6] = [0x50, 0x53, 0x32, 0x4b, 0x42, 0x44];
        self.kbd_hnd = kbd.register_keyboard(mounts, &name);
        1
    }

    /// The configuration byte to write back: as read, with port 2's IRQ on.
    pub fn irq_config(cfg: u8) -> (c: u8)
        ensures
            c == cfg | CONFIG_PORT2_IRQ,
    {
        cfg | CONFIG_PORT2_IRQ
    }

    /// The commands that set the mouse up before it is asked to report: 1:1
    /// scaling, then a resolution of one count per millimetre.
    pub fn mouse_setup_commands() -> (v: Vec<u8>)
        ensures
            v@ == seq![MOUSE_CMD_1X1_SCALING, MOUSE_CMD_SET_RESOLUTION, 0u8],
    {
        let mut v: Vec<u8> = Vec::new();
        v.push(MOUSE_CMD_1X1_SCALING);
        v.push(MOUSE_CMD_SET_RESOLUTION);
        v.push(0);
        v
    }

    /// The mouse answered the request to report with `resp`: on an
    /// acknowledgement it is registered and reports from now on.
    pub fn mouse_answered(&mut self, resp: u8, mouse: &mut Mouse, mounts: &mut MountTable) -> (ok: bool)
        requires
            old(mounts).wf(),
        ensures
            final(mounts).wf(),
            ok == (resp == MOUSE_RESP_ACK),
            final(self).mouse_enabled == (old(self).mouse_enabled || ok),
            final(self).kbd_hnd == old(self).kbd_hnd,
            !ok ==> *final(mouse) == *old(mouse) && final(mounts).entries() == old(mounts).entries(),
            final(mouse).events@ == old(mouse).events@,
    {
        if resp == MOUSE_RESP_ACK {
            mouse.register_mouse(mounts);
            self.mouse_enabled = true;
            return true;
        }
        false
    }

    pub fn release(_device: usize) {
    }

    /// A key code came from the keyboard: it goes to the keyboard interface.
    pub fn kbd_irq(&self, kbd: &mut Keyboard, keycode: u8)
        ensures
            final(kbd).listeners@.len() == old(kbd).listeners@.len(),
            forall|i: int|
                0 <= i < old(kbd).listeners@.len() ==> {
                    let o = #[trigger] old(kbd).listeners@[i];
                    let n = final(kbd).listeners@[i];
                    n.lhnd == o.lhnd && n.dhnd == o.dhnd && n.events@ == if listener_gets(o.dhnd, self.kbd_hnd) {
                        o.events@.push(keycode)
                    } else {
                        o.events@
                    }
                },
            final(kbd).devices@ == old(kbd).devices@,
    {
        kbd.push(self.kbd_hnd, keycode);
    }

    /// A mouse packet came: a valid one moves the mouse; returns whether the
    /// mouse's callback is to be run.
    pub fn mouse_irq(&self, mouse: &mut Mouse, stat: u8, movx: u8, movy: u8) -> (run_cb: bool)
        requires
            old(mouse).xdiv == 1 || old(mouse).xdiv == -1,
            old(mouse).ydiv == 1 || old(mouse).ydiv == -1,
        ensures
            match spec_decode_mouse(stat, movx, movy) {
                None => run_cb == false && *final(mouse) == *old(mouse),
                Some((dx, dy, btns)) => {
                    &&& run_cb == old(mouse).irq_cb
                    &&& final(mouse).cur_x == spec_clip_move(old(mouse).cur_x, dx, old(mouse).xdiv, old(mouse).max_x)
                    &&& final(mouse).cur_y == spec_clip_move(old(mouse).cur_y, dy, old(mouse).ydiv, old(mouse).max_y)
                    &&& final(mouse).btns_sts == btns
                    &&& final(mouse).events@ == old(mouse).events@.push(
                        (final(mouse).cur_x, final(mouse).cur_y, 0u32, btns as u16),
                    )
                },
            },
    {
        match decode_mouse_packet(stat, movx, movy) {
            None => false,
            Some((dx, dy, btns)) => mouse.push(dx, dy, btns),
        }
    }
}

} // verus!
