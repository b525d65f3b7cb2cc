//! The PS/2 keyboard alone (without the mouse).
use vstd::prelude::*;
use crate::fs::MountTable;
use crate::drivers::input::{Keyboard, listener_gets};
use crate::drivers::input::i8042::spec_registered_hnd;

verus! {

/// The PS/2 keyboard: its handle with the keyboard interface.
pub struct I8046Keyboard {
    pub kbd_hnd: usize,
}

impl I8046Keyboard {
    pub fn new() -> (k: Self)
        ensures
            k.kbd_hnd == 0,
    {
        I8046Keyboard { kbd_hnd: 0 }
    }

    /// Registers the keyboard as `PS2KBD`; one device.
    pub fn enumerate(&mut self, kbd: &mut Keyboard, mounts: &mut MountTable) -> (n: usize)
        requires
            old(mounts).wf(),
            old(kbd).next_dev < usize::MAX,
        ensures
            n == 1,
            final(mounts).wf(),
            final(self).kbd_hnd == spec_registered_hnd(*old(kbd), *old(mounts)),
            final(kbd).listeners@ == old(kbd).listeners@,
    {
        let name: [u8; 6] = [0x50, 0x53, 0x32, 0x4b, 0x42, 0x44];
        self.kbd_hnd = kbd.register_keyboard(mounts, &name);
        1
    }

    pub fn release(_device: usize) {
    }

    /// A key code came: it goes to the keyboard interface.
    pub fn kdb_irq(&self, kbd: &mut Keyboard, keycode: u8)
        ensures
            final(kbd).listeners@.len() == old(kbd).listeners@.len(),
            forall|i: int|
                0 <= i < old(kbd).listeners@.len() ==> {
                    let o = #[trigger] old(kbd).listeners@[i];
                    let n = final(kbd).listeners@[i];
                    n.lhnd == o.lhnd && n.dhnd == o.dhnd && n.events@ == if listener_gets(o.dhnd, self.kbd_hnd) {
                        o.events@.push(keycode)
                    } else {
                        o.events@
                    }
                },
            final(kbd).devices@ == old(kbd).devices@,
    {
        kbd.push(self.kbd_hnd, keycode);
    }
}

} // verus!
