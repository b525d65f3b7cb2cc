//! The first PS/2 keyboard driver: it keeps the shift keys and the last
//! character typed itself, and wakes the tasks waiting for key events.
use vstd::prelude::*;
use crate::drivers::input::{KeyboardEvent, keycode_to_ascii_shifted, spec_keycode_to_ascii};

verus! {

pub const KEY_RELEASED: u8 = 0x80;
pub const LSHIFT_PRESSED: u8 = 0x2A;
pub const RSHIFT_PRESSED: u8 = 0x36;

/// The wait channels of the driver: key presses, key releases, either.
#[derive(Clone, Copy, Debug, PartialEq, Eq, Structural)]
pub enum KbdChannel {
    Press,
    Release,
    Any,
}

/// The PS/2 keyboard: the shift keys held and the last character typed (0
/// once read).
pub struct I8046Keyboard {
    pub lshift: bool,
    pub rshift: bool,
    pub last_ascii: u8,
}

impl I8046Keyboard {
    pub fn new() -> (k: Self)
        ensures
            !k.lshift && !k.rshift && k.last_ascii == 0,
    {
        I8046Keyboard { lshift: false, rshift: false, last_ascii: 0 }
    }

    /// One device.
    pub fn enumerate() -> (n: usize)
        ensures
            n == 1,
    {
        1
    }

    pub fn release(_device: usize) {
    }

    /// The last character typed, which is then forgotten.
    pub fn read_key_ascii(&mut self) -> (c: u8)
        ensures
            c == old(self).last_ascii,
            final(self).last_ascii == 0,
            final(self).lshift == old(self).lshift && final(self).rshift == old(self).rshift,
    {
        let c = self.last_ascii;
        self.last_ascii = 0;
        c
    }

    /// The channel a task waiting for `event` sleeps on.
    pub fn wait_for_event(event: KeyboardEvent) -> (c: KbdChannel)
        ensures
            c == match event {
                KeyboardEvent::KeyPressedOrReleased => KbdChannel::Any,
                KeyboardEvent::KeyPressed => KbdChannel::Press,
                KeyboardEvent::KeyReleased => KbdChannel::Release,
            },
    {
        match event {
            KeyboardEvent::KeyPressedOrReleased => KbdChannel::Any,
            KeyboardEvent::KeyPressed => KbdChannel::Press,
            KeyboardEvent::KeyReleased => KbdChannel::Release,
        }
    }

    /// Forgets the last character.
    pub fn clear_buffer(&mut self)
        ensures
            final(self).last_ascii == 0,
            final(self).lshift == old(self).lshift && final(self).rshift == old(self).rshift,
    {
        self.last_ascii = 0;
    }

    /// The character a key gives with the shift keys as they are held.
    pub fn keyboard_to_ascii(&self, key: u8) -> (c: u8)
        ensures
            c == spec_keycode_to_ascii(key, self.lshift || self.rshift),
    {
        keycode_to_ascii_shifted(key, self.lshift || self.rshift)
    }

    /// A key code came: the shift keys follow their presses and releases,
    /// another key pressed becomes the last character; returns the channels
    /// to wake, in order.
    pub fn kdb_irq(&mut self, keycode: u8) -> (woken: Vec<KbdChannel>)
        ensures
            keycode & KEY_RELEASED != 0 ==> {
                &&& woken@ == seq![KbdChannel::Release, KbdChannel::Any]
                &&& final(self).lshift == (old(self).lshift && keycode & 0x7F != LSHIFT_PRESSED)
                &&& final(self).rshift == (old(self).rshift && keycode & 0x7F != RSHIFT_PRESSED)
                &&& final(self).last_ascii == old(self).last_ascii
            },
            keycode & KEY_RELEASED == 0 ==> {
                &&& woken@ == seq![KbdChannel::Press, KbdChannel::Any]
                &&& final(self).lshift == (old(self).lshift || keycode & 0x7F == LSHIFT_PRESSED)
                &&& final(self).rshift == (old(self).rshift || keycode & 0x7F == RSHIFT_PRESSED)
                &&& final(self).last_ascii == if keycode & 0x7F == LSHIFT_PRESSED || keycode & 0x7F
                    == RSHIFT_PRESSED {
                    old(self).last_ascii
                } else {
                    spec_keycode_to_ascii(keycode, old(self).lshift || old(self).rshift)
                }
            },
    {
        let mut woken: Vec<KbdChannel> = Vec::new();
        if keycode & KEY_RELEASED > 0 {
            if keycode & 0x7F == LSHIFT_PRESSED {
                self.lshift = false;
            } else if keycode & 0x7F == RSHIFT_PRESSED {
                self.rshift = false;
            }
            woken.push(KbdChannel::Release);
        } else {
            if keycode & 0x7F == LSHIFT_PRESSED {
                self.lshift = true;
            } else if keycode & 0x7F == RSHIFT_PRESSED {
                self.rshift = true;
            } else {
                self.last_ascii = self.keyboard_to_ascii(keycode);
            }
            woken.push(KbdChannel::Press);
        }
        woken.push(KbdChannel::Any);
        woken
    }
}

} // verus!
