//! A keyboard made of the UART, for boards without one: the characters a
//! terminal sends, its escape sequences for the arrow and function keys
//! included, become key codes.
use vstd::prelude::*;
use crate::fs::MountTable;
use crate::drivers::input::{Keyboard, KEY_RELEASED, KEYCODE_EXTENDED, listener_gets, spec_ascii_key_events};
use crate::drivers::input::i8042::spec_registered_hnd;

verus! {

pub const ASCII_ESCAPE: u8 = 0x1B;
pub const KEYCODE_ESCAPE: u8 = 0x01;
pub const KEYCODE_F1: u8 = 0x3B;
pub const KEYCODE_F2: u8 = 0x3C;
pub const KEYCODE_F3: u8 = 0x3D;
pub const KEYCODE_F4: u8 = 0x3E;
pub const EXT_KEYCODE_UP: u8 = 0x48;
pub const EXT_KEYCODE_LEFT: u8 = 0x4B;
pub const EXT_KEYCODE_RIGHT: u8 = 0x4D;
pub const EXT_KEYCODE_DOWN: u8 = 0x50;

/// The codes of a key pressed and let go.
pub open spec fn key_codes(c: u8) -> Seq<u8> {
    seq![c, c | KEY_RELEASED]
}

/// The codes of an extended key pressed and let go; the extended prefix
/// goes with the released bit both times.
pub open spec fn ext_key_codes(c: u8) -> Seq<u8> {
    seq![KEYCODE_EXTENDED | KEY_RELEASED, c, KEYCODE_EXTENDED | KEY_RELEASED, c | KEY_RELEASED]
}

/// The codes of the escape sequence ESC `ch2` `ch3`: the arrows (`[` and
/// A, B, C, D) and F1 to F4 (`O` and P, Q, R, S); nothing for the others.
pub open spec fn spec_escape_codes(ch2: u8, ch3: u8) -> Seq<u8> {
    if ch2 == 0x5b {
        if ch3 == 0x41 {
            ext_key_codes(EXT_KEYCODE_UP)
        } else if ch3 == 0x42 {
            ext_key_codes(EXT_KEYCODE_DOWN)
        } else if ch3 == 0x43 {
            ext_key_codes(EXT_KEYCODE_RIGHT)
        } else if ch3 == 0x44 {
            ext_key_codes(EXT_KEYCODE_LEFT)
        } else {
            Seq::empty()
        }
    } else if ch2 == 0x4f {
        if ch3 == 0x50 {
            key_codes(KEYCODE_F1)
        } else if ch3 == 0x51 {
            key_codes(KEYCODE_F2)
        } else if ch3 == 0x52 {
            key_codes(KEYCODE_F3)
        } else if ch3 == 0x53 {
            key_codes(KEYCODE_F4)
        } else {
            Seq::empty()
        }
    } else {
        Seq::empty()
    }
}

fn push_key(v: &mut Vec<u8>, c: u8)
    ensures
        final(v)@ == old(v)@ + key_codes(c),
{
    v.push(c);
    v.push(c | KEY_RELEASED);
    assert(final(v)@ =~= old(v)@ + key_codes(c));
}

fn push_ext_key(v: &mut Vec<u8>, c: u8)
    ensures
        final(v)@ == old(v)@ + ext_key_codes(c),
{
    v.push(KEYCODE_EXTENDED | KEY_RELEASED);
    v.push(c);
    v.push(KEYCODE_EXTENDED | KEY_RELEASED);
    v.push(c | KEY_RELEASED);
    assert(final(v)@ =~= old(v)@ + ext_key_codes(c));
}

/// The key codes of the escape sequence ESC `ch2` `ch3`.
pub fn escape_codes(ch2: u8, ch3: u8) -> (v: Vec<u8>)
    ensures
        v@ == spec_escape_codes(ch2, ch3),
{
    let mut v: Vec<u8> = Vec::new();
    if ch2 == 0x5b {
        if ch3 == 0x41 {
            push_ext_key(&mut v, EXT_KEYCODE_UP);
        } else if ch3 == 0x42 {
            push_ext_key(&mut v, EXT_KEYCODE_DOWN);
        } else if ch3 == 0x43 {
            push_ext_key(&mut v, EXT_KEYCODE_RIGHT);
        } else if ch3 == 0x44 {
            push_ext_key(&mut v, EXT_KEYCODE_LEFT);
        }
    } else if ch2 == 0x4f {
        if ch3 == 0x50 {
            push_key(&mut v, KEYCODE_F1);
        } else if ch3 == 0x51 {
            push_key(&mut v, KEYCODE_F2);
        } else if ch3 == 0x52 {
            push_key(&mut v, KEYCODE_F3);
        } else if ch3 == 0x53 {
            push_key(&mut v, KEYCODE_F4);
        }
    }
    assert(v@ =~= spec_escape_codes(ch2, ch3));
    v
}

/// Where the reading of the UART is: between characters, after an escape,
/// or after an escape and a second character.
#[derive(Clone, Copy, Debug, PartialEq, Eq, Structural)]
pub enum UartKbdState {
    Idle,
    Escape,
    EscapeSeq(u8),
}

/// What one read of the UART gives: a character to type, key codes to
/// deliver, and whether to sleep (10 ms) before the next read.
pub struct UartKbdStep {
    pub ascii: Option<u8>,
    pub codes: Vec<u8>,
    pub sleep: bool,
}

/// The next state and the step for what a read gave (`None`: nothing was
/// waiting).
pub open spec fn spec_uart_step(s: UartKbdState, read: Option<u8>) -> (UartKbdState, Option<u8>, Seq<u8>, bool) {
    match s {
        UartKbdState::Idle => match read {
            None => (UartKbdState::Idle, None, Seq::empty(), true),
            Some(ch) => if ch == ASCII_ESCAPE {
                (UartKbdState::Escape, None, Seq::empty(), false)
            } else {
                (UartKbdState::Idle, Some(ch), Seq::empty(), true)
            },
        },
        UartKbdState::Escape => match read {
            None => (UartKbdState::Idle, None, key_codes(KEYCODE_ESCAPE), false),
            Some(ch2) => (UartKbdState::EscapeSeq(ch2), None, Seq::empty(), false),
        },
        UartKbdState::EscapeSeq(ch2) => match read {
            None => (UartKbdState::Idle, None, Seq::empty(), false),
            Some(ch3) => (UartKbdState::Idle, None, spec_escape_codes(ch2, ch3), true),
        },
    }
}

/// Delivers key codes, in order, from the keyboard `hnd`.
pub fn push_codes(kbd: &mut Keyboard, hnd: usize, codes: &Vec<u8>)
    ensures
        final(kbd).listeners@.len() == old(kbd).listeners@.len(),
        forall|i: int|
            0 <= i < old(kbd).listeners@.len() ==> {
                let o = #[trigger] old(kbd).listeners@[i];
                let n = final(kbd).listeners@[i];
                n.lhnd == o.lhnd && n.dhnd == o.dhnd && n.events@ == if listener_gets(o.dhnd, hnd) {
                    o.events@ + codes@
                } else {
                    o.events@
                }
            },
        final(kbd).devices@ == old(kbd).devices@,
        final(kbd).next_dev == old(kbd).next_dev,
        final(kbd).initialized == old(kbd).initialized,
{
    let ghost ol = kbd.listeners@;
    let mut j: usize = 0;
    while j < codes.len()
        invariant
            j <= codes@.len(),
            ol == old(kbd).listeners@,
            kbd.listeners@.len() == ol.len(),
            kbd.devices@ == old(kbd).devices@,
            kbd.next_dev == old(kbd).next_dev,
            kbd.initialized == old(kbd).initialized,
            forall|i: int|
                0 <= i < ol.len() ==> {
                    let o = #[trigger] ol[i];
                    let n = kbd.listeners@[i];
                    n.lhnd == o.lhnd && n.dhnd == o.dhnd && n.events@ == if listener_gets(o.dhnd, hnd) {
                        o.events@ + codes@.take(j as int)
                    } else {
                        o.events@
                    }
                },
        decreases codes@.len() - j,
    {
        let ghost before = kbd.listeners@;
        kbd.push(hnd, codes[j]);
        proof {
            assert(codes@.take(j + 1) =~= codes@.take(j as int).push(codes@[j as int]));
            assert forall|i: int| 0 <= i < ol.len() implies {
                let o = #[trigger] ol[i];
                let n = kbd.listeners@[i];
                n.lhnd == o.lhnd && n.dhnd == o.dhnd && n.events@ == if listener_gets(o.dhnd, hnd) {
                    o.events@ + codes@.take(j + 1)
                } else {
                    o.events@
                }
            } by {
                let b = before[i];
                assert(listener_gets(b.dhnd, hnd) ==> kbd.listeners@[i].events@ == b.events@.push(codes@[j as int]));
                if listener_gets(ol[i].dhnd, hnd) {
                    assert(ol[i].events@ + codes@.take(j + 1) =~= (ol[i].events@ + codes@.take(j as int)).push(codes@[j as int]));
                }
            }
        }
        j = j + 1;
    }
    assert(codes@.take(codes@.len() as int) =~= codes@);
}

/// The UART keyboard: its handle with the keyboard interface and where its
/// reading is.
pub struct UARTKeyboard {
    pub kbd_hnd: usize,
    pub state: UartKbdState,
}

impl UARTKeyboard {
    pub fn new() -> (k: Self)
        ensures
            k.kbd_hnd == 0 && k.state == UartKbdState::Idle,
    {
        UARTKeyboard { kbd_hnd: 0, state: UartKbdState::Idle }
    }

    /// Registers the keyboard as `UARTKBD`; one device.
    pub fn enumerate(&mut self, kbd: &mut Keyboard, mounts: &mut MountTable) -> (n: usize)
        requires
            old(mounts).wf(),
            old(kbd).next_dev < usize::MAX,
        ensures
            n == 1,
            final(mounts).wf(),
            final(self).kbd_hnd == spec_registered_hnd(*old(kbd), *old(mounts)),
            final(self).state == old(self).state,
            final(kbd).listeners@ == old(kbd).listeners@,
    {
        let name: [u8; 7] = [0x55, 0x41, 0x52, 0x54, 0x4b, 0x42, 0x44];
        self.kbd_hnd = kbd.register_keyboard(mounts, &name);
        1
    }

    pub fn release(_device: usize) {
    }

    /// The reading of the UART starts between characters.
    pub fn post_enum(&mut self)
        ensures
            final(self).state == UartKbdState::Idle,
            final(self).kbd_hnd == old(self).kbd_hnd,
    {
        self.state = UartKbdState::Idle;
    }

    /// Takes what one read of the UART gave.
    pub fn step(&mut self, read: Option<u8>) -> (r: UartKbdStep)
        ensures
            (final(self).state, r.ascii, r.codes@, r.sleep) == spec_uart_step(old(self).state, read),
            final(self).kbd_hnd == old(self).kbd_hnd,
    {
        match self.state {
            UartKbdState::Idle => match read {
                None => UartKbdStep { ascii: None, codes: Vec::new(), sleep: true },
                Some(ch) => {
                    if ch == ASCII_ESCAPE {
                        self.state = UartKbdState::Escape;
                        UartKbdStep { ascii: None, codes: Vec::new(), sleep: false }
                    } else {
                        UartKbdStep { ascii: Some(ch), codes: Vec::new(), sleep: true }
                    }
                },
            },
            UartKbdState::Escape => match read {
                None => {
                    self.state = UartKbdState::Idle;
                    let mut v: Vec<u8> = Vec::new();
                    push_key(&mut v, KEYCODE_ESCAPE);
                    assert(v@ =~= key_codes(KEYCODE_ESCAPE));
                    UartKbdStep { ascii: None, codes: v, sleep: false }
                },
                Some(ch2) => {
                    self.state = UartKbdState::EscapeSeq(ch2);
                    UartKbdStep { ascii: None, codes: Vec::new(), sleep: false }
                },
            },
            UartKbdState::EscapeSeq(ch2) => match read {
                None => {
                    self.state = UartKbdState::Idle;
                    UartKbdStep { ascii: None, codes: Vec::new(), sleep: false }
                },
                Some(ch3) => {
                    self.state = UartKbdState::Idle;
                    UartKbdStep { ascii: None, codes: escape_codes(ch2, ch3), sleep: true }
                },
            },
        }
    }

    /// Delivers a step's character and key codes from this keyboard.
    pub fn deliver(&self, kbd: &mut Keyboard, s: &UartKbdStep)
        ensures
            final(kbd).listeners@.len() == old(kbd).listeners@.len(),
            final(kbd).devices@ == old(kbd).devices@,
            s.ascii is None ==> forall|i: int|
                0 <= i < old(kbd).listeners@.len() ==> {
                    let o = #[trigger] old(kbd).listeners@[i];
                    let n = final(kbd).listeners@[i];
                    n.lhnd == o.lhnd && n.dhnd == o.dhnd && n.events@ == if listener_gets(o.dhnd, self.kbd_hnd) {
                        o.events@ + s.codes@
                    } else {
                        o.events@
                    }
                },
            s.ascii matches Some(a) ==> forall|i: int|
                0 <= i < old(kbd).listeners@.len() ==> {
                    let o = #[trigger] old(kbd).listeners@[i];
                    let n = final(kbd).listeners@[i];
                    n.lhnd == o.lhnd && n.dhnd == o.dhnd && n.events@ == if listener_gets(o.dhnd, self.kbd_hnd) && a < 128 {
                        o.events@ + spec_ascii_key_events(a) + s.codes@
                    } else if listener_gets(o.dhnd, self.kbd_hnd) {
                        o.events@ + s.codes@
                    } else {
                        o.events@
                    }
                },
    {
        match s.ascii {
            Some(a) => {
                kbd.push_ascii(self.kbd_hnd, a);
            },
            None => {},
        }
        push_codes(kbd, self.kbd_hnd, &s.codes);
    }
}

} // verus!
