//! Human input devices: the keyboard and mouse interfaces, the keycode
//! tables and the decoding of PS/2 and terminal input.
use vstd::prelude::*;
use crate::{Error, ErrorCode, is_err_code};
use crate::fs::{
    DirectoryEntry, FileOps, MountPoint, MountTable, mount_map, mount_names, bytes_eq,
    bytes_to_vec, contains_byte, first_index, DEV_RX_DIR_FLAGS, DEV_RX_FILE_FLAGS,
    DEV_R_FILE_FLAGS,
};
use crate::util::{copy_at, hex_text, push_hex};
use crate::drivers::DRV_KEYBOARD;
use crate::drivers::DRV_MOUSE;
use crate::drivers::kbd::KbdChannel;

pub mod i8042;
pub mod i8046;
pub mod uartkbd;

verus! {

// ---------------------------------------------------------------------------
// Keycode tables
// ---------------------------------------------------------------------------

/// The keycodes of the letters a..z.
pub open spec fn letter_codes() -> Seq<u8> {
    seq![0x1E, 0x30, 0x2E, 0x20, 0x12, 0x21, 0x22, 0x23, 0x17, 0x24, 0x25, 0x26, 0x32, 0x31, 0x18, 0x19, 0x10, 0x13, 0x1F, 0x14, 0x16, 0x2F, 0x11, 0x2D, 0x15, 0x2C]
}

pub open spec fn digit_row(shift: bool) -> Seq<u8> {
    if shift {
        seq![33, 64, 35, 36, 37, 94, 38, 42, 40, 41, 95, 43]
    } else {
        seq![49, 50, 51, 52, 53, 54, 55, 56, 57, 48, 45, 61]
    }
}

pub open spec fn top_row(shift: bool) -> Seq<u8> {
    if shift {
        seq![81, 87, 69, 82, 84, 89, 85, 73, 79, 80, 123, 125]
    } else {
        seq![113, 119, 101, 114, 116, 121, 117, 105, 111, 112, 91, 93]
    }
}

pub open spec fn home_row(shift: bool) -> Seq<u8> {
    if shift {
        seq![65, 83, 68, 70, 71, 72, 74, 75, 76, 58, 34]
    } else {
        seq![97, 115, 100, 102, 103, 104, 106, 107, 108, 59, 39]
    }
}

pub open spec fn bottom_row(shift: bool) -> Seq<u8> {
    if shift {
        seq![90, 88, 67, 86, 66, 78, 77, 60, 62, 63]
    } else {
        seq![122, 120, 99, 118, 98, 110, 109, 44, 46, 47]
    }
}

/// The character a keycode (bit 7 clear) produces, 0 for none.
pub open spec fn spec_keycode_to_ascii(keycode: u8, shift: bool) -> u8 {
    if 0x02 <= keycode < 0x0E {
        digit_row(shift)[keycode - 0x02]
    } else if keycode == 0x0E {
        8
    } else if keycode == 0x0F {
        32
    } else if 0x10 <= keycode < 0x1C {
        top_row(shift)[keycode - 0x10]
    } else if keycode == 0x1C {
        10
    } else if 0x1E <= keycode < 0x29 {
        home_row(shift)[keycode - 0x1E]
    } else if keycode == 0x29 {
        if shift { 126 } else { 96 }
    } else if keycode == 0x2B {
        if shift { 124 } else { 92 }
    } else if 0x2C <= keycode < 0x36 {
        bottom_row(shift)[keycode - 0x2C]
    } else if keycode == 0x39 {
        32
    } else {
        0
    }
}

/// Translates a keycode to ASCII, with or without shift held.
pub fn keycode_to_ascii_shifted(keycode: u8, shift: bool) -> (c: u8)
    ensures
        c == spec_keycode_to_ascii(keycode, shift),
{
    if 0x02 <= keycode && keycode < 0x0E {
        let r: [u8; 12] = if shift {
            [33, 64, 35, 36, 37, 94, 38, 42, 40, 41, 95, 43]
        } else {
            [49, 50, 51, 52, 53, 54, 55, 56, 57, 48, 45, 61]
        };
        assert(r@ =~= digit_row(shift));
        r[(keycode - 0x02) as usize]
    } else if keycode == 0x0E {
        8
    } else if keycode == 0x0F {
        32
    } else if 0x10 <= keycode && keycode < 0x1C {
        let r: [u8; 12] = if shift {
            [81, 87, 69, 82, 84, 89, 85, 73, 79, 80, 123, 125]
        } else {
            [113, 119, 101, 114, 116, 121, 117, 105, 111, 112, 91, 93]
        };
        assert(r@ =~= top_row(shift));
        r[(keycode - 0x10) as usize]
    } else if keycode == 0x1C {
        10
    } else if 0x1E <= keycode && keycode < 0x29 {
        let r: [u8; 11] = if shift {
            [65, 83, 68, 70, 71, 72, 74, 75, 76, 58, 34]
        } else {
            [97, 115, 100, 102, 103, 104, 106, 107, 108, 59, 39]
        };
        assert(r@ =~= home_row(shift));
        r[(keycode - 0x1E) as usize]
    } else if keycode == 0x29 {
        if shift { 126 } else { 96 }
    } else if keycode == 0x2B {
        if shift { 124 } else { 92 }
    } else if 0x2C <= keycode && keycode < 0x36 {
        let r: [u8; 10] = if shift {
            [90, 88, 67, 86, 66, 78, 77, 60, 62, 63]
        } else {
            [122, 120, 99, 118, 98, 110, 109, 44, 46, 47]
        };
        assert(r@ =~= bottom_row(shift));
        r[(keycode - 0x2C) as usize]
    } else if keycode == 0x39 {
        32
    } else {
        0
    }
}

/// The (keycode, shift) pair that types an ASCII character; (0, false) when
/// no key produces it.
pub open spec fn spec_ascii_to_keycode_entry(ascii: u8) -> (u8, bool) {
    if 49 <= ascii <= 57 {
        ((ascii - 47) as u8, false)
    } else if 65 <= ascii <= 90 {
        (letter_codes()[ascii - 65], true)
    } else if 97 <= ascii <= 122 {
        (letter_codes()[ascii - 97], false)
    } else {
        match ascii {
        9 => (0x0F, false),
        10 => (0x1C, false),
        13 => (0x1C, false),
        32 => (0x39, false),
        33 => (0x02, true),
        34 => (0x28, true),
        35 => (0x04, true),
        36 => (0x05, true),
        37 => (0x06, true),
        38 => (0x08, true),
        39 => (0x28, false),
        40 => (0x0A, true),
        41 => (0x0B, true),
        42 => (0x09, true),
        43 => (0x0D, true),
        44 => (0x33, false),
        45 => (0x0C, false),
        46 => (0x34, false),
        47 => (0x35, false),
        48 => (0x0B, false),
        58 => (0x27, true),
        59 => (0x27, false),
        60 => (0x33, true),
        61 => (0x0D, false),
        62 => (0x34, true),
        63 => (0x35, true),
        64 => (0x03, true),
        91 => (0x1A, false),
        92 => (0x2B, false),
        93 => (0x1B, false),
        94 => (0x07, true),
        95 => (0x0C, true),
        96 => (0x29, false),
        123 => (0x1A, true),
        124 => (0x2B, true),
        125 => (0x1B, true),
        126 => (0x29, true),
        127 => (0x0E, false),

            _ => (0, false),
        }
    }
}

/// Looks up the (keycode, shift) pair that types an ASCII character.
pub fn ascii_to_keycode_entry(ascii: u8) -> (r: (u8, bool))
    ensures
        r == spec_ascii_to_keycode_entry(ascii),
{
    let letters: [u8; 26] = [0x1E, 0x30, 0x2E, 0x20, 0x12, 0x21, 0x22, 0x23, 0x17, 0x24, 0x25, 0x26, 0x32, 0x31, 0x18, 0x19, 0x10, 0x13, 0x1F, 0x14, 0x16, 0x2F, 0x11, 0x2D, 0x15, 0x2C];
    assert(letters@ =~= letter_codes());
    if 49 <= ascii && ascii <= 57 {
        (ascii - 47, false)
    } else if 65 <= ascii && ascii <= 90 {
        (letters[(ascii - 65) as usize], true)
    } else if 97 <= ascii && ascii <= 122 {
        (letters[(ascii - 97) as usize], false)
    } else {
        match ascii {
        9 => (0x0F, false),
        10 => (0x1C, false),
        13 => (0x1C, false),
        32 => (0x39, false),
        33 => (0x02, true),
        34 => (0x28, true),
        35 => (0x04, true),
        36 => (0x05, true),
        37 => (0x06, true),
        38 => (0x08, true),
        39 => (0x28, false),
        40 => (0x0A, true),
        41 => (0x0B, true),
        42 => (0x09, true),
        43 => (0x0D, true),
        44 => (0x33, false),
        45 => (0x0C, false),
        46 => (0x34, false),
        47 => (0x35, false),
        48 => (0x0B, false),
        58 => (0x27, true),
        59 => (0x27, false),
        60 => (0x33, true),
        61 => (0x0D, false),
        62 => (0x34, true),
        63 => (0x35, true),
        64 => (0x03, true),
        91 => (0x1A, false),
        92 => (0x2B, false),
        93 => (0x1B, false),
        94 => (0x07, true),
        95 => (0x0C, true),
        96 => (0x29, false),
        123 => (0x1A, true),
        124 => (0x2B, true),
        125 => (0x1B, true),
        126 => (0x29, true),
        127 => (0x0E, false),

            _ => (0, false),
        }
    }
}

/// Every character the ASCII table gives a key for is typed back by that
/// key (with the shift state the table gives): the character itself, or,
/// for the keys that also stand for other characters, its key's own
/// character: carriage return types a newline, DEL the backspace and tab a
/// space. Newline and backspace come out of Enter and Backspace.
pub proof fn lemma_table_keys_type_their_characters(c: u8)
    requires
        c < 128,
        spec_ascii_to_keycode_entry(c).0 != 0,
    ensures
        spec_keycode_to_ascii(spec_ascii_to_keycode_entry(c).0, spec_ascii_to_keycode_entry(c).1)
            == if c == 13 {
            10
        } else if c == 127 {
            8
        } else if c == 9 {
            32
        } else {
            c
        },
        (c == 10 || c == 13) ==> spec_ascii_to_keycode_entry(c).0 == 0x1C,
        c == 127 ==> spec_ascii_to_keycode_entry(c).0 == 0x0E,
{
    if 32 <= c <= 126 {
        lemma_ascii_keycode_roundtrip(c);
    } else if c == 9 {
    } else if c == 10 {
    } else if c == 13 {
    } else if c == 127 {
    } else {
        assert(spec_ascii_to_keycode_entry(c).0 == 0);
    }
}

/// Every printable ASCII character has a key, and that key (with the shift
/// state the table gives) types the same character back.
pub proof fn lemma_ascii_keycode_roundtrip(c: u8)
    requires
        32 <= c <= 126,
    ensures
        spec_ascii_to_keycode_entry(c).0 != 0,
        spec_keycode_to_ascii(spec_ascii_to_keycode_entry(c).0, spec_ascii_to_keycode_entry(c).1)
            == c,
{
    if c == 32 {
    } else if c == 33 {
    } else if c == 34 {
    } else if c == 35 {
    } else if c == 36 {
    } else if c == 37 {
    } else if c == 38 {
    } else if c == 39 {
    } else if c == 40 {
    } else if c == 41 {
    } else if c == 42 {
    } else if c == 43 {
    } else if c == 44 {
    } else if c == 45 {
    } else if c == 46 {
    } else if c == 47 {
    } else if c == 48 {
    } else if c == 49 {
    } else if c == 50 {
    } else if c == 51 {
    } else if c == 52 {
    } else if c == 53 {
    } else if c == 54 {
    } else if c == 55 {
    } else if c == 56 {
    } else if c == 57 {
    } else if c == 58 {
    } else if c == 59 {
    } else if c == 60 {
    } else if c == 61 {
    } else if c == 62 {
    } else if c == 63 {
    } else if c == 64 {
    } else if c == 65 {
    } else if c == 66 {
    } else if c == 67 {
    } else if c == 68 {
    } else if c == 69 {
    } else if c == 70 {
    } else if c == 71 {
    } else if c == 72 {
    } else if c == 73 {
    } else if c == 74 {
    } else if c == 75 {
    } else if c == 76 {
    } else if c == 77 {
    } else if c == 78 {
    } else if c == 79 {
    } else if c == 80 {
    } else if c == 81 {
    } else if c == 82 {
    } else if c == 83 {
    } else if c == 84 {
    } else if c == 85 {
    } else if c == 86 {
    } else if c == 87 {
    } else if c == 88 {
    } else if c == 89 {
    } else if c == 90 {
    } else if c == 91 {
    } else if c == 92 {
    } else if c == 93 {
    } else if c == 94 {
    } else if c == 95 {
    } else if c == 96 {
    } else if c == 97 {
    } else if c == 98 {
    } else if c == 99 {
    } else if c == 100 {
    } else if c == 101 {
    } else if c == 102 {
    } else if c == 103 {
    } else if c == 104 {
    } else if c == 105 {
    } else if c == 106 {
    } else if c == 107 {
    } else if c == 108 {
    } else if c == 109 {
    } else if c == 110 {
    } else if c == 111 {
    } else if c == 112 {
    } else if c == 113 {
    } else if c == 114 {
    } else if c == 115 {
    } else if c == 116 {
    } else if c == 117 {
    } else if c == 118 {
    } else if c == 119 {
    } else if c == 120 {
    } else if c == 121 {
    } else if c == 122 {
    } else if c == 123 {
    } else if c == 124 {
    } else if c == 125 {
    } else if c == 126 {
    }
}

// ---------------------------------------------------------------------------
// Keyboard interface
// ---------------------------------------------------------------------------

/// Keycode bit set on key release.
pub const KEY_RELEASED: u8 = 0x80;
/// Keycode (without the release bit) of the left shift key.
pub const KEYCODE_LEFT_SHIFT: u8 = 0x2A;
/// Keycode (without the release bit) of the right shift key.
pub const KEYCODE_RIGHT_SHIFT: u8 = 0x36;
/// Keycode that starts an extended (two-code) key.
pub const KEYCODE_EXTENDED: u8 = 0x60;

pub const KBD_ROOT_HND: usize = 0;
/// Handle that receives the events of every keyboard device.
pub const KBD_ALL_HND: usize = 1;
pub const KBD_LISTENER_INIT_HND: usize = 0x100;
/// Most codes returned by one read.
pub const KBD_BUFF_SIZE: usize = 128;

/// The keyboard events a task can wait for.
pub enum KeyboardEvent {
    KeyPressed,
    KeyReleased,
    KeyPressedOrReleased,
}

/// Whether pushing `code` wakes the tasks waiting for `event`.
pub open spec fn spec_woken_by(event: KeyboardEvent, code: u8) -> bool {
    match event {
        KeyboardEvent::KeyPressed => code & KEY_RELEASED == 0,
        KeyboardEvent::KeyReleased => code & KEY_RELEASED != 0,
        KeyboardEvent::KeyPressedOrReleased => true,
    }
}

/// The wait channel of the tasks waiting for `event`.
pub open spec fn spec_event_channel(event: KeyboardEvent) -> KbdChannel {
    match event {
        KeyboardEvent::KeyPressedOrReleased => KbdChannel::Any,
        KeyboardEvent::KeyPressed => KbdChannel::Press,
        KeyboardEvent::KeyReleased => KbdChannel::Release,
    }
}

/// The wait channels woken when `code` is pushed: the release or the press
/// channel, then the channel of either.
pub open spec fn spec_woken_channels(code: u8) -> Seq<KbdChannel> {
    if code & KEY_RELEASED != 0 {
        seq![KbdChannel::Release, KbdChannel::Any]
    } else {
        seq![KbdChannel::Press, KbdChannel::Any]
    }
}

/// A task waiting for an event is woken by a pushed code exactly when the
/// code is such an event.
pub proof fn lemma_waiter_woken(event: KeyboardEvent, code: u8)
    ensures
        spec_woken_channels(code).contains(spec_event_channel(event)) == spec_woken_by(event, code),
{
    let w = spec_woken_channels(code);
    let c = spec_event_channel(event);
    if spec_woken_by(event, code) {
        match event {
            KeyboardEvent::KeyPressedOrReleased => assert(w[1] == c),
            _ => assert(w[0] == c),
        }
    } else {
        assert forall|i: int| 0 <= i < w.len() implies w[i] != c by {}
    }
}

impl KeyboardEvent {
    /// Whether pushing `code` wakes the tasks waiting for this event.
    pub fn woken_by(&self, code: u8) -> (r: bool)
        ensures
            r == spec_woken_by(*self, code),
    {
        match self {
            KeyboardEvent::KeyPressed => code & KEY_RELEASED == 0,
            KeyboardEvent::KeyReleased => code & KEY_RELEASED != 0,
            KeyboardEvent::KeyPressedOrReleased => true,
        }
    }
}

/// A task reading keyboard events: its handle, the device it listens to and
/// the codes not read yet.
pub struct KeyboardListener {
    pub lhnd: usize,
    pub dhnd: usize,
    pub events: Vec<u8>,
}

/// The keyboard interface shared by all keyboard drivers.
pub struct Keyboard {
    pub initialized: bool,
    /// Names of the registered keyboards ("all" first once initialized)
    pub devices: Vec<Vec<u8>>,
    pub listeners: Vec<KeyboardListener>,
    /// Handle of the next listener
    pub next_hnd: usize,
    /// Handle of the next registered device
    pub next_dev: usize,
    pub lshift: bool,
    pub rshift: bool,
    /// Last key code that was not a shift key (0 once consumed)
    pub last_keycode: u8,
}

/// The codes a listener receives: it listens to every device or to `hnd`.
pub open spec fn listener_gets(dhnd: usize, hnd: usize) -> bool {
    dhnd == KBD_ALL_HND || dhnd == hnd
}

/// The bytes `"all"`.
pub open spec fn all_name() -> Seq<u8> {
    seq![0x61u8, 0x6cu8, 0x6cu8]
}

/// The bytes `"kbd"`.
pub open spec fn kbd_name() -> Seq<u8> {
    seq![0x6bu8, 0x62u8, 0x64u8]
}

/// The key events that type `ascii`: shift press, key press, key release,
/// shift release (the shift pair only when the table asks for shift).
pub open spec fn spec_ascii_key_events(ascii: u8) -> Seq<u8> {
    let (code, shift) = spec_ascii_to_keycode_entry(ascii);
    if code == 0 {
        Seq::empty()
    } else if shift {
        seq![KEYCODE_LEFT_SHIFT, code, (code | KEY_RELEASED) as u8, (KEYCODE_LEFT_SHIFT | KEY_RELEASED) as u8]
    } else {
        seq![code, (code | KEY_RELEASED) as u8]
    }
}

impl Keyboard {
    /// No listeners, no devices, no shift held.
    pub fn new() -> (k: Self)
        ensures
            !k.initialized,
            k.devices@.len() == 0,
            k.listeners@.len() == 0,
            k.next_hnd == KBD_LISTENER_INIT_HND,
            k.next_dev == KBD_ALL_HND + 1,
            !k.lshift && !k.rshift && k.last_keycode == 0,
    {
        Keyboard {
            initialized: false,
            devices: Vec::new(),
            listeners: Vec::new(),
            next_hnd: KBD_LISTENER_INIT_HND,
            next_dev: KBD_ALL_HND + 1,
            lshift: false,
            rshift: false,
            last_keycode: 0,
        }
    }

    /// Registers a keyboard device and returns its handle. The first
    /// registration mounts `kbd:`; when that fails, 0 is returned.
    pub fn register_keyboard(&mut self, mounts: &mut MountTable, name: &[u8]) -> (hnd: usize)
        requires
            old(mounts).wf(),
            old(self).next_dev < usize::MAX,
        ensures
            final(mounts).wf(),
            old(self).initialized ==> final(mounts).entries() == old(mounts).entries(),
            !old(self).initialized && mount_names(old(mounts).entries()).contains(kbd_name())
                ==> hnd == 0 && final(self).devices@ == old(self).devices@ && final(self).next_dev
                == old(self).next_dev && !final(self).initialized,
            !old(self).initialized && !mount_names(old(mounts).entries()).contains(kbd_name())
                ==> mount_map(final(mounts).entries()) == mount_map(old(mounts).entries()).insert(
                kbd_name(),
                DRV_KEYBOARD,
            ) && final(self).devices@.len() == old(self).devices@.len() + 2
                && final(self).devices@[old(self).devices@.len() as int]@ == all_name(),
            (old(self).initialized || !mount_names(old(mounts).entries()).contains(kbd_name())) ==> {
                &&& final(self).initialized
                &&& hnd == old(self).next_dev
                &&& final(self).next_dev == old(self).next_dev + 1
                &&& final(self).devices@.last()@ == name@
            },
            old(self).initialized ==> hnd == old(self).next_dev && final(self).devices@.len() == old(self).devices@.len() + 1,
            final(self).devices@.len() >= old(self).devices@.len(),
            forall|i: int|
                0 <= i < old(self).devices@.len() ==> #[trigger] final(self).devices@[i]@ == old(self).devices@[i]@,
            final(self).listeners@ == old(self).listeners@,
            final(self).next_hnd == old(self).next_hnd,
            final(self).lshift == old(self).lshift && final(self).rshift == old(self).rshift,
            final(self).last_keycode == old(self).last_keycode,
    {
        if !self.initialized {
            let kbd: [u8; 3] = [0x6b, 0x62, 0x64];
            assert(kbd@ =~= kbd_name());
            let mnt_obj = MountPoint::new(&kbd, DRV_KEYBOARD);
            if !MountPoint::mount(mounts, mnt_obj) {
                return 0;
            }
            let all: [u8; 3] = [0x61, 0x6c, 0x6c];
            assert(all@ =~= all_name());
            self.devices.push(bytes_to_vec(&all));
            self.initialized = true;
        }
        self.devices.push(bytes_to_vec(name));
        let dev_hnd = self.next_dev;
        self.next_dev = self.next_dev + 1;
        dev_hnd
    }

    /// Forgets the last key code.
    pub fn clear_buffer(&mut self)
        ensures
            final(self).last_keycode == 0,
            final(self).listeners@ == old(self).listeners@,
            final(self).lshift == old(self).lshift,
            final(self).rshift == old(self).rshift,
    {
        self.last_keycode = 0;
    }

    /// Consumes the last key code and returns the character it types.
    pub fn pop_ascii(&mut self) -> (c: u8)
        ensures
            c == spec_keycode_to_ascii(old(self).last_keycode, old(self).lshift || old(self).rshift),
            final(self).last_keycode == 0,
            final(self).lshift == old(self).lshift,
            final(self).rshift == old(self).rshift,
            final(self).listeners@ == old(self).listeners@,
    {
        let kc = self.last_keycode;
        self.last_keycode = 0;
        self.keycode_to_ascii(kc)
    }

    /// The character a key code types with the current shift state.
    pub fn keycode_to_ascii(&self, keycode: u8) -> (c: u8)
        ensures
            c == spec_keycode_to_ascii(keycode, self.lshift || self.rshift),
    {
        keycode_to_ascii_shifted(keycode, self.lshift || self.rshift)
    }

    /// The key code that types an ASCII character (0 for none).
    pub fn ascii_to_keycode(ascii: u8) -> (code: u8)
        ensures
            ascii < 128 ==> code == spec_ascii_to_keycode_entry(ascii).0,
            ascii >= 128 ==> code == 0,
    {
        if ascii < 128 {
            ascii_to_keycode_entry(ascii).0
        } else {
            0
        }
    }

    /// The wait channel a task waiting for `event` sleeps on.
    pub fn wait_for_event(event: KeyboardEvent) -> (c: KbdChannel)
        ensures
            c == spec_event_channel(event),
    {
        match event {
            KeyboardEvent::KeyPressedOrReleased => KbdChannel::Any,
            KeyboardEvent::KeyPressed => KbdChannel::Press,
            KeyboardEvent::KeyReleased => KbdChannel::Release,
        }
    }

    /// The wait channels to wake once `code` is pushed.
    pub fn woken_channels(code: u8) -> (w: [KbdChannel; 2])
        ensures
            w@ == spec_woken_channels(code),
    {
        let w = if code & KEY_RELEASED != 0 {
            [KbdChannel::Release, KbdChannel::Any]
        } else {
            [KbdChannel::Press, KbdChannel::Any]
        };
        assert(w@ =~= spec_woken_channels(code));
        w
    }

    /// Delivers a key code from the keyboard `kbd_hnd` to the listeners and
    /// updates the shift state and the last key code.
    pub fn push(&mut self, kbd_hnd: usize, code: u8)
        ensures
            final(self).listeners@.len() == old(self).listeners@.len(),
            forall|i: int|
                0 <= i < old(self).listeners@.len() ==> {
                    let o = #[trigger] old(self).listeners@[i];
                    let n = final(self).listeners@[i];
                    &&& n.lhnd == o.lhnd
                    &&& n.dhnd == o.dhnd
                    &&& n.events@ == if listener_gets(o.dhnd, kbd_hnd) {
                        o.events@.push(code)
                    } else {
                        o.events@
                    }
                },
            code & 0x7F == KEYCODE_LEFT_SHIFT ==> final(self).lshift == (code & KEY_RELEASED == 0)
                && final(self).rshift == old(self).rshift && final(self).last_keycode == old(self).last_keycode,
            code & 0x7F == KEYCODE_RIGHT_SHIFT ==> final(self).rshift == (code & KEY_RELEASED == 0)
                && final(self).lshift == old(self).lshift && final(self).last_keycode == old(self).last_keycode,
            code & 0x7F != KEYCODE_LEFT_SHIFT && code & 0x7F != KEYCODE_RIGHT_SHIFT ==> final(self).last_keycode == code && final(self).lshift == old(self).lshift && final(self).rshift
                == old(self).rshift,
            final(self).devices@ == old(self).devices@,
            final(self).next_hnd == old(self).next_hnd,
            final(self).next_dev == old(self).next_dev,
            final(self).initialized == old(self).initialized,
    {
        let ghost old_l = self.listeners@;
        let mut i: usize = 0;
        while i < self.listeners.len()
            invariant
                i <= self.listeners@.len(),
                self.listeners@.len() == old_l.len(),
                self.lshift == old(self).lshift,
                self.rshift == old(self).rshift,
                self.last_keycode == old(self).last_keycode,
                self.devices@ == old(self).devices@,
                self.next_hnd == old(self).next_hnd,
                self.next_dev == old(self).next_dev,
                self.initialized == old(self).initialized,
                forall|j: int|
                    0 <= j < old_l.len() ==> {
                        let o = #[trigger] old_l[j];
                        let n = self.listeners@[j];
                        &&& n.lhnd == o.lhnd
                        &&& n.dhnd == o.dhnd
                        &&& n.events@ == if j < i && listener_gets(o.dhnd, kbd_hnd) {
                            o.events@.push(code)
                        } else {
                            o.events@
                        }
                    },
            decreases self.listeners@.len() - i,
        {
            if self.listeners[i].dhnd == KBD_ALL_HND || self.listeners[i].dhnd == kbd_hnd {
                let mut l = self.listeners.remove(i);
                l.events.push(code);
                self.listeners.insert(i, l);
            }
            i = i + 1;
        }
        if code & 0x7F == KEYCODE_LEFT_SHIFT {
            self.lshift = code & KEY_RELEASED == 0;
        } else if code & 0x7F == KEYCODE_RIGHT_SHIFT {
            self.rshift = code & KEY_RELEASED == 0;
        } else {
            self.last_keycode = code;
        }
    }

    /// Delivers the key presses and releases that type `ascii`.
    pub fn push_ascii(&mut self, kbd_hnd: usize, ascii: u8)
        ensures
            final(self).listeners@.len() == old(self).listeners@.len(),
            forall|i: int|
                0 <= i < old(self).listeners@.len() ==> {
                    let o = #[trigger] old(self).listeners@[i];
                    let n = final(self).listeners@[i];
                    &&& n.lhnd == o.lhnd
                    &&& n.dhnd == o.dhnd
                    &&& n.events@ == if listener_gets(o.dhnd, kbd_hnd) && ascii < 128 {
                        o.events@ + spec_ascii_key_events(ascii)
                    } else {
                        o.events@
                    }
                },
            final(self).rshift == old(self).rshift,
            ascii < 128 && spec_ascii_to_keycode_entry(ascii).0 != 0 ==> {
                let (code, shift) = spec_ascii_to_keycode_entry(ascii);
                &&& final(self).last_keycode == code | KEY_RELEASED
                &&& final(self).lshift == if shift { false } else { old(self).lshift }
            },
            ascii >= 128 || spec_ascii_to_keycode_entry(ascii).0 == 0 ==> final(self).last_keycode
                == old(self).last_keycode && final(self).lshift == old(self).lshift,
            final(self).devices@ == old(self).devices@,
            final(self).next_hnd == old(self).next_hnd,
            final(self).next_dev == old(self).next_dev,
            final(self).initialized == old(self).initialized,
    {
        let ghost old_l = self.listeners@;
        let (code, shift) = if ascii < 128 {
            ascii_to_keycode_entry(ascii)
        } else {
            (0, false)
        };
        if code == 0 {
            assert forall|i: int| 0 <= i < old_l.len() implies #[trigger] old_l[i].events@
                =~= old_l[i].events@ + spec_ascii_key_events(ascii) by {}
            return;
        }
        proof { lemma_table_codes(ascii); }
        let rel = code | KEY_RELEASED;
        assert((code | 0x80u8) & 0x7F == code & 0x7F) by (bit_vector);
        assert(code < 0x80 ==> code & 0x7F == code) by (bit_vector);
        if shift {
            self.push(kbd_hnd, KEYCODE_LEFT_SHIFT);
        }
        self.push(kbd_hnd, code);
        self.push(kbd_hnd, rel);
        if shift {
            assert((KEYCODE_LEFT_SHIFT | KEY_RELEASED) & 0x7F == KEYCODE_LEFT_SHIFT) by (bit_vector);
            assert((KEYCODE_LEFT_SHIFT | KEY_RELEASED) & KEY_RELEASED != 0) by (bit_vector);
            assert(KEYCODE_LEFT_SHIFT & KEY_RELEASED == 0) by (bit_vector);
            assert(KEYCODE_LEFT_SHIFT & 0x7F == KEYCODE_LEFT_SHIFT) by (bit_vector);
            self.push(kbd_hnd, KEYCODE_LEFT_SHIFT | KEY_RELEASED);
        }
        assert forall|i: int| 0 <= i < old_l.len() implies {
            let o = #[trigger] old_l[i];
            let n = self.listeners@[i];
            n.events@ == if listener_gets(o.dhnd, kbd_hnd) && ascii < 128 {
                o.events@ + spec_ascii_key_events(ascii)
            } else {
                o.events@
            }
        } by {
            let o = old_l[i];
            if listener_gets(o.dhnd, kbd_hnd) {
                if shift {
                    assert(self.listeners@[i].events@ =~= o.events@ + spec_ascii_key_events(ascii));
                } else {
                    assert(self.listeners@[i].events@ =~= o.events@ + spec_ascii_key_events(ascii));
                }
            }
        }
    }
}

/// Table key codes are real key codes: below 0x80 and not a shift key.
proof fn lemma_table_codes(ascii: u8)
    requires
        ascii < 128,
    ensures
        spec_ascii_to_keycode_entry(ascii).0 < 0x58,
        spec_ascii_to_keycode_entry(ascii).0 != KEYCODE_LEFT_SHIFT,
        spec_ascii_to_keycode_entry(ascii).0 != KEYCODE_RIGHT_SHIFT,
{
    if 65 <= ascii <= 90 || 97 <= ascii <= 122 {
        let i: int = if ascii <= 90 { ascii - 65 } else { ascii - 97 };
        assert(0 <= i < 26);
        assert(letter_codes()[i] < 0x58 && letter_codes()[i] != 0x2A && letter_codes()[i] != 0x36)
            by {
            assert(i == 0 || i == 1 || i == 2 || i == 3 || i == 4 || i == 5 || i == 6 || i == 7
                || i == 8 || i == 9 || i == 10 || i == 11 || i == 12 || i == 13 || i == 14 || i == 15
                || i == 16 || i == 17 || i == 18 || i == 19 || i == 20 || i == 21 || i == 22 || i == 23
                || i == 24 || i == 25);
        }
    }
}


// ---------------------------------------------------------------------------
// Keyboard file interface (kbd:)
// ---------------------------------------------------------------------------

/// The device-relative part of a full path.
pub open spec fn spec_relative_path(path: Seq<u8>) -> Seq<u8> {
    if contains_byte(path, 0x3a) {
        path.subrange(first_index(path, 0x3a) + 1, path.len() as int)
    } else {
        path
    }
}

/// The bytes `"/"`.
pub open spec fn root_path() -> Seq<u8> {
    seq![0x2fu8]
}

/// `"/" + name`.
pub open spec fn slash_path(name: Seq<u8>) -> Seq<u8> {
    root_path() + name
}

/// Whether `path` is `"/"` followed by `name`.
pub fn is_slash_name(path: &[u8], name: &[u8]) -> (r: bool)
    ensures
        r == (path@ == slash_path(name@)),
{
    if path.len() == 0 || name.len() >= path.len() || path.len() - 1 != name.len() {
        proof {
            if path@ == slash_path(name@) {
                assert(path@.len() == name@.len() + 1);
            }
        }
        return false;
    }
    if path[0] != 0x2f {
        proof {
            if path@ == slash_path(name@) {
                assert(path@[0] == slash_path(name@)[0]);
            }
        }
        return false;
    }
    let mut i: usize = 0;
    while i < name.len()
        invariant
            path@.len() == name@.len() + 1,
            path@[0] == 0x2f,
            i <= name@.len(),
            forall|j: int| 0 <= j < i ==> path@[j + 1] == name@[j],
        decreases name@.len() - i,
    {
        if path[i + 1] != name[i] {
            proof {
                if path@ == slash_path(name@) {
                    assert(path@[i + 1] == slash_path(name@)[i + 1]);
                }
            }
            return false;
        }
        i = i + 1;
    }
    assert(path@ =~= slash_path(name@));
    true
}

/// The index of the first device whose name matches `"/" + name`.
pub open spec fn first_device_match(devices: Seq<Vec<u8>>, path: Seq<u8>, k: int) -> bool {
    &&& 0 <= k < devices.len()
    &&& path == slash_path(devices[k]@)
    &&& forall|j: int| 0 <= j < k ==> path != slash_path(#[trigger] devices[j]@)
}

impl Keyboard {
    fn find_listener(&self, hnd: usize) -> (r: Option<usize>)
        ensures
            match r {
                Some(i) => i < self.listeners@.len() && self.listeners@[i as int].lhnd == hnd
                    && forall|j: int| 0 <= j < i ==> self.listeners@[j].lhnd != hnd,
                None => forall|j: int| 0 <= j < self.listeners@.len() ==> self.listeners@[j].lhnd != hnd,
            },
    {
        let mut i: usize = 0;
        while i < self.listeners.len()
            invariant
                i <= self.listeners@.len(),
                forall|j: int| 0 <= j < i ==> self.listeners@[j].lhnd != hnd,
            decreases self.listeners@.len() - i,
        {
            if self.listeners[i].lhnd == hnd {
                return Some(i);
            }
            i = i + 1;
        }
        None
    }

    fn add_listener(&mut self, dhnd: usize) -> (hnd: usize)
        ensures
            hnd == old(self).next_hnd,
            final(self).next_hnd == old(self).next_hnd.wrapping_add(1),
            final(self).listeners@.len() == old(self).listeners@.len() + 1,
            forall|i: int| 0 <= i < old(self).listeners@.len() ==> #[trigger] final(self).listeners@[i]
                == old(self).listeners@[i],
            final(self).listeners@.last().lhnd == hnd,
            final(self).listeners@.last().dhnd == dhnd,
            final(self).listeners@.last().events@.len() == 0,
            final(self).devices@ == old(self).devices@,
            final(self).next_dev == old(self).next_dev,
            final(self).initialized == old(self).initialized,
            final(self).lshift == old(self).lshift,
            final(self).rshift == old(self).rshift,
            final(self).last_keycode == old(self).last_keycode,
    {
        let hnd = self.next_hnd;
        self.listeners.push(KeyboardListener { lhnd: hnd, dhnd, events: Vec::new() });
        self.next_hnd = self.next_hnd.wrapping_add(1);
        hnd
    }
}

/// `k` is the index of the first listener with the handle `hnd`.
pub open spec fn first_listener(ls: Seq<KeyboardListener>, hnd: usize, k: int) -> bool {
    &&& 0 <= k < ls.len()
    &&& ls[k].lhnd == hnd
    &&& forall|j: int| 0 <= j < k ==> ls[j].lhnd != hnd
}

/// A read of `n` codes from the listener `hnd`, found at index `k`: the
/// first `n` pending codes move into the buffer and nothing else changes.
pub open spec fn listener_read(
    old_ls: Seq<KeyboardListener>,
    new_ls: Seq<KeyboardListener>,
    hnd: usize,
    k: int,
    old_buff: Seq<u8>,
    new_buff: Seq<u8>,
    n: int,
) -> bool {
    &&& 0 <= k < old_ls.len()
    &&& old_ls[k].lhnd == hnd
    &&& forall|j: int| 0 <= j < k ==> old_ls[j].lhnd != hnd
    &&& new_ls.len() == old_ls.len()
    &&& {
        let ev = old_ls[k].events@;
        &&& n == if ev.len() < old_buff.len() {
            ev.len() as int
        } else {
            old_buff.len() as int
        }
        &&& new_buff == ev.subrange(0, n) + old_buff.subrange(n, old_buff.len() as int)
        &&& new_ls[k].events@ == ev.subrange(n, ev.len() as int)
        &&& new_ls[k].lhnd == hnd
        &&& new_ls[k].dhnd == old_ls[k].dhnd
    }
    &&& forall|j: int| 0 <= j < old_ls.len() && j != k ==> #[trigger] new_ls[j] == old_ls[j]
}

impl FileOps for Keyboard {
    open spec fn open_spec(
        &self,
        path: Seq<u8>,
        mode: usize,
        dent: DirectoryEntry,
        r: Result<usize, Error>,
        nd: DirectoryEntry,
        ns: Self,
    ) -> bool {
        &&& ({
            let p = spec_relative_path(path);
            if p == root_path() {
                &&& r == Ok::<usize, Error>(KBD_ROOT_HND)
                &&& nd.name@.len() == 0 && nd.size == 0
                &&& nd.flags == DEV_RX_DIR_FLAGS
                &&& ns.listeners@ == self.listeners@
            } else if p == slash_path(all_name()) {
                &&& r == Ok::<usize, Error>(self.next_hnd)
                &&& nd.name@ == all_name() && nd.size == KBD_BUFF_SIZE
                &&& nd.flags == DEV_RX_FILE_FLAGS
                &&& ns.listeners@.len() == self.listeners@.len() + 1
                &&& ns.listeners@.last().lhnd == self.next_hnd
                &&& ns.listeners@.last().dhnd == KBD_ALL_HND
                &&& ns.listeners@.last().events@.len() == 0
            } else if exists|k: int| first_device_match(self.devices@, p, k) {
                let k = choose|k: int| first_device_match(self.devices@, p, k);
                &&& r == Ok::<usize, Error>(self.next_hnd)
                &&& nd.name@ == self.devices@[k]@
                &&& nd.size == KBD_BUFF_SIZE
                &&& nd.flags == DEV_RX_FILE_FLAGS
                &&& ns.listeners@.len() == self.listeners@.len() + 1
                &&& ns.listeners@.last().lhnd == self.next_hnd
                &&& ns.listeners@.last().dhnd == k + KBD_ALL_HND
                &&& ns.listeners@.last().events@.len() == 0
            } else {
                &&& is_err_code(r, ErrorCode::InvalidPath)
                &&& ns.listeners@ == self.listeners@
            }
        })
        &&& ns.devices@ == self.devices@
        &&& forall|i: int| 0 <= i < self.listeners@.len() ==> #[trigger] ns.listeners@[i]
            == self.listeners@[i]
    }

    open spec fn read_spec(
        &self,
        hnd: usize,
        off: usize,
        buff: Seq<u8>,
        r: Result<usize, Error>,
        nb: Seq<u8>,
        ns: Self,
    ) -> bool {
        &&& (forall|j: int| 0 <= j < self.listeners@.len() ==> self.listeners@[j].lhnd != hnd)
            ==> is_err_code(r, ErrorCode::InvalidHandle) && ns.listeners@ == self.listeners@
        &&& forall|k: int|
            #![trigger first_listener(self.listeners@, hnd, k)]
            first_listener(self.listeners@, hnd, k) ==> (r matches Ok(n) && listener_read(
                self.listeners@,
                ns.listeners@,
                hnd,
                k,
                buff,
                nb,
                n as int,
            ))
        &&& r is Err ==> nb == buff
        &&& ns.listeners@.len() == self.listeners@.len()
        &&& ns.devices@ == self.devices@
    }

    open spec fn write_spec(&self, hnd: usize, off: usize, buff: Seq<u8>, r: Result<usize, Error>, ns: Self) -> bool {
        is_err_code(r, ErrorCode::InvalidOp)
    }

    open spec fn enum_spec(
        &self,
        hnd: usize,
        out: Seq<DirectoryEntry>,
        r: Result<usize, Error>,
        nout: Seq<DirectoryEntry>,
        ns: Self,
    ) -> bool {
        &&& hnd != KBD_ROOT_HND ==> is_err_code(r, ErrorCode::InvalidOp) && nout == out
        &&& hnd == KBD_ROOT_HND ==> {
            &&& nout.len() == out.len() + self.devices@.len()
            &&& r == Ok::<usize, Error>(nout.len() as usize)
            &&& forall|i: int| 0 <= i < out.len() ==> #[trigger] nout[i] == out[i]
            &&& forall|i: int|
                0 <= i < self.devices@.len() ==> {
                    let e = #[trigger] nout[out.len() + i];
                    e.name@ == self.devices@[i]@ && e.size == KBD_BUFF_SIZE && e.flags == DEV_R_FILE_FLAGS
                }
        }
        &&& ns.listeners@ == self.listeners@
        &&& ns.devices@ == self.devices@
    }

    open spec fn exec_spec(
        &self,
        hnd: usize,
        func: usize,
        buff: Seq<u8>,
        r: Result<usize, Error>,
        nb: Seq<u8>,
        ns: Self,
    ) -> bool {
        is_err_code(r, ErrorCode::InvalidOp)
    }

    open spec fn close_spec(&self, hnd: usize, r: Result<usize, Error>, ns: Self) -> bool {
        &&& (forall|j: int| 0 <= j < self.listeners@.len() ==> self.listeners@[j].lhnd != hnd)
            ==> is_err_code(r, ErrorCode::InvalidHandle) && ns.listeners@ == self.listeners@
        &&& forall|k: int| #[trigger] first_listener(self.listeners@, hnd, k) ==> r == Ok::<usize, Error>(0)
            && ns.listeners@ == self.listeners@.remove(k)
        &&& ns.devices@ == self.devices@
        &&& ns.next_hnd == self.next_hnd && ns.next_dev == self.next_dev
        &&& ns.initialized == self.initialized
        &&& ns.lshift == self.lshift && ns.rshift == self.rshift
        &&& ns.last_keycode == self.last_keycode
    }

    /// `kbd:/` is the device directory; `kbd:/all` and `kbd:/<device>` open a
    /// new listener queue and return its handle.
    fn fop_open(&mut self, full_path: &[u8], mode: usize, dent: &mut DirectoryEntry) -> (r: Result<
        usize,
        Error,
    >)
        ensures
            ({
                let p = spec_relative_path(full_path@);
                if p == root_path() {
                    &&& r == Ok::<usize, Error>(KBD_ROOT_HND)
                    &&& final(dent).name@.len() == 0 && final(dent).size == 0
                    &&& final(dent).flags == DEV_RX_DIR_FLAGS
                    &&& final(self).listeners@ == old(self).listeners@
                } else if p == slash_path(all_name()) {
                    &&& r == Ok::<usize, Error>(old(self).next_hnd)
                    &&& final(dent).name@ == all_name() && final(dent).size == KBD_BUFF_SIZE
                    &&& final(dent).flags == DEV_RX_FILE_FLAGS
                    &&& final(self).listeners@.len() == old(self).listeners@.len() + 1
                    &&& final(self).listeners@.last().lhnd == old(self).next_hnd
                    &&& final(self).listeners@.last().dhnd == KBD_ALL_HND
                    &&& final(self).listeners@.last().events@.len() == 0
                } else if exists|k: int| first_device_match(old(self).devices@, p, k) {
                    let k = choose|k: int| first_device_match(old(self).devices@, p, k);
                    &&& r == Ok::<usize, Error>(old(self).next_hnd)
                    &&& final(dent).name@ == old(self).devices@[k]@
                    &&& final(dent).size == KBD_BUFF_SIZE
                    &&& final(dent).flags == DEV_RX_FILE_FLAGS
                    &&& final(self).listeners@.len() == old(self).listeners@.len() + 1
                    &&& final(self).listeners@.last().lhnd == old(self).next_hnd
                    &&& final(self).listeners@.last().dhnd == k + KBD_ALL_HND
                    &&& final(self).listeners@.last().events@.len() == 0
                } else {
                    &&& is_err_code(r, ErrorCode::InvalidPath)
                    &&& final(self).listeners@ == old(self).listeners@
                }
            }),
            final(self).devices@ == old(self).devices@,
            forall|i: int| 0 <= i < old(self).listeners@.len() ==> #[trigger] final(self).listeners@[i]
                == old(self).listeners@[i],
    {
        let mpath = MountPoint::device_relative_path(full_path);
        assert(mpath@ == spec_relative_path(full_path@));
        let root: [u8; 1] = [0x2f];
        let all_p: [u8; 4] = [0x2f, 0x61, 0x6c, 0x6c];
        let all: [u8; 3] = [0x61, 0x6c, 0x6c];
        assert(root@ =~= root_path());
        assert(all@ =~= all_name());
        assert(all_p@ =~= slash_path(all_name()));
        if bytes_eq(mpath, &root) {
            dent.name = Vec::new();
            dent.size = 0;
            dent.flags = DEV_RX_DIR_FLAGS;
            return Ok(KBD_ROOT_HND);
        } else if bytes_eq(mpath, &all_p) {
            dent.name = bytes_to_vec(&all);
            dent.size = KBD_BUFF_SIZE;
            dent.flags = DEV_RX_FILE_FLAGS;
            let h = self.add_listener(KBD_ALL_HND);
            return Ok(h);
        } else {
            let mut i: usize = 0;
            while i < self.devices.len()
                invariant
                    i <= self.devices@.len(),
                    self.devices@ == old(self).devices@,
                    self.listeners@ == old(self).listeners@,
                    self.next_hnd == old(self).next_hnd,
                    mpath@ == spec_relative_path(full_path@),
                    mpath@ != root_path(),
                    mpath@ != slash_path(all_name()),
                    forall|j: int| 0 <= j < i ==> mpath@ != slash_path(#[trigger] self.devices@[j]@),
                decreases self.devices@.len() - i,
            {
                if is_slash_name(mpath, self.devices[i].as_slice()) {
                    dent.name = bytes_to_vec(self.devices[i].as_slice());
                    dent.size = KBD_BUFF_SIZE;
                    dent.flags = DEV_RX_FILE_FLAGS;
                    assert(first_device_match(old(self).devices@, mpath@, i as int));
                    proof {
                        let k = choose|k: int| first_device_match(old(self).devices@, mpath@, k);
                        if k < i {
                            assert(mpath@ != slash_path(self.devices@[k]@));
                        } else if k > i {
                            assert(mpath@ != slash_path(old(self).devices@[i as int]@));
                        }
                    }
                    let h = self.add_listener(i + KBD_ALL_HND);
                    return Ok(h);
                }
                i = i + 1;
            }
            return Err(Error::new(ErrorCode::InvalidPath));
        }
    }

    /// Only `kbd:/` lists entries: one per registered device.
    fn fop_enum(&mut self, hnd: usize, out: &mut Vec<DirectoryEntry>) -> (r: Result<usize, Error>)
        ensures
            hnd != KBD_ROOT_HND ==> is_err_code(r, ErrorCode::InvalidOp) && final(out)@ == old(out)@,
            hnd == KBD_ROOT_HND ==> {
                &&& final(out)@.len() == old(out)@.len() + old(self).devices@.len()
                &&& r == Ok::<usize, Error>(final(out)@.len() as usize)
                &&& forall|i: int| 0 <= i < old(out)@.len() ==> #[trigger] final(out)@[i] == old(out)@[i]
                &&& forall|i: int|
                    0 <= i < old(self).devices@.len() ==> {
                        let e = #[trigger] final(out)@[old(out)@.len() + i];
                        e.name@ == old(self).devices@[i]@ && e.size == KBD_BUFF_SIZE && e.flags
                            == DEV_R_FILE_FLAGS
                    }
            },
            final(self).listeners@ == old(self).listeners@,
            final(self).devices@ == old(self).devices@,
    {
        if hnd != KBD_ROOT_HND {
            return Err(Error::new(ErrorCode::InvalidOp));
        }
        let ghost base = out@.len();
        let mut i: usize = 0;
        while i < self.devices.len()
            invariant
                i <= self.devices@.len(),
                out@.len() == base + i,
                base == old(out)@.len(),
                forall|j: int| 0 <= j < base ==> #[trigger] out@[j] == old(out)@[j],
                forall|j: int|
                    0 <= j < i ==> {
                        let e = #[trigger] out@[base + j];
                        e.name@ == self.devices@[j]@ && e.size == KBD_BUFF_SIZE && e.flags
                            == DEV_R_FILE_FLAGS
                    },
            decreases self.devices@.len() - i,
        {
            out.push(DirectoryEntry::from_parts(self.devices[i].as_slice(), KBD_BUFF_SIZE, DEV_R_FILE_FLAGS));
            i = i + 1;
        }
        proof {
            assert forall|j: int| 0 <= j < old(self).devices@.len() implies {
                let e = #[trigger] out@[old(out)@.len() + j];
                e.name@ == old(self).devices@[j]@ && e.size == KBD_BUFF_SIZE && e.flags
                    == DEV_R_FILE_FLAGS
            } by {
                assert(out@[base + j] == out@[old(out)@.len() + j]);
            }
        }
        Ok(out.len())
    }

    /// Moves up to `buff.len()` pending codes of the listener `hnd` into `buff`.
    fn fop_read(&mut self, hnd: usize, off: usize, buff: &mut [u8]) -> (r: Result<usize, Error>)
        ensures
            (forall|j: int| 0 <= j < old(self).listeners@.len() ==> old(self).listeners@[j].lhnd
                != hnd) ==> is_err_code(r, ErrorCode::InvalidHandle) && final(self).listeners@
                == old(self).listeners@,
            forall|k: int|
                #![trigger first_listener(old(self).listeners@, hnd, k)]
                first_listener(old(self).listeners@, hnd, k) ==> (r matches Ok(n) && listener_read(
                    old(self).listeners@,
                    final(self).listeners@,
                    hnd,
                    k,
                    old(buff)@,
                    final(buff)@,
                    n as int,
                )),
            r is Err ==> final(buff)@ == old(buff)@,
            final(self).listeners@.len() == old(self).listeners@.len(),
            final(self).devices@ == old(self).devices@,
    {
        match self.find_listener(hnd) {
            None => Err(Error::new(ErrorCode::InvalidHandle)),
            Some(k) => {
                let ghost old_buff = buff@;
                let ghost ev = self.listeners@[k as int].events@;
                let mut l = self.listeners.remove(k);
                let mut bytes_written: usize = 0;
                while bytes_written < buff.len() && l.events.len() > 0
                    invariant
                        bytes_written <= old_buff.len(),
                        buff@.len() == old_buff.len(),
                        bytes_written <= ev.len(),
                        l.events@ == ev.subrange(bytes_written as int, ev.len() as int),
                        k < old(self).listeners@.len(),
                        l.lhnd == hnd,
                        l.dhnd == old(self).listeners@[k as int].dhnd,
                        buff@ == ev.subrange(0, bytes_written as int) + old_buff.subrange(
                            bytes_written as int,
                            old_buff.len() as int,
                        ),
                    decreases l.events@.len(),
                {
                    let c = l.events.remove(0);
                    buff[bytes_written] = c;
                    bytes_written = bytes_written + 1;
                    assert(buff@ =~= ev.subrange(0, bytes_written as int) + old_buff.subrange(
                        bytes_written as int,
                        old_buff.len() as int,
                    ));
                    assert(l.events@ =~= ev.subrange(bytes_written as int, ev.len() as int));
                }
                let ghost lnew = l;
                self.listeners.insert(k, l);
                proof {
                    let ki = k as int;
                    assert(self.listeners@[ki] == lnew);
                    assert forall|j: int|
                        0 <= j < old(self).listeners@.len() && j != ki implies #[trigger] self.listeners@[j]
                        == old(self).listeners@[j] by {
                        if j < ki {
                            assert(self.listeners@[j] == old(self).listeners@.remove(ki)[j]);
                        } else {
                            assert(self.listeners@[j] == old(self).listeners@.remove(ki)[j - 1]);
                        }
                    }
                    assert(old_buff == old(buff)@);
                    assert(listener_read(old(self).listeners@, self.listeners@, hnd, ki, old(buff)@, buff@, bytes_written as int));
                    assert forall|kk: int| first_listener(old(self).listeners@, hnd, kk) implies kk == ki by {
                        if kk < ki {
                        } else if kk > ki {
                            assert(old(self).listeners@[ki].lhnd == hnd);
                        }
                    }
                }
                return Ok(bytes_written);
            },
        }
    }

    fn fop_write(&mut self, hnd: usize, off: usize, buff: &[u8]) -> (r: Result<usize, Error>)
        ensures
            is_err_code(r, ErrorCode::InvalidOp),
    {
        Err(Error::new(ErrorCode::InvalidOp))
    }

    fn fop_exec(&mut self, hnd: usize, func: usize, buff: &mut [u8]) -> (r: Result<usize, Error>)
        ensures
            is_err_code(r, ErrorCode::InvalidOp),
    {
        Err(Error::new(ErrorCode::InvalidOp))
    }

    /// Removes the listener `hnd` (the first with that handle); fails for a
    /// handle no listener has.
    fn fop_close(&mut self, hnd: usize) -> (r: Result<usize, Error>)
        ensures
            (forall|j: int| 0 <= j < old(self).listeners@.len() ==> old(self).listeners@[j].lhnd
                != hnd) ==> is_err_code(r, ErrorCode::InvalidHandle) && final(self).listeners@
                == old(self).listeners@,
            forall|k: int| #[trigger] first_listener(old(self).listeners@, hnd, k) ==> r == Ok::<usize, Error>(0)
                && final(self).listeners@ == old(self).listeners@.remove(k),
            final(self).devices@ == old(self).devices@,
            final(self).next_hnd == old(self).next_hnd && final(self).next_dev == old(self).next_dev,
            final(self).initialized == old(self).initialized,
            final(self).lshift == old(self).lshift && final(self).rshift == old(self).rshift,
            final(self).last_keycode == old(self).last_keycode,
    {
        match self.find_listener(hnd) {
            Some(k) => {
                self.listeners.remove(k);
                Ok(0)
            },
            None => Err(Error::new(ErrorCode::InvalidHandle)),
        }
    }
}

// ---------------------------------------------------------------------------
// Mouse interface
// ---------------------------------------------------------------------------

pub const BTN_LEFT: u8 = 0x1;
pub const BTN_RIGHT: u8 = 0x2;
pub const BTN_MIDDLE: u8 = 0x4;
pub const MOUSE_ROOT_HND: usize = 0;
pub const MOUSE_ALL_HND: usize = 1;
pub const MOUSE_BUFF_SIZE: usize = 1024;

/// A mouse event: x, y, z and the button mask.
pub type MouseEvent = (u32, u32, u32, u16);

/// The mouse interface shared by all mouse drivers.
pub struct Mouse {
    pub cur_x: u32,
    pub cur_y: u32,
    pub max_x: u32,
    pub max_y: u32,
    /// +1: moving right increases x
    pub xdiv: i32,
    /// -1: moving up decreases y
    pub ydiv: i32,
    pub btns_sts: u8,
    /// Set when the first mouse driver registers
    pub initialized: bool,
    pub events: Vec<MouseEvent>,
    /// Whether the kernel GUI asked to be called on every event
    pub irq_cb: bool,
}

/// The bytes `"mouse"`.
pub open spec fn mouse_name() -> Seq<u8> {
    seq![0x6du8, 0x6fu8, 0x75u8, 0x73u8, 0x65u8]
}

/// The new coordinate after moving by `delta / div` (`div` being 1 or -1),
/// clipped to `[0, max]`.
pub open spec fn spec_clip_move(cur: u32, delta: i16, div: i32, max: u32) -> u32 {
    let d = if div < 0 { -(delta as int) } else { delta as int };
    let n = (cur as i32) as int + d;
    if 0 <= n && n < (max as i32) as int {
        n as u32
    } else if n < 0 {
        0
    } else {
        max
    }
}

/// A move keeps the cursor within the screen: never past its edge.
pub proof fn lemma_clip_move_in_screen(cur: u32, delta: i16, div: i32, max: u32)
    ensures
        spec_clip_move(cur, delta, div, max) <= max,
{
}

fn clip_move(cur: u32, delta: i16, div: i32, max: u32) -> (r: u32)
    requires
        div == 1 || div == -1,
    ensures
        r == spec_clip_move(cur, delta, div, max),
{
    let d: i64 = if div < 0 { -(delta as i64) } else { delta as i64 };
    let n: i64 = (cur as i32) as i64 + d;
    if n >= 0 && n < (max as i32) as i64 {
        n as u32
    } else if n < 0 {
        0
    } else {
        max
    }
}

impl Mouse {
    /// The mouse at (0, 0) in a 1000x1000 area, x growing right and y down.
    pub fn new() -> (m: Self)
        ensures
            m.cur_x == 0 && m.cur_y == 0 && m.max_x == 1000 && m.max_y == 1000,
            m.xdiv == 1 && m.ydiv == -1,
            m.btns_sts == 0 && !m.initialized && !m.irq_cb,
            m.events@.len() == 0,
    {
        Mouse {
            cur_x: 0,
            cur_y: 0,
            max_x: 1000,
            max_y: 1000,
            xdiv: 1,
            ydiv: -1,
            btns_sts: 0,
            initialized: false,
            events: Vec::new(),
            irq_cb: false,
        }
    }

    /// Mounts `mouse:` the first time a mouse driver registers.
    pub fn register_mouse(&mut self, mounts: &mut MountTable)
        requires
            old(mounts).wf(),
        ensures
            final(mounts).wf(),
            old(self).initialized ==> final(mounts).entries() == old(mounts).entries()
                && final(self).initialized,
            !old(self).initialized ==> final(self).initialized == !mount_names(
                old(mounts).entries(),
            ).contains(mouse_name()),
            !old(self).initialized && final(self).initialized ==> mount_map(final(mounts).entries())
                == mount_map(old(mounts).entries()).insert(mouse_name(), DRV_MOUSE),
            final(self).events@ == old(self).events@,
            final(self).cur_x == old(self).cur_x && final(self).cur_y == old(self).cur_y,
    {
        if !self.initialized {
            let name: [u8; 5] = [0x6d, 0x6f, 0x75, 0x73, 0x65];
            assert(name@ =~= mouse_name());
            if !MountPoint::mount(mounts, MountPoint::new(&name, DRV_MOUSE)) {
                return;
            }
            self.initialized = true;
        }
    }

    pub fn reset_coordinates(&mut self, cur_x: u32, cur_y: u32, max_x: u32, max_y: u32)
        ensures
            final(self).cur_x == cur_x && final(self).cur_y == cur_y,
            final(self).max_x == max_x && final(self).max_y == max_y,
            final(self).xdiv == old(self).xdiv && final(self).ydiv == old(self).ydiv,
            final(self).events@ == old(self).events@,
    {
        self.cur_x = cur_x;
        self.cur_y = cur_y;
        self.max_x = max_x;
        self.max_y = max_y;
    }

    /// Asks for the GUI's callback to be run after every event.
    pub fn set_irq_callback(&mut self)
        ensures
            final(self).irq_cb,
            final(self).events@ == old(self).events@,
            final(self).cur_x == old(self).cur_x && final(self).cur_y == old(self).cur_y,
            final(self).xdiv == old(self).xdiv && final(self).ydiv == old(self).ydiv,
            final(self).max_x == old(self).max_x && final(self).max_y == old(self).max_y,
    {
        self.irq_cb = true;
    }

    pub fn current_position(&self) -> (p: (u32, u32))
        ensures
            p == (self.cur_x, self.cur_y),
    {
        (self.cur_x, self.cur_y)
    }

    /// Moves the cursor by the given deltas (clipped to the screen), records
    /// the event and returns whether the GUI callback is to be run.
    pub fn push(&mut self, delta_x: i16, delta_y: i16, btn_mask: u8) -> (run_cb: bool)
        requires
            old(self).xdiv == 1 || old(self).xdiv == -1,
            old(self).ydiv == 1 || old(self).ydiv == -1,
        ensures
            final(self).cur_x == spec_clip_move(old(self).cur_x, delta_x, old(self).xdiv, old(self).max_x),
            final(self).cur_y == spec_clip_move(old(self).cur_y, delta_y, old(self).ydiv, old(self).max_y),
            final(self).btns_sts == btn_mask,
            final(self).events@ == old(self).events@.push(
                (final(self).cur_x, final(self).cur_y, 0u32, btn_mask as u16),
            ),
            run_cb == old(self).irq_cb,
            final(self).max_x == old(self).max_x && final(self).max_y == old(self).max_y,
            final(self).xdiv == old(self).xdiv && final(self).ydiv == old(self).ydiv,
            final(self).irq_cb == old(self).irq_cb,
            final(self).initialized == old(self).initialized,
    {
        self.btns_sts = btn_mask;
        self.cur_x = clip_move(self.cur_x, delta_x, self.xdiv, self.max_x);
        self.cur_y = clip_move(self.cur_y, delta_y, self.ydiv, self.max_y);
        let event = (self.cur_x, self.cur_y, 0, self.btns_sts as u16);
        self.events.push(event);
        self.irq_cb
    }
}

/// The text line a mouse event reads as: `x,y,z,buttons\n` in hexadecimal.
pub open spec fn mouse_event_text(e: MouseEvent) -> Seq<u8> {
    hex_text(e.0 as nat) + seq![0x2cu8] + hex_text(e.1 as nat) + seq![0x2cu8] + hex_text(e.2 as nat)
        + seq![0x2cu8] + hex_text(e.3 as nat) + seq![0x0au8]
}

pub fn mouse_event_line(e: MouseEvent) -> (t: Vec<u8>)
    ensures
        t@ == mouse_event_text(e),
{
    let mut t: Vec<u8> = Vec::new();
    push_hex(&mut t, e.0 as u64);
    t.push(0x2c);
    push_hex(&mut t, e.1 as u64);
    t.push(0x2c);
    push_hex(&mut t, e.2 as u64);
    t.push(0x2c);
    push_hex(&mut t, e.3 as u64);
    t.push(0x0a);
    assert(t@ =~= mouse_event_text(e));
    t
}

/// Reading mouse events into `room` bytes: the text written and the number of
/// events consumed. Events whose line does not fit are dropped.
pub open spec fn spec_mouse_drain(events: Seq<MouseEvent>, room: int) -> (Seq<u8>, int)
    decreases events.len(),
{
    if room <= 0 || events.len() == 0 {
        (Seq::empty(), 0)
    } else {
        let line = mouse_event_text(events[0]);
        if line.len() <= room {
            let rest = spec_mouse_drain(events.drop_first(), room - line.len());
            (line + rest.0, rest.1 + 1)
        } else {
            let rest = spec_mouse_drain(events.drop_first(), room);
            (rest.0, rest.1 + 1)
        }
    }
}

proof fn lemma_mouse_drain_bounds(events: Seq<MouseEvent>, room: int)
    ensures
        spec_mouse_drain(events, room).0.len() <= if room < 0 { 0 } else { room },
        0 <= spec_mouse_drain(events, room).1 <= events.len(),
    decreases events.len(),
{
    if room <= 0 || events.len() == 0 {
    } else {
        let line = mouse_event_text(events[0]);
        if line.len() <= room {
            lemma_mouse_drain_bounds(events.drop_first(), room - line.len());
        } else {
            lemma_mouse_drain_bounds(events.drop_first(), room);
        }
    }
}

impl FileOps for Mouse {
    open spec fn open_spec(
        &self,
        path: Seq<u8>,
        mode: usize,
        dent: DirectoryEntry,
        r: Result<usize, Error>,
        nd: DirectoryEntry,
        ns: Self,
    ) -> bool {
        &&& spec_relative_path(path) == root_path() ==> r == Ok::<usize, Error>(MOUSE_ROOT_HND)
            && nd.name@.len() == 0 && nd.size == 0 && nd.flags == DEV_RX_DIR_FLAGS
        &&& spec_relative_path(path) == slash_path(all_name()) ==> r == Ok::<usize, Error>(
            MOUSE_ALL_HND,
        ) && nd.name@ == all_name() && nd.size == MOUSE_BUFF_SIZE && nd.flags == DEV_RX_FILE_FLAGS
        &&& spec_relative_path(path) != root_path() && spec_relative_path(path) != slash_path(
            all_name(),
        ) ==> is_err_code(r, ErrorCode::InvalidPath)
        &&& ns.events@ == self.events@
    }

    open spec fn read_spec(
        &self,
        hnd: usize,
        off: usize,
        buff: Seq<u8>,
        r: Result<usize, Error>,
        nb: Seq<u8>,
        ns: Self,
    ) -> bool {
        &&& hnd != MOUSE_ALL_HND ==> is_err_code(r, ErrorCode::InvalidHandle) && ns.events@
            == self.events@ && nb == buff
        &&& hnd == MOUSE_ALL_HND ==> {
            let (text, k) = spec_mouse_drain(self.events@, buff.len() as int);
            &&& r == Ok::<usize, Error>(text.len() as usize)
            &&& nb == text + buff.subrange(text.len() as int, buff.len() as int)
            &&& ns.events@ == self.events@.subrange(k, self.events@.len() as int)
        }
    }

    open spec fn write_spec(&self, hnd: usize, off: usize, buff: Seq<u8>, r: Result<usize, Error>, ns: Self) -> bool {
        is_err_code(r, ErrorCode::InvalidOp)
    }

    open spec fn enum_spec(
        &self,
        hnd: usize,
        out: Seq<DirectoryEntry>,
        r: Result<usize, Error>,
        nout: Seq<DirectoryEntry>,
        ns: Self,
    ) -> bool {
        &&& hnd != MOUSE_ROOT_HND ==> is_err_code(r, ErrorCode::InvalidOp) && nout == out
        &&& hnd == MOUSE_ROOT_HND ==> nout.len() == out.len() + 1 && nout.last().name@ == all_name()
            && nout.last().size == MOUSE_BUFF_SIZE && nout.last().flags == DEV_R_FILE_FLAGS && r
            == Ok::<usize, Error>(nout.len() as usize) && nout.drop_last() == out
    }

    open spec fn exec_spec(
        &self,
        hnd: usize,
        func: usize,
        buff: Seq<u8>,
        r: Result<usize, Error>,
        nb: Seq<u8>,
        ns: Self,
    ) -> bool {
        is_err_code(r, ErrorCode::InvalidOp)
    }

    open spec fn close_spec(&self, hnd: usize, r: Result<usize, Error>, ns: Self) -> bool {
        r == Ok::<usize, Error>(0)
    }

    /// `mouse:/` is the device directory and `mouse:/all` the event stream.
    fn fop_open(&mut self, full_path: &[u8], mode: usize, dent: &mut DirectoryEntry) -> (r: Result<
        usize,
        Error,
    >)
        ensures
            spec_relative_path(full_path@) == root_path() ==> r == Ok::<usize, Error>(
                MOUSE_ROOT_HND,
            ) && final(dent).name@.len() == 0 && final(dent).size == 0 && final(dent).flags
                == DEV_RX_DIR_FLAGS,
            spec_relative_path(full_path@) == slash_path(all_name()) ==> r == Ok::<usize, Error>(
                MOUSE_ALL_HND,
            ) && final(dent).name@ == all_name() && final(dent).size == MOUSE_BUFF_SIZE
                && final(dent).flags == DEV_RX_FILE_FLAGS,
            spec_relative_path(full_path@) != root_path() && spec_relative_path(full_path@)
                != slash_path(all_name()) ==> is_err_code(r, ErrorCode::InvalidPath),
            final(self).events@ == old(self).events@,
    {
        let mpath = MountPoint::device_relative_path(full_path);
        let root: [u8; 1] = [0x2f];
        let all_p: [u8; 4] = [0x2f, 0x61, 0x6c, 0x6c];
        let all: [u8; 3] = [0x61, 0x6c, 0x6c];
        assert(root@ =~= root_path());
        assert(all@ =~= all_name());
        assert(all_p@ =~= slash_path(all_name()));
        if bytes_eq(mpath, &root) {
            dent.name = Vec::new();
            dent.size = 0;
            dent.flags = DEV_RX_DIR_FLAGS;
            Ok(MOUSE_ROOT_HND)
        } else if bytes_eq(mpath, &all_p) {
            dent.name = bytes_to_vec(&all);
            dent.size = MOUSE_BUFF_SIZE;
            dent.flags = DEV_RX_FILE_FLAGS;
            Ok(MOUSE_ALL_HND)
        } else {
            Err(Error::new(ErrorCode::InvalidPath))
        }
    }

    /// `mouse:/` lists the single entry `all`.
    fn fop_enum(&mut self, hnd: usize, out: &mut Vec<DirectoryEntry>) -> (r: Result<usize, Error>)
        ensures
            hnd != MOUSE_ROOT_HND ==> is_err_code(r, ErrorCode::InvalidOp) && final(out)@ == old(out)@,
            hnd == MOUSE_ROOT_HND ==> final(out)@.len() == old(out)@.len() + 1 && final(out)@.last().name@
                == all_name() && final(out)@.last().size == MOUSE_BUFF_SIZE && final(out)@.last().flags
                == DEV_R_FILE_FLAGS && r == Ok::<usize, Error>(final(out)@.len() as usize)
                && final(out)@.drop_last() == old(out)@,
    {
        if hnd != MOUSE_ROOT_HND {
            return Err(Error::new(ErrorCode::InvalidOp));
        }
        let all: [u8; 3] = [0x61, 0x6c, 0x6c];
        assert(all@ =~= all_name());
        out.push(DirectoryEntry::from_parts(&all, MOUSE_BUFF_SIZE, DEV_R_FILE_FLAGS));
        assert(out@.drop_last() =~= old(out)@);
        Ok(out.len())
    }

    /// Writes the pending events as text lines while they fit in `buff`.
    fn fop_read(&mut self, hnd: usize, off: usize, buff: &mut [u8]) -> (r: Result<usize, Error>)
        ensures
            hnd != MOUSE_ALL_HND ==> is_err_code(r, ErrorCode::InvalidHandle) && final(self).events@
                == old(self).events@ && final(buff)@ == old(buff)@,
            hnd == MOUSE_ALL_HND ==> {
                let (text, k) = spec_mouse_drain(old(self).events@, old(buff)@.len() as int);
                &&& r == Ok::<usize, Error>(text.len() as usize)
                &&& final(buff)@ == text + old(buff)@.subrange(text.len() as int, old(buff)@.len() as int)
                &&& final(self).events@ == old(self).events@.subrange(k, old(self).events@.len() as int)
            },
    {
        if hnd != MOUSE_ALL_HND {
            return Err(Error::new(ErrorCode::InvalidHandle));
        }
        let ghost ev0 = self.events@;
        let ghost buf0 = buff@;
        let mut bytes_written: usize = 0;
        let ghost mut consumed: int = 0;
        proof { lemma_mouse_drain_bounds(ev0, buf0.len() as int); }
        while bytes_written < buff.len() && self.events.len() > 0
            invariant
                buff@.len() == buf0.len(),
                bytes_written <= buf0.len(),
                0 <= consumed <= ev0.len(),
                self.events@ == ev0.subrange(consumed, ev0.len() as int),
                ({
                    let rest = spec_mouse_drain(self.events@, buf0.len() - bytes_written);
                    let all = spec_mouse_drain(ev0, buf0.len() as int);
                    &&& all.0 == buff@.subrange(0, bytes_written as int) + rest.0
                    &&& all.1 == consumed + rest.1
                }),
                buff@.subrange(bytes_written as int, buf0.len() as int) == buf0.subrange(
                    bytes_written as int,
                    buf0.len() as int,
                ),
            decreases self.events@.len(),
        {
            let ghost evs = self.events@;
            let ghost pre = buff@;
            let ghost room: int = buf0.len() - bytes_written;
            let event = self.events.remove(0);
            proof {
                consumed = consumed + 1;
                assert(self.events@ =~= evs.drop_first());
                assert(self.events@ =~= ev0.subrange(consumed, ev0.len() as int));
            }
            let dat = mouse_event_line(event);
            if buff.len() - bytes_written >= dat.len() {
                copy_at(buff, bytes_written, &dat);
                let ghost bw0 = bytes_written as int;
                bytes_written = bytes_written + dat.len();
                proof {
                    lemma_mouse_drain_bounds(self.events@, buf0.len() - bytes_written);
                    assert(buff@.subrange(0, bytes_written as int) =~= pre.subrange(0, bw0) + dat@);
                    assert(buff@.subrange(bytes_written as int, buf0.len() as int) =~= buf0.subrange(
                        bytes_written as int,
                        buf0.len() as int,
                    )) by {
                        assert forall|j: int| 0 <= j < buf0.len() - bytes_written implies
                            buff@.subrange(bytes_written as int, buf0.len() as int)[j]
                            == buf0.subrange(bytes_written as int, buf0.len() as int)[j] by {
                            assert(pre.subrange(bw0, buf0.len() as int)[bytes_written - bw0 + j]
                                == buf0.subrange(bw0, buf0.len() as int)[bytes_written - bw0 + j]);
                        }
                    }
                    let rest = spec_mouse_drain(self.events@, buf0.len() - bytes_written);
                    assert(pre.subrange(0, bw0) + (dat@ + rest.0) =~= buff@.subrange(
                        0,
                        bytes_written as int,
                    ) + rest.0);
                }
            }
        }
        proof {
            let rest = spec_mouse_drain(self.events@, buf0.len() - bytes_written);
            assert(rest.0.len() == 0 && rest.1 == 0);
            let all = spec_mouse_drain(ev0, buf0.len() as int);
            assert(all.0 =~= buff@.subrange(0, bytes_written as int));
            assert(buff@ =~= all.0 + buf0.subrange(all.0.len() as int, buf0.len() as int));
        }
        Ok(bytes_written)
    }

    fn fop_write(&mut self, hnd: usize, off: usize, buff: &[u8]) -> (r: Result<usize, Error>)
        ensures
            is_err_code(r, ErrorCode::InvalidOp),
    {
        Err(Error::new(ErrorCode::InvalidOp))
    }

    fn fop_exec(&mut self, hnd: usize, func: usize, buff: &mut [u8]) -> (r: Result<usize, Error>)
        ensures
            is_err_code(r, ErrorCode::InvalidOp),
    {
        Err(Error::new(ErrorCode::InvalidOp))
    }

    fn fop_close(&mut self, hnd: usize) -> (r: Result<usize, Error>)
        ensures
            r == Ok::<usize, Error>(0),
    {
        Ok(0)
    }
}

/// Key codes (code & 0x7F) of the keyboard interface.
#[derive(Clone, Copy, Debug, PartialEq, Eq, Structural)]
pub enum KeyCode {
    Escape,
    One,
    Two,
    Three,
    Four,
    Five,
    Six,
    Seven,
    Eight,
    Nine,
    Zero,
    MinusUnderscore,
    PlusEqual,
    Backspace,
    Tab,
    Q,
    W,
    E,
    R,
    T,
    Y,
    U,
    I,
    O,
    P,
    LeftBracket,
    RightBracket,
    Enter,
    LeftControl,
    A,
    S,
    D,
    F,
    G,
    H,
    J,
    K,
    L,
    SemicolonColon,
    ApostropheQuote,
    BacktickTilde,
    LeftShift,
    BackslashPipe,
    Z,
    X,
    C,
    V,
    B,
    N,
    M,
    CommaLeftAngle,
    DotRightAngle,
    SlashQuestion,
    RightShift,
    KeypadAsterisk,
    LeftAlt,
    Space,
    CapsLock,
    F1,
    F2,
    F3,
    F4,
    F5,
    F6,
    F7,
    F8,
    F9,
    F10,
    NumLock,
    ScrollLock,
    Numpad7,
    Numpad8,
    Numpad9,
    NumpadMinus,
    Numpad4,
    Numpad5,
    Numpad6,
    NumpadPlus,
    Numpad1,
    Numpad2,
    Numpad3,
    Numpad0,
    NumpadDot,
    F11,
    F12,
    ExtendedCode,
}

pub open spec fn spec_keycode_value(k: KeyCode) -> u8 {
    match k {
        KeyCode::Escape => 0x01,
        KeyCode::One => 0x02,
        KeyCode::Two => 0x03,
        KeyCode::Three => 0x04,
        KeyCode::Four => 0x05,
        KeyCode::Five => 0x06,
        KeyCode::Six => 0x07,
        KeyCode::Seven => 0x08,
        KeyCode::Eight => 0x09,
        KeyCode::Nine => 0x0A,
        KeyCode::Zero => 0x0B,
        KeyCode::MinusUnderscore => 0x0C,
        KeyCode::PlusEqual => 0x0D,
        KeyCode::Backspace => 0x0E,
        KeyCode::Tab => 0x0F,
        KeyCode::Q => 0x10,
        KeyCode::W => 0x11,
        KeyCode::E => 0x12,
        KeyCode::R => 0x13,
        KeyCode::T => 0x14,
        KeyCode::Y => 0x15,
        KeyCode::U => 0x16,
        KeyCode::I => 0x17,
        KeyCode::O => 0x18,
        KeyCode::P => 0x19,
        KeyCode::LeftBracket => 0x1A,
        KeyCode::RightBracket => 0x1B,
        KeyCode::Enter => 0x1C,
        KeyCode::LeftControl => 0x1D,
        KeyCode::A => 0x1E,
        KeyCode::S => 0x1F,
        KeyCode::D => 0x20,
        KeyCode::F => 0x21,
        KeyCode::G => 0x22,
        KeyCode::H => 0x23,
        KeyCode::J => 0x24,
        KeyCode::K => 0x25,
        KeyCode::L => 0x26,
        KeyCode::SemicolonColon => 0x27,
        KeyCode::ApostropheQuote => 0x28,
        KeyCode::BacktickTilde => 0x29,
        KeyCode::LeftShift => 0x2A,
        KeyCode::BackslashPipe => 0x2B,
        KeyCode::Z => 0x2C,
        KeyCode::X => 0x2D,
        KeyCode::C => 0x2E,
        KeyCode::V => 0x2F,
        KeyCode::B => 0x30,
        KeyCode::N => 0x31,
        KeyCode::M => 0x32,
        KeyCode::CommaLeftAngle => 0x33,
        KeyCode::DotRightAngle => 0x34,
        KeyCode::SlashQuestion => 0x35,
        KeyCode::RightShift => 0x36,
        KeyCode::KeypadAsterisk => 0x37,
        KeyCode::LeftAlt => 0x38,
        KeyCode::Space => 0x39,
        KeyCode::CapsLock => 0x3A,
        KeyCode::F1 => 0x3B,
        KeyCode::F2 => 0x3C,
        KeyCode::F3 => 0x3D,
        KeyCode::F4 => 0x3E,
        KeyCode::F5 => 0x3F,
        KeyCode::F6 => 0x40,
        KeyCode::F7 => 0x41,
        KeyCode::F8 => 0x42,
        KeyCode::F9 => 0x43,
        KeyCode::F10 => 0x44,
        KeyCode::NumLock => 0x45,
        KeyCode::ScrollLock => 0x46,
        KeyCode::Numpad7 => 0x47,
        KeyCode::Numpad8 => 0x48,
        KeyCode::Numpad9 => 0x49,
        KeyCode::NumpadMinus => 0x4A,
        KeyCode::Numpad4 => 0x4B,
        KeyCode::Numpad5 => 0x4C,
        KeyCode::Numpad6 => 0x4D,
        KeyCode::NumpadPlus => 0x4E,
        KeyCode::Numpad1 => 0x4F,
        KeyCode::Numpad2 => 0x50,
        KeyCode::Numpad3 => 0x51,
        KeyCode::Numpad0 => 0x52,
        KeyCode::NumpadDot => 0x53,
        KeyCode::F11 => 0x57,
        KeyCode::F12 => 0x58,
        KeyCode::ExtendedCode => 0x60,
    }
}

impl KeyCode {
    /// The key code (release bit clear) of the key.
    pub fn value(&self) -> (v: u8)
        ensures
            v == spec_keycode_value(*self),
    {
        match self {
            KeyCode::Escape => 0x01,
            KeyCode::One => 0x02,
            KeyCode::Two => 0x03,
            KeyCode::Three => 0x04,
            KeyCode::Four => 0x05,
            KeyCode::Five => 0x06,
            KeyCode::Six => 0x07,
            KeyCode::Seven => 0x08,
            KeyCode::Eight => 0x09,
            KeyCode::Nine => 0x0A,
            KeyCode::Zero => 0x0B,
            KeyCode::MinusUnderscore => 0x0C,
            KeyCode::PlusEqual => 0x0D,
            KeyCode::Backspace => 0x0E,
            KeyCode::Tab => 0x0F,
            KeyCode::Q => 0x10,
            KeyCode::W => 0x11,
            KeyCode::E => 0x12,
            KeyCode::R => 0x13,
            KeyCode::T => 0x14,
            KeyCode::Y => 0x15,
            KeyCode::U => 0x16,
            KeyCode::I => 0x17,
            KeyCode::O => 0x18,
            KeyCode::P => 0x19,
            KeyCode::LeftBracket => 0x1A,
            KeyCode::RightBracket => 0x1B,
            KeyCode::Enter => 0x1C,
            KeyCode::LeftControl => 0x1D,
            KeyCode::A => 0x1E,
            KeyCode::S => 0x1F,
            KeyCode::D => 0x20,
            KeyCode::F => 0x21,
            KeyCode::G => 0x22,
            KeyCode::H => 0x23,
            KeyCode::J => 0x24,
            KeyCode::K => 0x25,
            KeyCode::L => 0x26,
            KeyCode::SemicolonColon => 0x27,
            KeyCode::ApostropheQuote => 0x28,
            KeyCode::BacktickTilde => 0x29,
            KeyCode::LeftShift => 0x2A,
            KeyCode::BackslashPipe => 0x2B,
            KeyCode::Z => 0x2C,
            KeyCode::X => 0x2D,
            KeyCode::C => 0x2E,
            KeyCode::V => 0x2F,
            KeyCode::B => 0x30,
            KeyCode::N => 0x31,
            KeyCode::M => 0x32,
            KeyCode::CommaLeftAngle => 0x33,
            KeyCode::DotRightAngle => 0x34,
            KeyCode::SlashQuestion => 0x35,
            KeyCode::RightShift => 0x36,
            KeyCode::KeypadAsterisk => 0x37,
            KeyCode::LeftAlt => 0x38,
            KeyCode::Space => 0x39,
            KeyCode::CapsLock => 0x3A,
            KeyCode::F1 => 0x3B,
            KeyCode::F2 => 0x3C,
            KeyCode::F3 => 0x3D,
            KeyCode::F4 => 0x3E,
            KeyCode::F5 => 0x3F,
            KeyCode::F6 => 0x40,
            KeyCode::F7 => 0x41,
            KeyCode::F8 => 0x42,
            KeyCode::F9 => 0x43,
            KeyCode::F10 => 0x44,
            KeyCode::NumLock => 0x45,
            KeyCode::ScrollLock => 0x46,
            KeyCode::Numpad7 => 0x47,
            KeyCode::Numpad8 => 0x48,
            KeyCode::Numpad9 => 0x49,
            KeyCode::NumpadMinus => 0x4A,
            KeyCode::Numpad4 => 0x4B,
            KeyCode::Numpad5 => 0x4C,
            KeyCode::Numpad6 => 0x4D,
            KeyCode::NumpadPlus => 0x4E,
            KeyCode::Numpad1 => 0x4F,
            KeyCode::Numpad2 => 0x50,
            KeyCode::Numpad3 => 0x51,
            KeyCode::Numpad0 => 0x52,
            KeyCode::NumpadDot => 0x53,
            KeyCode::F11 => 0x57,
            KeyCode::F12 => 0x58,
            KeyCode::ExtendedCode => 0x60,
        }
    }
}

/// Codes that follow `KeyCode::ExtendedCode` for extended keys.
#[derive(Clone, Copy, Debug, PartialEq, Eq, Structural)]
pub enum ExtendedKeyCode {
    PrevTrack,
    NextTrack,
    NumpadEnter,
    RightControl,
    Mute,
    PlayPause,
    Stop,
    VolumeDown,
    VolumeUp,
    RightAlt,
    Home,
    Up,
    PageUp,
    Left,
    Right,
    End,
    Down,
    PageDown,
    Insert,
    Delete,
    LeftGUIButton,
    RightGUIButton,
    Apps,
}

pub open spec fn spec_extendedkeycode_value(k: ExtendedKeyCode) -> u8 {
    match k {
        ExtendedKeyCode::PrevTrack => 0x10,
        ExtendedKeyCode::NextTrack => 0x19,
        ExtendedKeyCode::NumpadEnter => 0x1C,
        ExtendedKeyCode::RightControl => 0x1D,
        ExtendedKeyCode::Mute => 0x20,
        ExtendedKeyCode::PlayPause => 0x22,
        ExtendedKeyCode::Stop => 0x24,
        ExtendedKeyCode::VolumeDown => 0x2E,
        ExtendedKeyCode::VolumeUp => 0x30,
        ExtendedKeyCode::RightAlt => 0x38,
        ExtendedKeyCode::Home => 0x47,
        ExtendedKeyCode::Up => 0x48,
        ExtendedKeyCode::PageUp => 0x49,
        ExtendedKeyCode::Left => 0x4B,
        ExtendedKeyCode::Right => 0x4D,
        ExtendedKeyCode::End => 0x4F,
        ExtendedKeyCode::Down => 0x50,
        ExtendedKeyCode::PageDown => 0x51,
        ExtendedKeyCode::Insert => 0x52,
        ExtendedKeyCode::Delete => 0x53,
        ExtendedKeyCode::LeftGUIButton => 0x5B,
        ExtendedKeyCode::RightGUIButton => 0x5C,
        ExtendedKeyCode::Apps => 0x5D,
    }
}

impl ExtendedKeyCode {
    /// The key code (release bit clear) of the key.
    pub fn value(&self) -> (v: u8)
        ensures
            v == spec_extendedkeycode_value(*self),
    {
        match self {
            ExtendedKeyCode::PrevTrack => 0x10,
            ExtendedKeyCode::NextTrack => 0x19,
            ExtendedKeyCode::NumpadEnter => 0x1C,
            ExtendedKeyCode::RightControl => 0x1D,
            ExtendedKeyCode::Mute => 0x20,
            ExtendedKeyCode::PlayPause => 0x22,
            ExtendedKeyCode::Stop => 0x24,
            ExtendedKeyCode::VolumeDown => 0x2E,
            ExtendedKeyCode::VolumeUp => 0x30,
            ExtendedKeyCode::RightAlt => 0x38,
            ExtendedKeyCode::Home => 0x47,
            ExtendedKeyCode::Up => 0x48,
            ExtendedKeyCode::PageUp => 0x49,
            ExtendedKeyCode::Left => 0x4B,
            ExtendedKeyCode::Right => 0x4D,
            ExtendedKeyCode::End => 0x4F,
            ExtendedKeyCode::Down => 0x50,
            ExtendedKeyCode::PageDown => 0x51,
            ExtendedKeyCode::Insert => 0x52,
            ExtendedKeyCode::Delete => 0x53,
            ExtendedKeyCode::LeftGUIButton => 0x5B,
            ExtendedKeyCode::RightGUIButton => 0x5C,
            ExtendedKeyCode::Apps => 0x5D,
        }
    }
}

} // verus!
