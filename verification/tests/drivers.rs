use blightos::fs::{DirectoryEntry, File, FileOps, MountTable};
use blightos::drivers::machine::{Machine, MachineFunc, DEV_HANDLE_DEFAULT, DEV_HANDLE_RAM};
use blightos::drivers::input::{Keyboard, Mouse};
use blightos::drivers::input::i8042::{decode_mouse_packet, I8042};
use blightos::drivers::input::i8046::I8046Keyboard;
use blightos::drivers::input::uartkbd::{escape_codes, UARTKeyboard, UartKbdState};
use blightos::drivers::kbd::{I8046Keyboard as LegacyKeyboard, KbdChannel};
use blightos::drivers::input::KeyboardEvent;
use blightos::{ErrorCode};

fn dent() -> DirectoryEntry {
    DirectoryEntry::new()
}

#[test]
fn machine_open_paths() {
    let m = Machine::new(4);
    let mut d = dent();
    assert_eq!(m.fops_open(b"machine:/", &mut d).unwrap(), DEV_HANDLE_DEFAULT);
    assert!(d.name.is_empty());
    let mut d = dent();
    assert_eq!(m.fops_open(b"machine:/cpu3", &mut d).unwrap(), 3);
    assert_eq!(d.name, b"cpu3".to_vec());
    let mut d = dent();
    assert_eq!(m.fops_open(b"machine:/cpu+2", &mut d).unwrap(), 2);
    assert_eq!(d.name, b"cpu2".to_vec());
    let mut d = dent();
    assert_eq!(m.fops_open(b"machine:/cpu4", &mut d).unwrap_err().code, ErrorCode::InvalidPath);
    assert_eq!(m.fops_open(b"machine:/cpu", &mut d).unwrap_err().code, ErrorCode::InvalidPath);
    assert_eq!(m.fops_open(b"machine:/cpux", &mut d).unwrap_err().code, ErrorCode::InvalidPath);
    let mut d = dent();
    assert_eq!(m.fops_open(b"machine:/ram", &mut d).unwrap(), DEV_HANDLE_RAM);
    assert_eq!((d.name.as_slice(), d.size), (&b"ram"[..], 128));
    assert_eq!(m.fops_open(b"machine:/disk", &mut d).unwrap_err().code, ErrorCode::InvalidPath);
}

#[test]
fn machine_lists_cpus_and_ram() {
    let m = Machine::new(2);
    let mut out = Vec::new();
    assert_eq!(m.fenum(DEV_HANDLE_DEFAULT, &mut out).unwrap(), 3);
    let names: Vec<Vec<u8>> = out.iter().map(|e| e.name.clone()).collect();
    assert_eq!(names, vec![b"cpu0".to_vec(), b"cpu1".to_vec(), b"ram".to_vec()]);
    assert_eq!(m.fenum(DEV_HANDLE_RAM, &mut out).unwrap_err().code, ErrorCode::InvalidOp);
}

#[test]
fn machine_reads_cpu_statistics() {
    let mut m = Machine::new(2);
    let mut buf = [0u8; 8];
    // nothing set yet: an empty file
    assert_eq!(m.fread(1, 0, &mut buf).unwrap(), 0);
    m.set_cpu_text(1, b"tasks: 3");
    assert_eq!(m.fread(1, 0, &mut buf).unwrap(), 8);
    assert_eq!(&buf, b"tasks: 3");
    assert_eq!(m.fread(0, 0, &mut buf).unwrap(), 0);
    // a processor that is not up has no file
    m.set_cpu_text(2, b"x");
    assert_eq!(m.fread(2, 0, &mut buf).unwrap_err().code, ErrorCode::InvalidOp);
    assert_eq!(m.fops_close(1).unwrap(), 0);
}

#[test]
fn machine_reads_ram_text_and_runs_functions() {
    let mut m = Machine::new(1);
    m.set_ram_text(b"Total: 10 Frames");
    let mut buf = [0u8; 5];
    assert_eq!(m.fread(DEV_HANDLE_RAM, 7, &mut buf).unwrap(), 5);
    assert_eq!(&buf, b"10 Fr");
    assert_eq!(m.fread(1, 0, &mut buf).unwrap_err().code, ErrorCode::InvalidOp);
    assert_eq!(m.fops_exec(DEV_HANDLE_DEFAULT, 1).unwrap(), 0);
    assert_eq!(m.take_request(), Some(MachineFunc::Reboot));
    assert_eq!(m.take_request(), None);
    assert_eq!(m.fops_exec(DEV_HANDLE_DEFAULT, 2).unwrap(), 0);
    assert_eq!(m.take_request(), Some(MachineFunc::SelfTest));
    assert_eq!(m.fops_exec(DEV_HANDLE_DEFAULT, 3).unwrap_err().code, ErrorCode::InvalidHandle);
    assert_eq!(m.fops_exec(DEV_HANDLE_RAM, 1).unwrap_err().code, ErrorCode::InvalidHandle);
    assert_eq!(m.fops_close(DEV_HANDLE_RAM).unwrap(), 0);
    assert_eq!(m.fops_close(0).unwrap(), 0);
    assert_eq!(m.fops_close(1).unwrap_err().code, ErrorCode::InvalidHandle);
    assert_eq!(m.fops_write(DEV_HANDLE_DEFAULT).unwrap_err().code, ErrorCode::InvalidOp);
}

#[test]
fn machine_mounts_once() {
    let mut t = MountTable::new();
    assert_eq!(Machine::enumerate(&mut t), 1);
    assert_eq!(Machine::enumerate(&mut t), 0);
}

#[test]
fn ps2_mouse_packets() {
    assert_eq!(decode_mouse_packet(0x09, 5, 3), Some((5, 3, 1)));
    assert_eq!(decode_mouse_packet(0x38, 0xFB, 0xFE), Some((-5, -2, 0)));
    assert_eq!(decode_mouse_packet(0x08, 0xFB, 0xFE), Some((0xFB, 0xFE, 0)));
    assert_eq!(decode_mouse_packet(0x48, 1, 1), None);
    assert_eq!(decode_mouse_packet(0x88, 1, 1), None);
}

#[test]
fn ps2_controller_registers_keyboard_and_mouse() {
    let mut t = MountTable::new();
    let mut kbd = Keyboard::new();
    let mut c = I8042::new();
    assert_eq!(c.enumerate(&mut kbd, &mut t), 1);
    assert_eq!(c.kbd_hnd, 2);
    assert_eq!(I8042::irq_config(0x45), 0x47);
    assert_eq!(I8042::mouse_setup_commands(), vec![0xE6, 0xE8, 0]);
    let mut mouse = Mouse::new();
    assert!(!c.mouse_answered(0xFE, &mut mouse, &mut t));
    assert!(!c.mouse_enabled);
    assert!(c.mouse_answered(0xFA, &mut mouse, &mut t));
    assert!(c.mouse_enabled && mouse.initialized);
    let run = c.mouse_irq(&mut mouse, 0x09, 5, 3);
    assert!(!run);
    assert_eq!((mouse.cur_x, mouse.cur_y), (5, 0));
    assert_eq!(mouse.events.len(), 1);
    assert!(!c.mouse_irq(&mut mouse, 0xC8, 5, 3));
    assert_eq!(mouse.events.len(), 1);
}

#[test]
fn ps2_keyboard_delivers_codes() {
    let mut t = MountTable::new();
    let mut kbd = Keyboard::new();
    let mut k = I8046Keyboard::new();
    assert_eq!(k.enumerate(&mut kbd, &mut t), 1);
    let mut d = dent();
    let l = kbd.fop_open(b"kbd:/all", 0, &mut d).unwrap();
    k.kdb_irq(&mut kbd, 0x1E);
    k.kdb_irq(&mut kbd, 0x9E);
    let mut buf = [0u8; 8];
    assert_eq!(kbd.fop_read(l, 0, &mut buf).unwrap(), 2);
    assert_eq!(&buf[0..2], &[0x1E, 0x9E]);
}

#[test]
fn uart_escape_sequences() {
    assert_eq!(escape_codes(b'[', b'A'), vec![0xE0, 0x48, 0xE0, 0xC8]);
    assert_eq!(escape_codes(b'[', b'D'), vec![0xE0, 0x4B, 0xE0, 0xCB]);
    assert_eq!(escape_codes(b'O', b'P'), vec![0x3B, 0xBB]);
    assert_eq!(escape_codes(b'O', b'S'), vec![0x3E, 0xBE]);
    assert!(escape_codes(b'[', b'Z').is_empty());
    assert!(escape_codes(b'x', b'A').is_empty());
}

#[test]
fn uart_keyboard_steps() {
    let mut t = MountTable::new();
    let mut kbd = Keyboard::new();
    let mut u = UARTKeyboard::new();
    assert_eq!(u.enumerate(&mut kbd, &mut t), 1);
    u.post_enum();
    let s = u.step(None);
    assert!(s.sleep && s.ascii.is_none() && s.codes.is_empty());
    let s = u.step(Some(b'a'));
    assert_eq!((s.ascii, s.sleep), (Some(b'a'), true));
    let s = u.step(Some(0x1B));
    assert!(!s.sleep && u.state == UartKbdState::Escape);
    let s = u.step(Some(b'['));
    assert!(!s.sleep && u.state == UartKbdState::EscapeSeq(b'['));
    let s = u.step(Some(b'B'));
    assert_eq!(s.codes, vec![0xE0, 0x50, 0xE0, 0xD0]);
    assert!(s.sleep && u.state == UartKbdState::Idle);
    // A lone escape is the Escape key.
    u.step(Some(0x1B));
    let s = u.step(None);
    assert_eq!(s.codes, vec![0x01, 0x81]);
    assert!(!s.sleep);
    // Escape and one more character, then nothing: dropped.
    u.step(Some(0x1B));
    u.step(Some(b'O'));
    let s = u.step(None);
    assert!(s.codes.is_empty() && !s.sleep && u.state == UartKbdState::Idle);
}

#[test]
fn uart_keyboard_delivers() {
    let mut t = MountTable::new();
    let mut kbd = Keyboard::new();
    let mut u = UARTKeyboard::new();
    u.enumerate(&mut kbd, &mut t);
    let mut d = dent();
    let l = kbd.fop_open(b"kbd:/all", 0, &mut d).unwrap();
    u.step(Some(0x1B));
    u.step(Some(b'O'));
    let s = u.step(Some(b'Q'));
    u.deliver(&mut kbd, &s);
    let mut buf = [0u8; 8];
    assert_eq!(kbd.fop_read(l, 0, &mut buf).unwrap(), 2);
    assert_eq!(&buf[0..2], &[0x3C, 0xBC]);
    let s = u.step(Some(b'A'));
    u.deliver(&mut kbd, &s);
    let n = kbd.fop_read(l, 0, &mut buf).unwrap();
    assert_eq!(&buf[0..n], &[0x2A, 0x1E, 0x9E, 0xAA]);
}

#[test]
fn legacy_keyboard_tracks_shift_and_last_char() {
    let mut k = LegacyKeyboard::new();
    assert_eq!(LegacyKeyboard::enumerate(), 1);
    assert_eq!(k.kdb_irq(0x1E), vec![KbdChannel::Press, KbdChannel::Any]);
    assert_eq!(k.read_key_ascii(), b'a');
    assert_eq!(k.read_key_ascii(), 0);
    k.kdb_irq(0x2A);
    assert!(k.lshift);
    k.kdb_irq(0x1E);
    assert_eq!(k.read_key_ascii(), b'A');
    assert_eq!(k.kdb_irq(0xAA), vec![KbdChannel::Release, KbdChannel::Any]);
    assert!(!k.lshift);
    k.kdb_irq(0x02);
    k.clear_buffer();
    assert_eq!(k.read_key_ascii(), 0);
    assert_eq!(LegacyKeyboard::wait_for_event(KeyboardEvent::KeyPressed), KbdChannel::Press);
    assert_eq!(LegacyKeyboard::wait_for_event(KeyboardEvent::KeyReleased), KbdChannel::Release);
    assert_eq!(LegacyKeyboard::wait_for_event(KeyboardEvent::KeyPressedOrReleased), KbdChannel::Any);
    assert_eq!(k.keyboard_to_ascii(0x29), b'`');
}

#[test]
fn keyboard_waiters_and_wakeups() {
    assert_eq!(Keyboard::wait_for_event(KeyboardEvent::KeyPressed), KbdChannel::Press);
    assert_eq!(Keyboard::wait_for_event(KeyboardEvent::KeyReleased), KbdChannel::Release);
    assert_eq!(Keyboard::wait_for_event(KeyboardEvent::KeyPressedOrReleased), KbdChannel::Any);
    assert_eq!(Keyboard::woken_channels(0x1E), [KbdChannel::Press, KbdChannel::Any]);
    assert_eq!(Keyboard::woken_channels(0x9E), [KbdChannel::Release, KbdChannel::Any]);
    // a task waiting for a release is woken by a release only
    let w = Keyboard::woken_channels(0x1E);
    assert!(!w.contains(&Keyboard::wait_for_event(KeyboardEvent::KeyReleased)));
    assert_eq!(KeyboardEvent::KeyReleased.woken_by(0x1E), false);
    assert!(w.contains(&Keyboard::wait_for_event(KeyboardEvent::KeyPressedOrReleased)));
}

#[test]
fn file_reads_through_the_keyboard_driver() {
    let mut t = MountTable::new();
    let mut kbd = Keyboard::new();
    let mut k = I8046Keyboard::new();
    assert_eq!(k.enumerate(&mut kbd, &mut t), 1);
    let mut f = File::open(b"kbd:/all", 2, &t, &mut kbd).unwrap();
    assert_eq!(f.dev_hnd, 0x100);
    assert_eq!(f.dir_entry.name, b"all".to_vec());
    k.kdb_irq(&mut kbd, 0x1E);
    let mut buf = [0u8; 4];
    assert_eq!(f.read(&mut kbd, &mut buf).unwrap(), 1);
    assert_eq!(buf[0], 0x1E);
    assert_eq!(f.get_read_cursor(), 1);
    assert_eq!(f.write(&mut kbd, b"x").unwrap_err().code, ErrorCode::NotAllowed);
    assert_eq!(File::open(b"kbd:/nope", 2, &t, &mut kbd).err().unwrap().code, ErrorCode::InvalidPath);
}

#[test]
fn file_lists_and_closes_through_the_keyboard_driver() {
    let mut t = MountTable::new();
    let mut kbd = Keyboard::new();
    let mut k = I8046Keyboard::new();
    assert_eq!(k.enumerate(&mut kbd, &mut t), 1);
    let mut root = File::open(b"kbd:/", 2, &t, &mut kbd).unwrap();
    let list = root.enumerate(&mut kbd).unwrap();
    assert_eq!(list.len(), kbd.devices.len());
    for (e, d) in list.iter().zip(kbd.devices.iter()) {
        assert_eq!(&e.name, d);
    }
    let mut f = File::open(b"kbd:/all", 2, &t, &mut kbd).unwrap();
    assert_eq!(f.enumerate(&mut kbd).err().unwrap().code, ErrorCode::InvalidOp);
    let mut buf = [0u8; 4];
    assert_eq!(f.execute(&mut kbd, 0, &mut buf).unwrap_err().code, ErrorCode::NotAllowed);
    assert_eq!(kbd.listeners.len(), 1);
    assert!(f.close(&mut kbd).is_ok());
    assert_eq!(kbd.listeners.len(), 0);
    // a second close finds no listener
    assert_eq!(f.close(&mut kbd).unwrap_err().code, ErrorCode::InvalidHandle);
    assert!(root.close(&mut kbd).is_err());
}
