use blightos::ErrorCode;
use blightos::syscall::{
    current_task_name, main_task_name, proc_control_step, proc_current_reply, spawn_task_name,
    spawn_task_reply, split_command_line, task_control_step, ProcCtlStep, TaskCtlStep,
};
use blightos::panic as panic_location;
use blightos::text::{parse_u8, parse_usize, trim};
use blightos::fs::{DirectoryEntry, File, FileSeekCursor, FileSeekOrigin, MountPoint};
use blightos::fs::fat::DirEntry;
use blightos::arch::x86_64::x86_pit::config_oneshot_count;

#[test]
fn panic_location_line() {
    assert_eq!(panic_location(b"kernel/src/fs/mod.rs", 42), b"  LOCATION: fs/mod.rs @ ln 42\n".to_vec());
    assert_eq!(panic_location(b"short.rs", 7), b"  LOCATION: short.rs @ ln 7\n".to_vec());
}

#[test]
fn decimal_parsing() {
    assert_eq!(parse_usize(b"+12"), Some(12));
    assert_eq!(parse_usize(b"0"), Some(0));
    assert_eq!(parse_usize(b""), None);
    assert_eq!(parse_usize(b"+"), None);
    assert_eq!(parse_usize(b"-1"), None);
    assert_eq!(parse_usize(b"1 "), None);
    assert_eq!(parse_usize(b"18446744073709551615"), Some(usize::MAX));
    assert_eq!(parse_usize(b"18446744073709551616"), None);
    assert_eq!(parse_u8(b"255"), Some(255));
    assert_eq!(parse_u8(b"256"), None);
    assert_eq!(trim(b" \t 42\n"), b"42");
}

fn file_of_size(size: usize, read_off: usize, write_off: usize) -> File {
    let mut d = DirectoryEntry::new();
    d.size = size;
    File { mnt: MountPoint::new(b"disk0.0", 0), dev_hnd: 1, mode: 0x6, dir_entry: d, read_off, write_off }
}

#[test]
fn seek_moves_each_cursor_within_the_file() {
    let mut f = file_of_size(20, 0, 10);
    assert_eq!(f.seek(-5, FileSeekOrigin::Current, FileSeekCursor::Write).unwrap(), 5);
    assert_eq!((f.read_off, f.write_off), (0, 5));
    assert_eq!(f.seek(-6, FileSeekOrigin::Current, FileSeekCursor::Write).unwrap_err().code, blightos::ErrorCode::InvalidArgument);
    assert_eq!(f.write_off, 5);
    assert_eq!(f.seek(15, FileSeekOrigin::Current, FileSeekCursor::Write).unwrap(), 20);
    assert_eq!(f.seek(1, FileSeekOrigin::Current, FileSeekCursor::Write).unwrap_err().code, blightos::ErrorCode::InvalidArgument);
    assert_eq!(f.seek(3, FileSeekOrigin::Current, FileSeekCursor::Read).unwrap(), 3);
    assert_eq!(f.seek(-4, FileSeekOrigin::Current, FileSeekCursor::Read).unwrap_err().code, blightos::ErrorCode::InvalidArgument);
    assert_eq!(f.seek(-2, FileSeekOrigin::End, FileSeekCursor::Read).unwrap(), 18);
    assert_eq!(f.seek(7, FileSeekOrigin::Start, FileSeekCursor::Write).unwrap(), 7);
    assert_eq!((f.read_off, f.write_off), (18, 7));
}

fn sfn_entry(name: &[u8; 11]) -> DirEntry {
    let mut b = [0u8; 32];
    b[0..11].copy_from_slice(name);
    DirEntry::from_bytes(&b, 0)
}

#[test]
fn short_names_match_as_8_3_names() {
    let e = sfn_entry(b"ABCDEFGHIJK");
    assert!(e.sfn_match(b"abcdefgh.ijk"));
    assert!(e.sfn_match(b"ABCDEFGHIJK"));
    assert!(!e.sfn_match(b"abcdefghijkXYZ"));
    let p = sfn_entry(b"PROG    EXE");
    assert!(p.sfn_match(b"prog.exe") && p.sfn_match(b"PROG.EXE") && p.sfn_match(b"PROG    EXE"));
    assert!(!p.sfn_match(b"prog") && !p.sfn_match(b"prog.ex") && !p.sfn_match(b"prog.exe.x"));
    let s = sfn_entry(b"SRC        ");
    assert!(s.sfn_match(b"src") && s.sfn_match(b"SRC  "));
    assert!(!s.sfn_match(b"src.") && !s.sfn_match(b"srcx"));
    let b = sfn_entry(b"BOOTX64 EFI");
    assert!(b.sfn_match(b"bootx64.efi"));
    let d = sfn_entry(b"..         ");
    assert!(d.sfn_match(b"..") && !d.sfn_match(b"."));
}

#[test]
fn pit_one_shot_goes_to_channel_2() {
    let w = config_oneshot_count(10, 0xFF);
    // reload 11931 = 0x2E9B
    assert_eq!(w, vec![(0x61, 0xFC), (0x43, 0xB2), (0x42, 0x9B), (0x42, 0x2E)]);
}

#[test]
fn task_and_process_control_decisions() {
    assert_eq!(task_control_step(0, 5, 0), TaskCtlStep::Exit);
    assert_eq!(task_control_step(1, 0, 8), TaskCtlStep::Reply(0));
    assert_eq!(task_control_step(1, 8, 8), TaskCtlStep::ReplyCurrent);
    assert_eq!(task_control_step(3, 8, 8), TaskCtlStep::ReadSpawnArgs);
    assert_eq!(task_control_step(6, 0, 0), TaskCtlStep::Nothing);
    assert_eq!(task_control_step(9, 8, 8), TaskCtlStep::Invalid);
    let mut name = [0u8; 64];
    name[0..4].copy_from_slice(b"wrkr");
    assert_eq!(spawn_task_name(0x1000, &name, 4), Some(b"wrkr".to_vec()));
    assert_eq!(spawn_task_name(0x1000, &name, 0), Some(b"UnnamedTask".to_vec()));
    assert_eq!(spawn_task_name(0x1000, &name, 65), None);
    assert_eq!(spawn_task_name(0, &name, 4), None);
    name[0] = 0xFF;
    assert_eq!(spawn_task_name(0x1000, &name, 4), Some(b"UnnamedTask".to_vec()));
    assert_eq!(spawn_task_reply(7), 104);
    assert_eq!(spawn_task_reply(0), 0);
    let n = current_task_name(&[b'a'; 70]);
    assert_eq!(n.len(), 64);
    assert!(n[..63].iter().all(|&c| c == b'a') && n[63] == 0);
    assert_eq!(&current_task_name(b"idle")[..5], b"idle\0");
    assert_eq!(proc_control_step(1, 8, 8), ProcCtlStep::ReplyCurrent);
    assert_eq!(proc_control_step(1, 0, 8), ProcCtlStep::Nothing);
    assert_eq!(proc_control_step(2, 0, 8), ProcCtlStep::Reply(0));
    assert_eq!(proc_control_step(4, 0, 8), ProcCtlStep::Nothing);
    assert_eq!(proc_control_step(5, 8, 8), ProcCtlStep::Invalid);
    assert_eq!(
        split_command_line(b"/bin/sh -c ls").unwrap(),
        (b"/bin/sh".to_vec(), b"sh".to_vec())
    );
    assert_eq!(split_command_line(b"prog").unwrap(), (b"prog".to_vec(), b"prog".to_vec()));
    assert_eq!(split_command_line(b"").unwrap_err(), ErrorCode::InvalidArgument);
    assert_eq!(split_command_line(&[0xC3]).unwrap_err(), ErrorCode::InvalidArgument);
    assert_eq!(main_task_name(12), b"P[12].main".to_vec());
    assert_eq!(proc_current_reply(Some(3)), 16);
    assert_eq!(proc_current_reply(None), 0);
}
