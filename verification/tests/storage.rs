use blightos::drivers::storage::{BufferedDiskIO, DiskAddress, submit_sync_io, SyncIOStatus, BusType, Disk, IOCompletion, IOOperation, IORequest, SyncIO};
use blightos::drivers::storage::ahci::{
    get_drive_type, port_reg_index, AHCIBus, AHCIDriveType, HBACommandHeader, HBAPortReg,
    PORT_SIG_ATA, PORT_SIG_ATAPI,
};
use blightos::drivers::storage::emmc::{
    block_byte_address, clock_divider, cmd_response, int_outcome, read_plan, read_result,
    status_ready, BCM2835SDHost, SdAction, SdEvent, SdReset, SdResetStage, CMD_GO_IDLE,
    CMD_READ_MULTI, CMD_SEND_IF_COND, CMD_SEND_REL_ADDR,
};
use blightos::drivers::pci::{PCIDevice, PciScan, PORT_CFG_ADDR, PORT_CFG_DAT};
use blightos::fs::gpt::{parse_gpt_header, GptScan};
use blightos::fs::enumerate_filesystems;
use blightos::fs::fat::{FATKind, FATVolume, FATFile, PathWalkState};
use blightos::fs::MountTable;

fn ahci_disk(count: u64) -> Disk {
    Disk { bus: BusType::AHCI, bus_id: 0, drive_id: 0, part_id: 0, sector_size: 512, sector_count: count, driver: 10 }
}

fn read_req(lba: u64, sectors: u16) -> IORequest {
    let mut r = IORequest::new();
    r.lba = lba;
    r.sectors = sectors;
    r.buffer = 0x8000;
    r
}

#[test]
fn ahci_port_registers_and_types() {
    assert_eq!(port_reg_index(1, HBAPortReg::CI), 110);
    assert_eq!(port_reg_index(0, HBAPortReg::CLB), 64);
    assert_eq!(get_drive_type(0x113, PORT_SIG_ATA), AHCIDriveType::SATA);
    assert_eq!(get_drive_type(0x113, PORT_SIG_ATAPI), AHCIDriveType::SATAPI);
    assert_eq!(get_drive_type(0x003, PORT_SIG_ATA), AHCIDriveType::Null);
    assert_eq!(get_drive_type(0x111, PORT_SIG_ATA), AHCIDriveType::Null);
    let mut regs = vec![(0u32, 0u32); 32];
    regs[0] = (0x113, PORT_SIG_ATA);
    regs[1] = (0x113, PORT_SIG_ATA);
    regs[2] = (0x113, PORT_SIG_ATAPI);
    regs[3] = (0x113, 0x1234);
    assert_eq!(AHCIBus::sata_ports(0b1101, &regs), vec![0, 3]);
}

#[test]
fn ahci_finds_controller_and_identifies_drive() {
    let mut devs = vec![PCIDevice::new(), PCIDevice::new()];
    devs[1].class = 1;
    devs[1].sub_class = 6;
    devs[1].bar = [0, 0, 0, 0, 0, 0xFEBF_1234];
    devs[1].irq_line = 11;
    let mut bus = AHCIBus::new();
    assert_eq!(bus.enumerate(&devs), 1);
    assert_eq!(bus.hba_base, 0xFEBF_1000);
    assert!(bus.irq_enabled && bus.enumerated);
    assert_eq!(bus.irq_route(), Some((11, 11)));
    assert_eq!(AHCIBus::ghc_irq_enabled(0x8000_0000), 0x8000_0002);
    let mut id = vec![0u16; 256];
    // DMA and LBA28 in word 49, LBA48 in word 83
    id[49] = 0x0300;
    id[83] = 0x0400;
    id[100] = 0x5678;
    id[101] = 0x1234;
    let d = bus.add_drive(0, 0x40_0000, Some(&id[..]), 10);
    assert_eq!((d.sector_count, d.sector_size, d.drive_id), (0x1234_5678, 512, 0));
    assert_eq!(bus.drives[0].cap, 0x6);
    // LBA28 only: word 83 says nothing of it
    id[49] = 0x0200;
    id[83] = 0x0200;
    id[60] = 0x10;
    id[106] = 0x1000;
    id[117] = 0x800;
    let d2 = bus.add_drive(3, 0x41_0000, Some(&id[..]), 10);
    assert_eq!((d2.sector_count, d2.sector_size, d2.drive_id), (0x10, 0x1000, 1));
    assert_eq!(bus.drives[1].cap, 0x1);
    // LBA28 and DMA bits in word 83 alone are not taken
    id[49] = 0;
    id[83] = 0x0300;
    let d3 = bus.add_drive(4, 0x42_0000, Some(&id[..]), 10);
    assert_eq!(bus.drives[2].cap, 0);
    assert_eq!(d3.drive_id, 2);
    assert_eq!(bus.post_enum(), 3);
    let mut empty = AHCIBus::new();
    assert_eq!(empty.enumerate(&vec![PCIDevice::new()]), 0);
}

#[test]
fn ahci_request_life() {
    let mut bus = AHCIBus::new();
    bus.add_drive(0, 0x40_0000, None, 10);
    let disk = ahci_disk(100);
    assert!(bus.issue_io(&disk, &read_req(10, 8), 5, 42).is_none());
    let bad = bus.issue_io(&disk, &read_req(99, 2), 6, 42).unwrap();
    assert_eq!((bad.completion_code, bad.ts_issued), (IOCompletion::OutOfBoundIO, 6));
    let mut other = disk;
    other.bus = BusType::EMMC;
    assert_eq!(bus.issue_io(&other, &read_req(0, 1), 6, 42).unwrap().completion_code, IOCompletion::InvalidBus);
    let mut nodrive = disk;
    nodrive.drive_id = 1;
    assert_eq!(bus.issue_io(&nodrive, &read_req(0, 1), 6, 42).unwrap().completion_code, IOCompletion::InvalidDrive);
    let reqs = bus.take_requests(0);
    assert_eq!(reqs.len(), 1);
    assert_eq!((reqs[0].waiter_tid, reqs[0].ts_issued), (42, 5));
    let hdr0 = HBACommandHeader { flags: 0, prdt_entries: 8, xfered_bytes: 0, cmd_tbl_base: 0x40_0500 };
    let cmd = bus.submit_io_command(0, reqs[0], 7, &hdr0).unwrap();
    assert_eq!((cmd.hdr.flags, cmd.hdr.prdt_entries, cmd.hdr.cmd_tbl_base), (0x405, 1, 0x40_0500));
    assert_eq!((cmd.prd.base_addr, cmd.prd.length, cmd.prd.irq), (0x8000, 4096, true));
    assert_eq!((cmd.fis.ata_cmd, cmd.fis.device, cmd.fis.lba, cmd.fis.sectors), (0x25, 0x40, 10, 8));
    assert_eq!(bus.drives[0].submitted_queue.len(), 1);
    // No interrupt status: nothing happens.
    assert!(!bus.complete_drive(0, 0, 0, &vec![4096; 32], 8));
    assert!(bus.complete_drive(0, 1, 0, &vec![4096; 32], 8));
    let done = bus.take_completions(0);
    assert_eq!(done.len(), 1);
    assert_eq!((done[0].completion_code, done[0].ts_completed), (IOCompletion::Successful(4096), 8));
    // A write or a long read completes at once.
    let mut w = read_req(0, 1);
    w.op = IOOperation::Write;
    assert!(bus.submit_io_command(0, w, 9, &hdr0).is_none());
    assert!(bus.submit_io_command(0, read_req(0, 9), 9, &hdr0).is_none());
    let done = bus.take_completions(0);
    assert_eq!(done[0].completion_code, IOCompletion::InvalidOp);
    assert_eq!(done[1].completion_code, IOCompletion::NotIssued);
    // A sent request whose command is still issued is dropped.
    bus.submit_io_command(0, read_req(1, 1), 10, &hdr0);
    assert!(bus.complete_drive(0, 1, 1, &vec![512; 32], 11));
    assert!(bus.take_completions(0).is_empty());
    assert!(bus.drives[0].submitted_queue.is_empty());
}

#[test]
fn sd_clock_divider() {
    assert_eq!(clock_divider(400_000, 1), 0x4000);
    assert_eq!(clock_divider(400_000, 2), 0x6800);
    assert_eq!(clock_divider(100_000, 2), 0xA040);
    assert_eq!(clock_divider(25_000_000, 2), 0x200);
    assert_eq!(clock_divider(25_000_000, 1), 0x200);
    assert_eq!(clock_divider(10_000, 0), 0x8000);
}

#[test]
fn sd_command_responses() {
    assert_eq!(cmd_response(CMD_SEND_IF_COND, 0x1AA, (0x1AA, 0, 0, 0)), (0, None));
    assert_eq!(cmd_response(CMD_SEND_IF_COND, 0x1AA, (0x1AB, 0, 0, 0)), (1, None));
    assert_eq!(cmd_response(CMD_SEND_REL_ADDR, 0, (0x1234_2000, 0, 0, 0)), (0x1234_0000, Some(0x80000)));
    assert_eq!(cmd_response(0x3700_0000, 0, (0xFFFF, 0, 0, 0)), (0, None));
    assert_eq!(cmd_response(0x3702_0000, 0, (0xFFFF, 0, 0, 0)), (0x20, None));
    assert_eq!(cmd_response(0x0201_0000, 0, (1, 2, 4, 8)), (15, None));
    assert_eq!(cmd_response(CMD_GO_IDLE, 0, (0xFFFF_FFFF, 0, 0, 0)), (0xfff9c004, None));
    assert!(!status_ready(0x1, 0, 0x1));
    assert!(status_ready(0x1, 0x8000, 0x1));
    assert!(status_ready(0x0, 0, 0x1));
    assert_eq!(int_outcome(true, 0x1, 0x1), (true, 0x1));
    assert_eq!(int_outcome(true, 0x10001, 0x1), (false, 0x10001));
    assert_eq!(int_outcome(false, 0, 0x1), (false, 0));
    assert_eq!(int_outcome(true, 0x8001, 0x1), (false, 0x8001));
}

#[test]
fn sd_read_plans() {
    let p = read_plan(1, 5, 4);
    assert_eq!((p.num, p.set_block_count, p.blksizecnt, p.start_cmd, p.cmd_per_block, p.stop_after),
               (4, false, (4 << 16) | 512, Some((CMD_READ_MULTI, 5)), false, true));
    let q = read_plan(0, 7, 0);
    assert_eq!((q.num, q.blksizecnt, q.start_cmd, q.cmd_per_block, q.stop_after), (1, 0x10200, None, true, false));
    assert_eq!(block_byte_address(7, 0), 3584);
    assert_eq!(read_result(&p, 4, 0), 2048);
    assert_eq!(read_result(&p, 3, 0), 0);
    assert_eq!(read_result(&p, 4, 1), 0);
}

fn ev(ok: bool, ret: u32, err: u32) -> SdEvent {
    SdEvent { ok, ret, err, scr: (0, 0) }
}

#[test]
fn sd_reset_sequence() {
    let mut r = SdReset::new(0, (0, 0));
    assert_eq!(r.step(&ev(true, 0, 0)), SdAction::ResetHost);
    assert_eq!(r.step(&ev(true, 0, 0)), SdAction::SetClock(400_000));
    assert_eq!(r.step(&ev(true, 0, 0)), SdAction::UnmaskInterrupts);
    assert_eq!(r.step(&ev(true, 0, 0)), SdAction::Cmd(0, 0));
    assert_eq!(r.step(&ev(true, 0, 0)), SdAction::Cmd(0x0802_0000, 0x1AA));
    assert_eq!(r.step(&ev(true, 0, 0)), SdAction::WaitUs(4));
    assert_eq!(r.step(&ev(true, 0, 0)), SdAction::Cmd(0xA902_0000, 0x51ff_8000));
    // Not ready yet: another try.
    assert_eq!(r.step(&ev(true, 0, 0)), SdAction::WaitUs(4));
    assert_eq!(r.step(&ev(true, 0, 0)), SdAction::Cmd(0xA902_0000, 0x51ff_8000));
    assert_eq!(r.step(&ev(true, 0xC0FF_8000, 0)), SdAction::Cmd(0x0201_0000, 0));
    assert_eq!(r.ccs, 1);
    assert_eq!(r.step(&ev(true, 0, 0)), SdAction::Cmd(0x0302_0000, 0));
    assert_eq!(r.step(&ev(true, 0xAAAA_0000, 0)), SdAction::SetClock(25_000_000));
    assert_eq!(r.rca, 0xAAAA_0000);
    assert_eq!(r.step(&ev(true, 0, 0)), SdAction::Cmd(0x0703_0000, 0xAAAA_0000));
    assert_eq!(r.step(&ev(true, 0, 0)), SdAction::WaitStatus(2));
    assert_eq!(r.step(&ev(true, 0, 0)), SdAction::SetBlockSizeCount(0x10008));
    assert_eq!(r.step(&ev(true, 0, 0)), SdAction::Cmd(0xB322_0010, 0));
    assert_eq!(r.step(&ev(true, 0, 1)), SdAction::WaitInt(0x20));
    assert_eq!(r.step(&ev(true, 0, 0)), SdAction::ReadScr);
    let scr = SdEvent { ok: true, ret: 0, err: 0, scr: (0x0200_0400, 7) };
    assert_eq!(r.step(&scr), SdAction::Cmd(0x8602_0000, 0xAAAA_0002));
    assert_eq!(r.step(&ev(true, 0, 0)), SdAction::SetDataWidth4);
    assert_eq!(r.step(&ev(true, 0, 0)), SdAction::Done(true));
    assert_eq!(r.stage, SdResetStage::Finished(true));
    assert_eq!(r.scr, (0x0200_0401, 7));
    let mut host = BCM2835SDHost::new();
    host.reset_done(&r);
    assert_eq!((host.sd_rca, host.sd_scr), (0xAAAA_0000, (0x0200_0401, 7)));
}

#[test]
fn sd_reset_failures() {
    let mut r = SdReset::new(0, (0, 0));
    r.step(&ev(true, 0, 0));
    r.step(&ev(true, 0, 0));
    assert_eq!(r.step(&ev(false, 0, 0)), SdAction::Done(false));
    assert_eq!(r.step(&ev(true, 0, 0)), SdAction::Done(false));
    // Six answers without the ready bit time out.
    let mut r = SdReset::new(0, (0, 0));
    for _ in 0..6 {
        r.step(&ev(true, 0, 0));
    }
    let mut last = SdAction::ResetHost;
    for _ in 0..12 {
        last = r.step(&ev(true, 0, 0));
    }
    assert_eq!(last, SdAction::Done(false));
    // Ready but without the voltage window fails.
    let mut r = SdReset::new(0, (0, 0));
    for _ in 0..7 {
        r.step(&ev(true, 0, 0));
    }
    assert_eq!(r.step(&ev(true, 0x8000_0000, 0)), SdAction::Done(false));
}

#[test]
fn sd_host_init_and_requests() {
    let mut h = BCM2835SDHost::new();
    let (n, disk) = h.enumerate(0x0002_0000, 12);
    assert_eq!(n, 1);
    assert_eq!(h.sd_hv, 2);
    assert_eq!((h.mmio_base, h.gpio_base), (0x3F30_0000, 0x3F20_0000));
    assert_eq!((disk.bus, disk.sector_size, disk.sector_count, disk.driver), (BusType::EMMC, 512, 2_097_152, 12));
    let ok = BCM2835SDHost::issue_io(&disk, &read_req(0, 1), 3, 512);
    assert_eq!((ok.completion_code, ok.ts_completed), (IOCompletion::Successful(512), 3));
    assert_eq!(BCM2835SDHost::issue_io(&disk, &read_req(0, 1), 3, 0).completion_code, IOCompletion::IOError);
    assert_eq!(BCM2835SDHost::issue_io(&ahci_disk(10), &read_req(0, 1), 3, 0).completion_code, IOCompletion::InvalidBus);
    assert_eq!(BCM2835SDHost::issue_io(&disk, &read_req(2_097_152, 1), 3, 0).completion_code, IOCompletion::OutOfBoundIO);
    let mut w = read_req(0, 1);
    w.op = IOOperation::Write;
    assert_eq!(BCM2835SDHost::issue_io(&disk, &w, 3, 512).completion_code, IOCompletion::InvalidOp);
}

#[test]
fn gpt_header_and_entries() {
    let mut b = vec![0u8; 92];
    b[0..8].copy_from_slice(b"EFI PART");
    b[72] = 2;
    b[80] = 2;
    b[84] = 128;
    let h = parse_gpt_header(&b).unwrap();
    assert!(h.sig_ok);
    assert_eq!((h.gpt_start_lba, h.gpt_entry_count, h.gpt_entry_size), (2, 2, 128));
    assert!(parse_gpt_header(&b[0..91]).is_none());
    let mut s = GptScan::start(&h, 512).unwrap();
    assert_eq!(s.next_read(), Some(1024));
    let mut e = vec![0u8; 128];
    e[0] = 0xAF;
    e[32] = 0x00;
    e[33] = 0x08;
    e[40] = 0xFF;
    e[41] = 0x0F;
    assert_eq!(s.entry(&e), Some((2048, 4095)));
    s.mounted(true);
    assert_eq!((s.num_parts, s.next_read()), (1, Some(1152)));
    assert_eq!(s.entry(&vec![0u8; 128]), None);
    assert_eq!((s.cur_off, s.next_read()), (1152, None));
    b[0] = b'X';
    assert!(GptScan::start(&parse_gpt_header(&b).unwrap(), 512).is_none());
}

#[test]
fn sync_io_completions() {
    let mut s = SyncIO::new();
    let mut r = read_req(0, 1);
    assert_eq!(s.assign_req_id(&mut r), 0);
    assert_eq!(r.req_id, 0);
    let mut r2 = read_req(5, 1);
    assert_eq!(s.assign_req_id(&mut r2), 1);
    assert!(s.take(0).is_none());
    let mut c = r;
    c.completion_code = IOCompletion::Successful(512);
    s.completion_cb(c);
    assert_eq!(s.take(0).unwrap().completion_code, IOCompletion::Successful(512));
    assert!(s.take(0).is_none());
}

#[test]
fn disks_without_partitions_are_reported() {
    let disks = vec![ahci_disk(100)];
    assert_eq!(enumerate_filesystems(&disks, 0, 0).unwrap().sector_count, 100);
    assert!(enumerate_filesystems(&disks, 0, 2).is_none());
}

fn record(name: &[u8; 11], attr: u8, cluster: u16, size: u32) -> Vec<u8> {
    let mut r = vec![0u8; 32];
    r[0..11].copy_from_slice(name);
    r[11] = attr;
    r[26..28].copy_from_slice(&cluster.to_le_bytes());
    r[28..32].copy_from_slice(&size.to_le_bytes());
    r
}

fn fat16_volume() -> FATVolume {
    FATVolume {
        kind: FATKind::FAT16,
        label: b"TEST".to_vec(),
        first_lba: 2048,
        last_lba: 4095,
        disk_index: 0,
        sector_size: 512,
        cluster_sectors: 1,
        cluster_size: 512,
        volume_sectors: 2048,
        fat_count: 1,
        fat_start_sector: 1,
        fat_sectors: 8,
        root_start_sector: 9,
        root_entry_count: 512,
        root_sectors: 32,
        root32_cluster0: 0,
        data_start_sector: 41,
        data_sectors: 2007,
        data_clusters: 2007,
    }
}

#[test]
fn fat_path_walk() {
    let vol = fat16_volume();
    let mut fat = vec![0u8; 16];
    fat[6] = 0xFF;
    fat[7] = 0xFF;
    let mut root = record(b"DIR        ", 0x10, 3, 0);
    root.extend(record(b"OTHER   TXT", 0x20, 4, 10));
    root.extend(vec![0u8; 32]);
    let mut dir = record(b"FILE    TXT", 0x20, 5, 1234);
    dir.extend(vec![0u8; 32]);
    let mut w = FATFile::from_path(&vol, b"/DIR/FILE.TXT", &fat);
    assert!(w.needs_content());
    w.step(&vol, &fat, &root);
    assert_eq!(w.state, PathWalkState::Walking);
    assert!(w.needs_content());
    w.step(&vol, &fat, &dir);
    assert_eq!(w.state, PathWalkState::Found);
    let f = w.result().unwrap();
    assert_eq!(f.dir_entry.file_size, 1234);
    assert_eq!(f.dir_entry.first_cluster_lo, 5);
    // A missing name fails the walk.
    let mut w = FATFile::from_path(&vol, b"NOPE", &fat);
    w.step(&vol, &fat, &root);
    assert_eq!(w.state, PathWalkState::NotFound);
    assert!(w.result().is_none());
    // The root itself, and an empty component ending the walk.
    let mut w = FATFile::from_path(&vol, b"/", &fat);
    assert!(!w.needs_content());
    w.step(&vol, &fat, &[]);
    assert_eq!(w.state, PathWalkState::Found);
    assert!(w.result().unwrap().is_directory());
    let mut w = FATFile::from_path(&vol, b"DIR//FILE.TXT", &fat);
    w.step(&vol, &fat, &root);
    w.step(&vol, &fat, &[]);
    assert_eq!(w.state, PathWalkState::Found);
    assert!(w.result().unwrap().is_directory());
    // Under a file the remaining components change nothing.
    let mut w = FATFile::from_path(&vol, b"OTHER.TXT/x", &fat);
    w.step(&vol, &fat, &root);
    assert!(!w.needs_content());
    w.step(&vol, &fat, &[]);
    assert_eq!(w.state, PathWalkState::Found);
    assert_eq!(w.result().unwrap().dir_entry.file_size, 10);
}

#[test]
fn sync_io_through_a_driver() {
    let mut s = SyncIO::new();
    let mut r = read_req(7, 2);
    // a driver that completes the request before returning
    let done = submit_sync_io(&mut s, &mut r, |req: IORequest| {
        let mut c = req;
        c.completion_code = IOCompletion::Successful(1024);
        Some(c)
    });
    assert_eq!(r.req_id, 0);
    let d = match done {
        SyncIOStatus::Done(d) => d,
        SyncIOStatus::Pending(_) => panic!("the request completed"),
    };
    assert_eq!((d.req_id, d.lba, d.completion_code), (0, 7, IOCompletion::Successful(1024)));
    assert!(s.completed.is_empty());
    // a driver that completes later: the request is pending under its ID
    let mut r2 = read_req(8, 1);
    let st = submit_sync_io(&mut s, &mut r2, |_req: IORequest| None);
    assert!(matches!(st, SyncIOStatus::Pending(1)));
    assert_eq!(r2.req_id, 1);
    assert_eq!(s.next_req_id, 2);
    let mut c = r2;
    c.completion_code = IOCompletion::Successful(512);
    s.completion_cb(c);
    assert_eq!(s.take(1).unwrap().completion_code, IOCompletion::Successful(512));
}

fn fat16_boot_sector() -> Vec<u8> {
    let mut bs = vec![0u8; 512];
    bs[11..13].copy_from_slice(&512u16.to_le_bytes());
    bs[13] = 4;
    bs[14..16].copy_from_slice(&4u16.to_le_bytes());
    bs[16] = 2;
    bs[17..19].copy_from_slice(&512u16.to_le_bytes());
    bs[19..21].copy_from_slice(&20000u16.to_le_bytes());
    bs[22..24].copy_from_slice(&20u16.to_le_bytes());
    bs[38] = 0x29;
    bs[43..54].copy_from_slice(b"BLIGHTOS   ");
    bs[54..62].copy_from_slice(b"FAT16   ");
    bs
}

#[test]
fn fat_volume_mounts_as_disk_partition() {
    let mut t = MountTable::new();
    let mut vols: Vec<FATVolume> = Vec::new();
    let bs = fat16_boot_sector();
    assert!(FATVolume::mount(&mut t, &mut vols, &bs, 0, 1, 2048, 22047));
    assert_eq!(blightos::fs::MountPoint::list_names(&t), vec![b"disk0.1".to_vec()]);
    assert_eq!(vols.len(), 1);
    assert_eq!(vols[0].kind, FATKind::FAT16);
    assert_eq!(vols[0].label, b"BLIGHTOS   ".to_vec());
    assert_eq!(vols[0].data_start_sector, 76);
    assert_eq!(vols[0].data_clusters, (20000 - 76) / 4);
    // the name is taken now
    assert!(!FATVolume::mount(&mut t, &mut vols, &bs, 0, 1, 2048, 22047));
    // too small a partition, or no FAT signature: nothing is mounted
    assert!(!FATVolume::mount(&mut t, &mut vols, &bs, 0, 2, 10, 12));
    let mut other = bs.clone();
    other[54..62].copy_from_slice(b"NTFS    ");
    assert!(!FATVolume::mount(&mut t, &mut vols, &other, 0, 2, 2048, 22047));
    assert_eq!(vols.len(), 1);
    assert_eq!(blightos::fs::MountPoint::list_names(&t).len(), 1);
}

#[test]
fn cache_miss_is_served_after_one_refill() {
    let disks = vec![ahci_disk(1000)];
    let mut b = BufferedDiskIO::new(&disks, 0).unwrap();
    let at = DiskAddress::LBA { lba: 9, block_offset: 40 };
    assert!(b.needs_fetch(&at, 100));
    let req = b.fetch_from(at);
    assert_eq!((req.lba, req.sectors), (9, 8));
    assert!(!b.needs_fetch(&at, 100));
    let (off, done) = b.read(at, 100);
    assert_eq!(off, 40);
    assert_eq!(done, IOCompletion::Successful(100));
    // past the window: not served
    assert_eq!(b.read(at, 4096).1, IOCompletion::NotIssued);
}

#[test]
fn bar_is_sized_by_writing_ones_and_restoring() {
    let mut d = PCIDevice::new();
    d.load_from_pci(0, 3, 0, 0x2922_8086, 0x0106_0100, [0xFEBF_0000, 0xC001, 0, 0, 0, 0], 0x010B);
    let p = d.bar_probe(0).unwrap();
    let addr = 0x8000_0000 | (3 << 11) | 0x10;
    assert_eq!(p.fill, [(PORT_CFG_ADDR, addr), (PORT_CFG_DAT, 0xFFFF_FFFF)]);
    assert_eq!(p.read_back, (PORT_CFG_ADDR, addr));
    assert_eq!(p.restore, [(PORT_CFG_ADDR, addr), (PORT_CFG_DAT, 0xFEBF_0000)]);
    assert_eq!(d.get_bar_address(0, 0xFFFF_C000), Some((0xFEBF_0000, 0x4000)));
    assert!(d.bar_probe(1).is_none());
    assert!(d.bar_probe(2).is_none());
    assert!(d.bar_probe(6).is_none());
    assert_eq!(d.get_bar_address(1, 0), None);
}

#[test]
fn pci_scan_reads_functions_of_answering_slots() {
    let mut s = PciScan::start();
    assert_eq!(s.next_read(), Some((0, 0, 0)));
    // slot 0 answers: its eight functions are read, function 1 answers
    assert_eq!(s.step(0x1237_8086), None);
    assert_eq!(s.next_read(), Some((0, 0, 0)));
    assert_eq!(s.step(0x1237_8086), Some((0, 0, 0)));
    assert_eq!(s.step(0x7000_8086), Some((0, 0, 1)));
    for _ in 2..8 {
        assert_eq!(s.step(0xFFFF_FFFF), None);
    }
    assert_eq!(s.next_read(), Some((0, 1, 0)));
    // an empty slot is skipped after one read
    assert_eq!(s.step(0xFFFF_FFFF), None);
    assert_eq!(s.next_read(), Some((0, 2, 0)));
    let mut n = 2;
    while s.next_read().is_some() {
        s.step(0xFFFF_FFFF);
        n += 1;
    }
    assert_eq!(n, 256 * 32);
}
