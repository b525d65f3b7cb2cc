use blightos::arch::x86_64::mmu::MMUMapping;
use blightos::arch::aarch64::mmu::MMUMapping as ArmMMUMapping;
use blightos::drivers::MemoryType;
use blightos::drivers::gui::{Rgba, WindowContext, WindowProperties, GUI};
use blightos::drivers::input::{Mouse, ascii_to_keycode_entry, keycode_to_ascii_shifted};
use blightos::drivers::audio::intel_hda::{stream_channel_payload, decode_stream_channel, build_verb16};
use blightos::drivers::storage::ahci::{
    HBACommandHeader, HBAHostToDeviceFIS, HBAPhysicalRegionDescriptor,
};
use blightos::drivers::pci::PCIBus;
use blightos::syscall::SyscallOpCode;
use blightos::fs::{MountPoint, MountTable};

#[test]
fn window_properties_round_trip() {
    let p = WindowProperties { flags: 0x1122_3344_5566_7788, left: 10, top: 20, width: 300, height: 200 };
    let b = p.to_bytes();
    assert_eq!(b.len(), 24);
    assert_eq!(&b[0..8], &[0x88, 0x77, 0x66, 0x55, 0x44, 0x33, 0x22, 0x11]);
    let q = WindowProperties::from_bytes(&b).unwrap();
    assert_eq!((q.flags, q.left, q.top, q.width, q.height), (p.flags, p.left, p.top, p.width, p.height));
    assert!(WindowProperties::from_bytes(&b[0..23]).is_none());
}

fn small_gui() -> GUI {
    let mut g = GUI::new();
    let mut mouse = Mouse::new();
    g.post_enum(4, 4, &mut mouse);
    let ctx = WindowContext { phys_base: 0x10_0000, kmap_base: 0x2000_0000, dmap_base: 0x3000_0000 };
    let r = g.fops_exec(0, 0, &mut []);
    assert!(r.is_err());
    g.create_window(0x10, Ok(ctx)).unwrap();
    let props = WindowProperties { flags: 0, left: 1, top: 1, width: 2, height: 2 };
    let d = g.set_window(0x10, &props.to_bytes()).unwrap();
    assert_eq!(d, 0x3000_0000);
    g
}

#[test]
fn screen_update_writes_changed_pixels_then_nothing() {
    let mut g = small_gui();
    let px: Vec<Rgba> = vec![(10, 20, 30, 255); 16];
    let wp = vec![px];
    let w1 = g.update_screen(false, &wp, (0, 4));
    assert_eq!(w1, vec![(1, 1, (10, 20, 30)), (1, 2, (10, 20, 30)), (2, 1, (10, 20, 30)), (2, 2, (10, 20, 30))]);
    assert!(!g.windows[0].redraw);
    assert_eq!((g.cur_buf, g.pre_buf), (1, 0));
    let w2 = g.update_screen(false, &wp, (0, 4));
    assert!(w2.is_empty());
    let w3 = g.update_screen(true, &wp, (0, 4));
    assert_eq!(w3.len(), 16);
}

#[test]
fn screen_update_draws_cursor() {
    let mut g = small_gui();
    let wp = vec![vec![(0, 0, 0, 0); 16]];
    g.windows[0].redraw = false;
    let w = g.update_screen(false, &wp, (0, 0));
    // Cursor rows: (0,0) outline; (1,0),(1,1) outline; (2,0) outline, (2,1) fill, (2,2) outline.
    assert_eq!(
        w,
        vec![
            (0, 0, (240, 240, 240)),
            (1, 0, (240, 240, 240)),
            (1, 1, (240, 240, 240)),
            (2, 0, (240, 240, 240)),
            (2, 1, (30, 30, 30)),
            (2, 2, (240, 240, 240)),
            (3, 0, (240, 240, 240)),
            (3, 1, (30, 30, 30)),
            (3, 2, (30, 30, 30)),
            (3, 3, (240, 240, 240)),
        ]
    );
}

#[test]
fn x86_map_then_translate_then_unmap() {
    let mut m = MMUMapping::new();
    m.init(0x1000, 0x2000, 0x10000);
    m.add_spare_frame(0x3000);
    m.add_spare_frame(0x4000);
    m.add_spare_frame(0x5000);
    m.add_spare_frame(0x6000);
    let v = 0x2_0000_0000usize;
    assert!(m.map_pages(v, &[0x10_0000, 0x20_0000], true, false, MemoryType::Normal));
    assert_eq!(m.virt_to_phys_from_map(v + 0x123), Some(0x10_0123));
    assert_eq!(m.virt_to_phys_from_map(v + 0x1000), Some(0x20_0000));
    assert_eq!(m.virt_to_phys_from_map(v + 0x2000), None);
    assert_eq!(m.mapped_pages_count(), 2);
    // A page that is mapped already stops the mapping.
    assert!(!m.map_pages(v, &[0x30_0000], true, false, MemoryType::Normal));
    assert_eq!(m.unmap_pages(v, 2), 2);
    assert_eq!(m.virt_to_phys_from_map(v), None);
    assert_eq!(m.virt_to_phys_from_map(v + 0x1000), None);
    assert_eq!(m.mapped_pages_count(), 0);
}

#[test]
fn x86_map_refuses_kernel_addresses() {
    let mut m = MMUMapping::new();
    m.init(0x1000, 0x2000, 0x10000);
    assert!(!m.map_pages(0x1000_0000, &[0x10_0000], true, false, MemoryType::Normal));
    assert_eq!(m.mapped_pages_count(), 0);
}

#[test]
fn aarch64_map_then_translate_then_unmap() {
    let mut m = ArmMMUMapping::new();
    m.init(0x1000);
    m.add_spare_frame(0x3000);
    m.add_spare_frame(0x4000);
    let v = 0xFFFF_FFF0_0000_0000usize;
    assert!(m.map_pages(v, &[0x10_0000], true, false));
    assert_eq!(m.virt_to_phys(v + 0x10), Some(0x10_0010));
    assert_eq!(m.virt_to_phys(v + 0x1000), None);
    assert_eq!(m.unmap_pages(v, 1), 1);
    assert_eq!(m.virt_to_phys(v), None);
}

#[test]
fn printable_ascii_keys_type_back() {
    for c in 32u8..=126 {
        let (code, shift) = ascii_to_keycode_entry(c);
        assert_ne!(code, 0);
        assert_eq!(keycode_to_ascii_shifted(code, shift), c);
    }
    assert_eq!(ascii_to_keycode_entry(b'A'), (0x1E, true));
    assert_eq!(ascii_to_keycode_entry(b'a'), (0x1E, false));
}

#[test]
fn stream_channel_reads_back() {
    let m = stream_channel_payload(0x3, 0x1);
    assert_eq!(m, 0x31);
    assert_eq!(decode_stream_channel(m), (3, 1));
    assert_eq!(decode_stream_channel(stream_channel_payload(0x1F, 0x2A)), (0xF, 0xA));
    assert_eq!(build_verb16(0x2, 0x10, 0x3, 0xB000), 0x2103_B000);
}

#[test]
fn ahci_header_round_trip() {
    let h = HBACommandHeader { flags: 0x0405, prdt_entries: 8, xfered_bytes: 512, cmd_tbl_base: 0x1_2345_6780 };
    let w = h.encode();
    assert_eq!(w, [0x0008_0405, 512, 0x2345_6780, 0x1]);
    let mut d = HBACommandHeader::new();
    d.decode(&w);
    assert_eq!((d.flags, d.prdt_entries, d.xfered_bytes, d.cmd_tbl_base), (0x0405, 8, 512, 0x1_2345_6780));
    // An unaligned command table is aligned down on the way.
    let u = HBACommandHeader { flags: 0, prdt_entries: 0, xfered_bytes: 0, cmd_tbl_base: 0x1234_5679 };
    let mut d2 = HBACommandHeader::new();
    d2.decode(&u.encode());
    assert_eq!(d2.cmd_tbl_base, 0x1234_5600);
}

#[test]
fn ahci_prd_round_trip() {
    let p = HBAPhysicalRegionDescriptor { base_addr: 0x2_0000_1000, length: 4096, irq: true };
    let w = p.encode();
    assert_eq!(w, (0x1000, 0x2, 0x8000_0FFF));
    let mut d = HBAPhysicalRegionDescriptor::new();
    d.decode(w.0, w.1, w.2);
    assert_eq!((d.base_addr, d.length, d.irq), (0x2_0000_1000, 4096, true));
}

#[test]
fn ahci_fis_round_trip_and_high_lba() {
    let f = HBAHostToDeviceFIS { lba: 0x12_3456, sectors: 8, ata_cmd: 0x25, pm_port: 0, device: 0x40 };
    let w = f.encode();
    assert_eq!(w, [0x0025_8027, 0x4012_3456, 0, 8, 0]);
    let mut d = HBAHostToDeviceFIS::new();
    d.decode(&w);
    assert_eq!((d.lba, d.sectors, d.ata_cmd, d.pm_port, d.device), (0x12_3456, 8, 0x25, 0, 0x40));
    // Above 24 bits the upper part of the address comes back at bit 32.
    let g = HBAHostToDeviceFIS { lba: 0x100_0000, sectors: 1, ata_cmd: 0x25, pm_port: 0, device: 0x40 };
    let mut e = HBAHostToDeviceFIS::new();
    e.decode(&g.encode());
    assert_eq!(e.lba, 0x1_0000_0000);
}

#[test]
fn pci_config_address_fields() {
    assert_eq!(PCIBus::pci_read(1, 2, 3, 0x10), (0xCF8, 0x8001_1310));
    assert_eq!(PCIBus::pci_read(0, 0, 0, 0x13), (0xCF8, 0x8000_0010));
}

#[test]
fn syscall_opcodes_round_trip() {
    for v in 0usize..10 {
        let c = SyscallOpCode::from_value(v).unwrap();
        assert_eq!(c.value(), v);
    }
    assert!(SyscallOpCode::from_value(10).is_none());
    assert!(matches!(SyscallOpCode::from_value(3), Some(SyscallOpCode::Open)));
}

#[test]
fn mount_then_unmount_restores_the_table() {
    let mut t = MountTable::new();
    assert!(MountPoint::mount(&mut t, MountPoint::new(b"disk0.0", 6)));
    assert!(!MountPoint::mount(&mut t, MountPoint::new(b"disk0.0", 7)));
    let m = MountPoint::from_path(&t, b"disk0.0:/a/b").unwrap();
    assert_eq!(m.fops, 6);
    MountPoint::unmount(&mut t, b"disk0.0");
    assert!(MountPoint::from_path(&t, b"disk0.0:/a/b").is_err());
    assert!(MountPoint::list_names(&t).is_empty());
}

use blightos::drivers::audio::intel_hda::{IntelHDA, DEV_HND_OUTPUT_MUTE, DEV_HND_OUTPUT_VOL};
use blightos::drivers::audio::intel_hda::{AudioWidget, StreamMemory, VERBID_SET_FORMAT};
use blightos::drivers::storage::IOCompletion;

fn read_file(h: &IntelHDA, hnd: usize) -> Vec<u8> {
    let mut buf = [0u8; 64];
    match h.fread_spec(hnd, 0, &mut buf) {
        IOCompletion::Successful(n) => buf[0..n].to_vec(),
        other => panic!("read failed: {:?}", other),
    }
}

#[test]
fn hda_mute_file_read_write() {
    let mut h = IntelHDA::new();
    assert_eq!(read_file(&h, DEV_HND_OUTPUT_MUTE), b"0".to_vec());
    assert_eq!(h.fwrite_spec(DEV_HND_OUTPUT_MUTE, 0, b" 1\n"), IOCompletion::Successful(3));
    assert!(h.output_mute);
    let t = read_file(&h, DEV_HND_OUTPUT_MUTE);
    assert_eq!(t, b"1".to_vec());
    h.fwrite_spec(DEV_HND_OUTPUT_MUTE, 0, &t);
    assert!(h.output_mute);
    assert_eq!(h.fwrite_spec(DEV_HND_OUTPUT_MUTE, 0, b"2"), IOCompletion::InvalidOp);
    assert!(h.output_mute);
}

#[test]
fn hda_volume_file_read_write() {
    let mut h = IntelHDA::new();
    assert_eq!(read_file(&h, DEV_HND_OUTPUT_VOL), b"L:100,R:100".to_vec());
    assert_eq!(h.fwrite_spec(DEV_HND_OUTPUT_VOL, 0, b"L:50, R:4"), IOCompletion::Successful(9));
    assert_eq!((h.output_gain_l, h.output_gain_r), (63, 5));
    let t = read_file(&h, DEV_HND_OUTPUT_VOL);
    assert_eq!(t, b"L:49,R:3".to_vec());
    h.fwrite_spec(DEV_HND_OUTPUT_VOL, 0, &t);
    // Each channel loses at most two steps on the way.
    assert_eq!((h.output_gain_l, h.output_gain_r), (62, 3));
    assert_eq!(h.fwrite_spec(DEV_HND_OUTPUT_VOL, 0, b"R:101,L:0"), IOCompletion::InvalidOp);
    assert_eq!((h.output_gain_l, h.output_gain_r), (62, 3));
}

#[test]
fn window_set_then_get_gives_the_bytes_back() {
    let mut g = small_gui();
    let bytes: Vec<u8> = (1u8..=24).collect();
    g.set_window(0x10, &bytes).unwrap();
    let mut back = [0u8; 24];
    let r = g.get_window(0x10, &mut back);
    assert_eq!(r.unwrap(), 24);
    assert_eq!(back.to_vec(), bytes);
}

#[test]
fn x86_mapping_unmapped_pages_succeeds() {
    let mut m = MMUMapping::new();
    m.init(0x1000, 0x2000, 0x10000);
    for f in [0x3000, 0x4000, 0x5000, 0x6000, 0x7000, 0x8000] {
        m.add_spare_frame(f);
    }
    assert!(m.map_pages(0x2_0000_0000, &[0x10_0000], true, false, MemoryType::Normal));
    // a run across a page table boundary, none of it mapped
    let v = 0x2_001F_F000usize;
    assert!(m.map_pages(v, &[0x20_0000, 0x21_0000], true, true, MemoryType::Normal));
    assert_eq!(m.virt_to_phys_from_map(v), Some(0x20_0000));
    assert_eq!(m.virt_to_phys_from_map(v + 0x1000), Some(0x21_0000));
    // the run overlapping a mapped page fails at that page
    assert!(!m.map_pages(v - 0x1000, &[0x30_0000, 0x31_0000], true, true, MemoryType::Normal));
    assert_eq!(m.virt_to_phys_from_map(v - 0x1000), Some(0x30_0000));
    // unmapping the three mapped pages finds all three
    assert_eq!(m.unmap_pages(v - 0x1000, 3), 3);
    assert_eq!(m.virt_to_phys_from_map(v), None);
}

#[test]
fn aarch64_mapping_unmapped_pages_succeeds() {
    let mut m = ArmMMUMapping::new();
    m.init(0x1000);
    for f in [0x3000, 0x4000, 0x5000, 0x6000] {
        m.add_spare_frame(f);
    }
    let v = 0xFFFF_FFF0_001F_F000usize;
    assert!(m.map_pages(v, &[0x20_0000, 0x21_0000], true, false));
    assert_eq!(m.virt_to_phys(v), Some(0x20_0000));
    assert_eq!(m.virt_to_phys(v + 0x1000), Some(0x21_0000));
    assert!(!m.map_pages(v + 0x1000, &[0x30_0000], true, false));
    assert_eq!(m.unmap_pages(v, 2), 2);
    assert_eq!(m.virt_to_phys(v + 0x1000), None);
}

#[test]
fn hda_init_sets_the_default_format() {
    let mut h = IntelHDA::new();
    h.widgets.push(AudioWidget { afg_nid: 1, nid: 2, caps: 0x1, pin_caps: None, pin_conf: None, conn_list: None });
    h.speakers_widx = Some(0);
    let mem = [
        StreamMemory { bdl_phys: 0x1000, bdl_virt: 0x1000, pcm_phys: 0x10_0000, pcm_virt: 0x10_0000 },
        StreamMemory { bdl_phys: 0x2000, bdl_virt: 0x2000, pcm_phys: 0x20_0000, pcm_virt: 0x20_0000 },
        StreamMemory { bdl_phys: 0x3000, bdl_virt: 0x3000, pcm_phys: 0x30_0000, pcm_virt: 0x30_0000 },
        StreamMemory { bdl_phys: 0x4000, bdl_virt: 0x4000, pcm_phys: 0x40_0000, pcm_virt: 0x40_0000 },
    ];
    let n = h.verbs.len();
    // four input and four output streams: inputs 1, 2 and outputs 5, 6
    assert_eq!(h.init(0x4400, 0, mem), Some(1 | 2 | (1 << 4) | (1 << 5)));
    assert!(h.enabled);
    assert!(h.ostream0.enabled && h.ostream1.enabled);
    assert_eq!((h.istream0.number, h.istream1.number, h.ostream0.number, h.ostream1.number), (1, 2, 5, 6));
    assert_eq!((h.ostream0.pcm_phys, h.ostream1.pcm_phys), (0x30_0000, 0x40_0000));
    assert_eq!(h.verbs.len(), n + 1);
    assert_eq!(*h.verbs.last().unwrap(), build_verb16(0, 2, VERBID_SET_FORMAT as u8, 0x0011));
    assert_eq!(h.ostream0.audio_format_as_u16(), 0x0011);
    assert_eq!(h.ostream1.audio_format_as_u16(), 0x0011);
    // a second init changes nothing
    assert!(h.init(0x4400, 0, mem).is_none());
    assert_eq!(h.verbs.len(), n + 1);
}

#[test]
fn hda_codec_scan_with_and_without_answers() {
    let mut h = IntelHDA::new();
    let (mut scan, _v) = IntelHDA::codec_scan_start();
    // vendor id, then the root's nodes: one node from 1
    assert!(h.codec_scan_step(&mut scan, Some(0x1af4_0022)).is_some());
    assert!(h.codec_scan_step(&mut scan, Some(0x0001_0001)).is_some());
    // node 1 is an audio function group with three widgets from 2
    assert!(h.codec_scan_step(&mut scan, Some(1)).is_some());
    assert!(h.codec_scan_step(&mut scan, Some(0x0002_0003)).is_some());
    // widget 2: an audio output with an empty connection list
    assert!(h.codec_scan_step(&mut scan, Some(0x0000_0000)).is_some());
    assert!(h.codec_scan_step(&mut scan, Some(0)).is_some());
    assert!(h.codec_scan_step(&mut scan, Some(0x1234)).is_some());
    assert_eq!(h.widgets.len(), 1);
    assert_eq!((h.widgets[0].nid, h.widgets[0].afg_nid, h.widgets[0].pin_conf), (2, 1, Some(0x1234)));
    assert_eq!(h.widgets[0].conn_list, Some(vec![]));
    // widget 3: no answer to its capabilities, so it is passed over
    assert!(h.codec_scan_step(&mut scan, None).is_some());
    assert_eq!(h.widgets.len(), 1);
    // widget 4: a pin complex whose connection list length gets no answer
    assert!(h.codec_scan_step(&mut scan, Some(0x0040_0000)).is_some());
    assert!(h.codec_scan_step(&mut scan, None).is_some());
    assert!(h.codec_scan_step(&mut scan, None).is_some());
    // its pin capabilities end the group and the scan
    assert_eq!(h.codec_scan_step(&mut scan, Some(0x10)), None);
    assert_eq!(h.widgets.len(), 2);
    assert_eq!((h.widgets[1].nid, h.widgets[1].conn_list.clone(), h.widgets[1].pin_conf, h.widgets[1].pin_caps), (4, None, None, Some(0x10)));
    // no answer to the root's node count ends the scan at once
    let (mut scan2, _v) = IntelHDA::codec_scan_start();
    assert!(h.codec_scan_step(&mut scan2, None).is_some());
    assert_eq!(h.codec_scan_step(&mut scan2, None), None);
}

#[test]
fn hda_queue_playback_fills_the_next_stream() {
    let mut h = IntelHDA::new();
    h.widgets.push(AudioWidget { afg_nid: 1, nid: 2, caps: 0x1, pin_caps: None, pin_conf: None, conn_list: None });
    h.speakers_widx = Some(0);
    let mem = [
        StreamMemory { bdl_phys: 0x1000, bdl_virt: 0x1000, pcm_phys: 0x10_0000, pcm_virt: 0x10_0000 },
        StreamMemory { bdl_phys: 0x2000, bdl_virt: 0x2000, pcm_phys: 0x20_0000, pcm_virt: 0x20_0000 },
        StreamMemory { bdl_phys: 0x3000, bdl_virt: 0x3000, pcm_phys: 0x30_0000, pcm_virt: 0x30_0000 },
        StreamMemory { bdl_phys: 0x4000, bdl_virt: 0x4000, pcm_phys: 0x40_0000, pcm_virt: 0x40_0000 },
    ];
    assert!(h.init(0x4400, 0, mem).is_some());
    // stereo 16-bit: 4-byte samples, so the trailing 2 bytes are dropped
    assert_eq!(h.queue_playback(&[1, 2, 3, 4, 5, 6]), 4);
    assert_eq!(&h.ostream0.pcm[0..5], &[1, 2, 3, 4, 0]);
    assert_eq!(h.ostream0.pcm_wp, 4);
    assert!(h.playing && h.ostream0.is_running());
    assert_eq!(h.next_os, 1);
    // the second buffer fills while the first plays
    assert_eq!(h.queue_playback(&[9, 9, 9, 9]), 4);
    assert_eq!(&h.ostream1.pcm[0..4], &[9, 9, 9, 9]);
    assert!(!h.ostream1.is_running());
    assert_eq!(h.next_os, 1);
}
