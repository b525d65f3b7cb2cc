use blightos::arch::x86_64::systimer::{TscError, TscSource, X86TimeStampCounter};
use blightos::arch::aarch64::mmu::{MMUMapping as ArmMMUMapping, KPOOL_PAGES as ARM_KPOOL_PAGES};
use blightos::arch::paging::KernelPool;
use blightos::arch::x86_64::mmu::{MMUMapping, KPOOL_PAGES};
use blightos::arch::x86_64::stub::{acpi_table_kind, x86_acpi_parse, AcpiGenericAddress, AcpiTable, AcpiTableKind};
use blightos::drivers::MemoryType;
use blightos::arch::x86_64::stub::{
    start_smp, AcpiInfo, AcpiIRQMapping, AcpiLocalApic, ApStart, ApStartAction, ApStartStage,
    POLARITY_HIGH, POLARITY_LOW, TRIGGER_EDGE, TRIGGER_LEVEL,
};

fn lapic(cpu_id: u8, lapic_id: u8, enabled: bool) -> AcpiLocalApic {
    AcpiLocalApic { cpu_id, lapic_id, enabled }
}

#[test]
fn smp_plan_from_acpi() {
    let mut acpi = AcpiInfo::new();
    acpi.lapic = vec![lapic(0, 0, true), lapic(1, 1, true), lapic(2, 2, false), lapic(3, 9, true), lapic(4, 3, true)];
    acpi.irq_map = vec![
        AcpiIRQMapping { src_bus: 0, src_irq: 0, dst_gsi: 2, active_low: false, lvl_trig: false },
        AcpiIRQMapping { src_bus: 0, src_irq: 9, dst_gsi: 9, active_low: true, lvl_trig: true },
    ];
    let plan = start_smp(&acpi, 0, 8);
    assert_eq!(plan.bsp_lapic, Some(0));
    assert_eq!(plan.ap_ids, vec![1, 3]);
    assert_eq!(plan.routes.len(), 2);
    let r0 = plan.routes[0];
    assert_eq!((r0.gsi, r0.vector, r0.polarity, r0.trigger, r0.masked, r0.dest_mask), (2, 34, POLARITY_HIGH, TRIGGER_EDGE, true, 0));
    let r1 = plan.routes[1];
    assert_eq!((r1.gsi, r1.vector, r1.polarity, r1.trigger), (9, 43, POLARITY_LOW, TRIGGER_LEVEL));
    // The BSP is found by its local APIC ID (low byte of the CPU ID).
    let plan = start_smp(&acpi, 0x103, 2);
    assert_eq!(plan.bsp_lapic, Some(4));
    assert_eq!(plan.ap_ids, vec![1]);
    assert_eq!(start_smp(&acpi, 7, 8).bsp_lapic, None);
}

#[test]
fn ap_start_protocol_fast_processor() {
    let mut s = ApStart::new(5, 1);
    assert_eq!(s.step(1), ApStartAction::SendInit(5));
    assert_eq!(s.step(1), ApStartAction::WaitMs(10));
    assert_eq!(s.step(1), ApStartAction::SendSipi(5, 8));
    assert_eq!(s.step(1), ApStartAction::WaitMs(1));
    // The processor came up: no second startup IPI.
    assert_eq!(s.step(2), ApStartAction::WaitMs(1));
    assert_eq!(s.step(2), ApStartAction::Finished);
    assert_eq!(s.stage, ApStartStage::Done);
    assert_eq!(s.step(2), ApStartAction::Finished);
}

#[test]
fn ap_start_protocol_slow_processor() {
    let mut s = ApStart::new(2, 1);
    for _ in 0..4 {
        s.step(1);
    }
    // Still one processor: the startup IPI goes again, then polling.
    assert_eq!(s.step(1), ApStartAction::SendSipi(2, 8));
    assert_eq!(s.step(1), ApStartAction::WaitMs(1));
    assert_eq!(s.step(1), ApStartAction::WaitMs(1));
    assert_eq!(s.step(1), ApStartAction::WaitMs(1));
    assert_eq!(s.step(2), ApStartAction::Finished);
}

#[test]
fn x86_kernel_pool_map_and_unmap() {
    let mut pool = KernelPool::new(KPOOL_PAGES);
    let a = MMUMapping::kmap(&mut pool, 0x20_0000, 2, MemoryType::Normal);
    assert_eq!(a, Some(0x1_0000_0000));
    // present, writable, global, no-execute
    assert_eq!(pool.ptes[0], 0x20_0000 | 0x1 | 0x2 | 0x100 | 0x8000_0000_0000_0000);
    assert_eq!(pool.ptes[1], 0x20_1000 | 0x1 | 0x2 | 0x100 | 0x8000_0000_0000_0000);
    let b = MMUMapping::kmap(&mut pool, 0xFEE0_0000, 1, MemoryType::Device);
    assert_eq!(b, Some(0x1_0000_2000));
    assert_eq!(pool.ptes[2], 0xFEE0_0000 | 0x1 | 0x2 | 0x100 | 0x10 | 0x8000_0000_0000_0000);
    assert!(MMUMapping::kunmap(&mut pool, 0x1_0000_0000, 2));
    assert_eq!(pool.ptes[0], 0);
    assert_eq!(pool.ptes[1], 0);
    assert_ne!(pool.ptes[2], 0);
    // the freed run is taken again first
    assert_eq!(MMUMapping::kmap(&mut pool, 0x30_0000, 2, MemoryType::OutputDMA), Some(0x1_0000_0000));
    assert_eq!(pool.ptes[0], 0x30_0000 | 0x1 | 0x2 | 0x100 | 0x8 | 0x8000_0000_0000_0000);
    // a run of three does not fit before the mapped page at index 2
    assert_eq!(MMUMapping::kunmap(&mut pool, 0x1_0000_0000, 2), true);
    assert_eq!(MMUMapping::kmap(&mut pool, 0x40_0000, 3, MemoryType::Normal), Some(0x1_0000_3000));
    // addresses outside the pool are left alone
    assert!(!MMUMapping::kunmap(&mut pool, 0x2_0000_0000, 1));
    assert!(!MMUMapping::kunmap(&mut pool, 0x1000, 1));
    assert_ne!(pool.ptes[3], 0);
}

#[test]
fn aarch64_kernel_pool_map_and_unmap() {
    let mut pool = KernelPool::new(ARM_KPOOL_PAGES);
    let a = ArmMMUMapping::kmap(&mut pool, 0x3F00_0000, 1, MemoryType::Device);
    assert_eq!(a, Some(0x1_0000_0000));
    // page descriptor, inner shareable, accessed, attribute index 2
    assert_eq!(pool.ptes[0], 0x3F00_0000 | 0x3 | 0x300 | 0x400 | (2 << 2));
    let b = ArmMMUMapping::kmap(&mut pool, 0x10_0000, 2, MemoryType::Normal);
    assert_eq!(b, Some(0x1_0000_1000));
    assert_eq!(pool.ptes[2], 0x10_1000 | 0x3 | 0x300 | 0x400);
    assert!(ArmMMUMapping::kunmap(&mut pool, 0x1_0000_0000, 1));
    assert_eq!(pool.ptes[0], 0);
    assert_eq!(ArmMMUMapping::kmap(&mut pool, 0x50_0000, 1, MemoryType::OutputDMA), Some(0x1_0000_0000));
    assert_eq!(pool.ptes[0], 0x50_0000 | 0x3 | 0x300 | 0x400 | (3 << 2));
    assert!(!ArmMMUMapping::kunmap(&mut pool, 0x2_0000_0000, 1));
}

#[test]
fn acpi_table_signatures() {
    assert_eq!(acpi_table_kind(u32::from_le_bytes(*b"APIC")), AcpiTableKind::Madt);
    assert_eq!(acpi_table_kind(u32::from_le_bytes(*b"FACP")), AcpiTableKind::Facp);
    assert_eq!(acpi_table_kind(u32::from_le_bytes(*b"HPET")), AcpiTableKind::Hpet);
    assert_eq!(acpi_table_kind(u32::from_le_bytes(*b"SSDT")), AcpiTableKind::Other);
}

#[test]
fn x86_release_frames_of_an_address_space() {
    let mut m = MMUMapping::new();
    m.init(0x1000, 0x2000, 0x10000);
    m.add_spare_frame(0x3000);
    m.add_spare_frame(0x4000);
    assert!(m.map_pages(0x2_0000_0000, &[0x11_0000], true, false, MemoryType::Normal));
    assert!(m.map_pages(0x2_0000_1000, &[0x10_0000], true, false, MemoryType::Normal));
    // The kernel's shared directories are not released; both pages of the
    // process are, from the very start of its part.
    assert_eq!(m.release_frames(), vec![0x11_0000, 0x10_0000, 0x3000, 0x4000, 0x2000, 0x1000]);
}

#[test]
fn x86_direct_map_pool() {
    let mut m = MMUMapping::new();
    m.init(0x1000, 0x2000, 0x10000);
    m.add_spare_frame(0x3000);
    m.add_spare_frame(0x4000);
    m.add_spare_frame(0x5000);
    m.add_spare_frame(0x6000);
    assert_eq!(m.dmap_pages(&[0x50_0000, 0x51_0000]), Some(0x7F_0000_0000));
    assert_eq!(m.virt_to_phys_from_map(0x7F_0000_1000), Some(0x51_0000));
    assert_eq!(m.dmap_pages(&[0x52_0000]), Some(0x7F_0000_2000));
    assert_eq!(m.virt_to_phys_from_map(0x7F_0000_2000), Some(0x52_0000));
    assert_eq!(m.mapped_pages_count(), 3);
    // frames of the pool are not released, its tables are
    let r = m.release_frames();
    assert!(!r.contains(&0x50_0000));
    assert!(r.contains(&0x6000) && r.contains(&0x5000));
}

#[test]
fn aarch64_release_frames_of_an_address_space() {
    let mut m = ArmMMUMapping::new();
    m.init(0x1000);
    m.add_spare_frame(0x3000);
    m.add_spare_frame(0x4000);
    assert!(m.map_pages(0xFFFF_FFF0_0000_0000, &[0x10_0000], true, false));
    assert_eq!(m.release_frames(), vec![0x10_0000, 0x3000, 0x4000, 0x1000]);
}

fn le32_bytes(v: u32) -> [u8; 4] {
    v.to_le_bytes()
}

#[test]
fn acpi_tables_are_read_by_signature() {
    // MADT: header, one local APIC, one I/O APIC, one IRQ override
    let mut madt = vec![0u8; 44];
    madt[0..4].copy_from_slice(b"APIC");
    madt[4..8].copy_from_slice(&le32_bytes(74));
    madt[36..40].copy_from_slice(&le32_bytes(0xFEE0_0000));
    madt.extend_from_slice(&[0, 8, 0, 0, 1, 0, 0, 0]);
    madt.extend_from_slice(&[1, 12, 2, 0]);
    madt.extend_from_slice(&le32_bytes(0xFEC0_0000));
    madt.extend_from_slice(&le32_bytes(0));
    madt.extend_from_slice(&[2, 10, 0, 0]);
    madt.extend_from_slice(&le32_bytes(2));
    madt.extend_from_slice(&[0, 0]);
    // FADT: the reset register is I/O port 0xCF9, value 6
    let mut facp = vec![0u8; 132];
    facp[0..4].copy_from_slice(b"FACP");
    facp[116] = 1;
    facp[120..128].copy_from_slice(&0xCF9u64.to_le_bytes());
    facp[128] = 6;
    let mut hpet = vec![0u8; 56];
    hpet[0..4].copy_from_slice(b"HPET");
    let mut ssdt = vec![0u8; 36];
    ssdt[0..4].copy_from_slice(b"SSDT");
    let tables = vec![
        AcpiTable { addr: 0x1000, bytes: madt },
        AcpiTable { addr: 0x2000, bytes: facp },
        AcpiTable { addr: 0x3000, bytes: hpet },
        AcpiTable { addr: 0x4000, bytes: ssdt },
        AcpiTable { addr: 0x5000, bytes: vec![b'A', b'P'] },
    ];
    let acpi = x86_acpi_parse(&tables);
    assert_eq!((acpi.madt_base, acpi.fadt_base, acpi.hpet_base), (0x1000, 0x2000, 0x3000));
    assert_eq!(acpi.lapic_mmio, 0xFEE0_0000);
    assert_eq!(acpi.lapic.len(), 1);
    assert_eq!((acpi.lapic[0].cpu_id, acpi.lapic[0].lapic_id, acpi.lapic[0].enabled), (0, 0, true));
    assert_eq!((acpi.ioapic.ioapic_id, acpi.ioapic.ioapic_mmio, acpi.ioapic.gsi_base), (2, 0xFEC0_0000, 0));
    assert_eq!(acpi.irq_map.len(), 1);
    assert_eq!((acpi.irq_map[0].src_irq, acpi.irq_map[0].dst_gsi), (0, 2));
    assert!(matches!(acpi.reboot_reg, AcpiGenericAddress::IOPort { port_num: 0xCF9 }));
    assert_eq!(acpi.reboot_val, 6);
    // a FADT too short for its reset register is passed over
    let short = vec![AcpiTable { addr: 0x6000, bytes: b"FACP".to_vec() }];
    let a = x86_acpi_parse(&short);
    assert_eq!(a.fadt_base, 0);
}

#[test]
fn mapping_into_existing_tables_takes_no_spare_frame() {
    let mut m = MMUMapping::new();
    m.init(0x1000, 0x2000, 0x10000);
    m.add_spare_frame(0x3000);
    m.add_spare_frame(0x4000);
    assert!(m.map_pages(0x2_0000_0000, &[0x11_0000], true, false, MemoryType::Normal));
    assert!(m.spare_frames.is_empty());
    assert!(m.map_pages(0x2_0000_1000, &[0x12_0000, 0x13_0000], true, false, MemoryType::Normal));
    assert_eq!(m.virt_to_phys_from_map(0x2_0000_2004), Some(0x13_0004));
    let mut a = ArmMMUMapping::new();
    a.init(0x1000);
    a.add_spare_frame(0x3000);
    a.add_spare_frame(0x4000);
    assert!(a.map_pages(0xFFFF_FFF0_0000_0000, &[0x10_0000], true, false));
    assert!(a.spare_frames.is_empty());
    assert!(a.map_pages(0xFFFF_FFF0_0000_1000, &[0x11_0000], true, false));
    assert_eq!(a.virt_to_phys(0xFFFF_FFF0_0000_1008), Some(0x11_0008));
}

#[test]
fn tsc_source_falls_back_to_hpet_then_pit() {
    let src = |ecx15: u32, hpet: bool| {
        X86TimeStampCounter::init_source(0x000506E3, 1 << 24, 0x10, 0x8000_0008, 0x100, 2, 200, ecx15, hpet)
    };
    assert_eq!(src(0, true), Ok(TscSource::CalibrateHpet));
    assert_eq!(src(0, false), Ok(TscSource::CalibratePit));
    assert_eq!(
        src(24_000_000, false),
        Ok(TscSource::Crystal { crystal_hz: 24_000_000, numerator: 200, denominator: 2 })
    );
    // model 0x4E reports no crystal but has a nominal one
    assert_eq!(
        X86TimeStampCounter::init_source(0x000406E3, 1 << 24, 0x10, 0x8000_0008, 0x100, 2, 200, 0, false),
        Ok(TscSource::Crystal { crystal_hz: 24_000_000, numerator: 200, denominator: 2 })
    );
    assert_eq!(X86TimeStampCounter::init_source(0, 0, 0, 0, 0, 0, 0, 0, true), Err(TscError::NoTsc));
    let mut t = X86TimeStampCounter::new();
    t.set_frequency(2_400_000_000, TscSource::Crystal { crystal_hz: 24_000_000, numerator: 200, denominator: 2 });
    assert!(t.enabled());
    t.set_frequency(1_000_000, TscSource::CalibratePit);
    assert!(!t.enabled());
    assert_eq!(t.freq_hz(), 1_000_000);
}
