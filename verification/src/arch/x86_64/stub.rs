//! x86_64 machine support: the boot information handed over by the
//! Multiboot2 loader, the ACPI tables, and what the interrupt controllers,
//! the serial port and the boot console are told. Port and register
//! accesses are performed by the caller with the values computed here.
use vstd::prelude::*;
use crate::mem::PMMapElement;
use crate::util::{le16, le32, le64, spec_le16, spec_le32, spec_le64};

verus! {

// ---------------------------------------------------------------------------
// Multiboot2 boot information
// ---------------------------------------------------------------------------

pub const MB2_TAG_END: u32 = 0;
pub const MB2_TAG_MEMORY_MAP: u32 = 6;
pub const MB2_TAG_VBE: u32 = 7;
pub const MB2_TAG_FRAMEBUFFER: u32 = 8;
pub const MB2_TAG_ACPI_OLD: u32 = 14;
pub const MB2_TAG_ACPI_NEW: u32 = 15;

/// The VBE information tag.
pub struct Multiboot2VBE {
    pub mode: u16,
    pub interface_seg: u16,
    pub interface_off: u16,
    pub interface_len: u16,
    pub info_block: [u8; 512],
    pub mode_info_block: [u8; 512],
}

/// The frame buffer information tag.
#[derive(Clone, Copy, Debug)]
pub struct Multiboot2FrameBuffer {
    pub addr: u64,
    pub pitch: u32,
    pub width: u32,
    pub height: u32,
    pub bpp: u8,
    pub fbtype: u8,
    pub rsvd: u16,
    pub color_info: [u8; 6],
}

/// `f` is the frame buffer tag data at `off`.
pub open spec fn fb_at(f: Multiboot2FrameBuffer, s: Seq<u8>, off: int) -> bool {
    &&& f.addr == spec_le64(s, off)
    &&& f.pitch == spec_le32(s, off + 8)
    &&& f.width == spec_le32(s, off + 12)
    &&& f.height == spec_le32(s, off + 16)
    &&& f.bpp == s[off + 20]
    &&& f.fbtype == s[off + 21]
    &&& f.rsvd == spec_le16(s, off + 22)
    &&& f.color_info@ == s.subrange(off + 24, off + 30)
}

fn fb_from(s: &[u8], off: usize) -> (f: Multiboot2FrameBuffer)
    requires
        off + 30 <= s@.len(),
    ensures
        fb_at(f, s@, off as int),
{
    let _n = s.len();
    let ci: [u8; 6] = [s[off + 24], s[off + 25], s[off + 26], s[off + 27], s[off + 28], s[off + 29]];
    assert(ci@ =~= s@.subrange(off + 24, off + 30));
    Multiboot2FrameBuffer {
        addr: le64(s, off),
        pitch: le32(s, off + 8),
        width: le32(s, off + 12),
        height: le32(s, off + 16),
        bpp: s[off + 20],
        fbtype: s[off + 21],
        rsvd: le16(s, off + 22),
        color_info: ci,
    }
}

/// The frame buffer as the console draws on it.
#[derive(Clone, Copy, Debug)]
pub struct FrameBufferInfo {
    pub base_address: usize,
    pub pitch: u32,
    pub width: u32,
    pub height: u32,
    pub bpp: u8,
    pub red_field_position: u8,
    pub red_mask_size: u8,
    pub green_field_position: u8,
    pub green_mask_size: u8,
    pub blue_field_position: u8,
    pub blue_mask_size: u8,
    pub background_rgb: (u8, u8, u8),
    pub foreground_rgb: (u8, u8, u8),
}

/// The frame buffer the loader set up, with blue text on a light grey
/// background.
pub fn init_framebuffer_from_mb2(inp: &Multiboot2FrameBuffer) -> (fb: FrameBufferInfo)
    ensures
        fb.base_address == inp.addr as usize,
        fb.pitch == inp.pitch && fb.width == inp.width && fb.height == inp.height,
        fb.bpp == inp.bpp,
        fb.red_field_position == inp.color_info@[0] && fb.red_mask_size == inp.color_info@[1],
        fb.green_field_position == inp.color_info@[2] && fb.green_mask_size == inp.color_info@[3],
        fb.blue_field_position == inp.color_info@[4] && fb.blue_mask_size == inp.color_info@[5],
        fb.background_rgb == (240u8, 240u8, 240u8),
        fb.foreground_rgb == (0u8, 0u8, 255u8),
{
    FrameBufferInfo {
        base_address: inp.addr as usize,
        pitch: inp.pitch,
        width: inp.width,
        height: inp.height,
        bpp: inp.bpp,
        red_field_position: inp.color_info[0],
        red_mask_size: inp.color_info[1],
        green_field_position: inp.color_info[2],
        green_mask_size: inp.color_info[3],
        blue_field_position: inp.color_info[4],
        blue_mask_size: inp.color_info[5],
        background_rgb: (240, 240, 240),
        foreground_rgb: (0, 0, 255),
    }
}

/// What the boot information tells the kernel: where the ACPI root pointer
/// is (an offset into the information), the frame buffer and the memory map.
pub struct Mb2BootInfo {
    pub acpi_rsdp: Option<usize>,
    pub framebuffer: Option<Multiboot2FrameBuffer>,
    pub mem_map: Vec<PMMapElement>,
}

/// The memory map entry at `off`: available only if the loader says so and
/// it starts at or above 1 MiB.
pub open spec fn mmap_entry(s: Seq<u8>, off: int) -> PMMapElement {
    let base = spec_le64(s, off) as usize;
    PMMapElement {
        base,
        len: spec_le64(s, off + 8) as usize,
        avail: base >= 0x100000 && spec_le32(s, off + 16) == 1,
    }
}

/// Padding after a tag so that the next one starts 8-byte aligned.
pub open spec fn tag_pad(end: int) -> int {
    if end % 8 == 0 {
        0
    } else {
        8 - end % 8
    }
}

/// The memory map of a memory map tag at `t` of `size` bytes: at most 32
/// entries of `entry_size` bytes (those that fit in the information).
pub open spec fn mmap_entries(s: Seq<u8>, t: int, size: int, entry_size: int) -> Seq<PMMapElement> {
    let cnt = (size - 8) / entry_size;
    let cnt = if cnt > 32 { 32 } else { cnt };
    let fit = if t + 36 > s.len() { 0 } else { (s.len() - (t + 36)) / entry_size + 1 };
    let n = if cnt > fit { fit } else { cnt };
    Seq::new(if n < 0 { 0 } else { n as nat }, |i: int| mmap_entry(s, t + 16 + i * entry_size))
}

/// Reading the tags from offset `t` on, with `left` bytes of tags left
/// (at most `fuel` tags): the ACPI root pointer offset, the offset of the
/// frame buffer tag data and the memory map.
pub open spec fn mb2_walk(s: Seq<u8>, t: int, left: int, acpi: Option<usize>, fb: Option<int>, mm: Seq<PMMapElement>, fuel: nat) -> (Option<usize>, Option<int>, Seq<PMMapElement>)
    decreases fuel,
{
    if fuel == 0 || left <= 0 || t < 0 || t + 8 > s.len() {
        (acpi, fb, mm)
    } else {
        let ty = spec_le32(s, t);
        let size = spec_le32(s, t + 4);
        let step = size + tag_pad(t + size);
        if ty == MB2_TAG_END || step > left || size < 8 {
            (acpi, fb, mm)
        } else {
            let acpi2 = if ty == MB2_TAG_ACPI_OLD || ty == MB2_TAG_ACPI_NEW {
                Some((t + 8) as usize)
            } else {
                acpi
            };
            let fb2 = if ty == MB2_TAG_FRAMEBUFFER && t + 38 <= s.len() {
                Some(t + 8)
            } else {
                fb
            };
            let mm2 = if ty == MB2_TAG_MEMORY_MAP && t + 12 <= s.len() && spec_le32(s, t + 8) > 0 {
                mmap_entries(s, t, size, spec_le32(s, t + 8))
            } else {
                mm
            };
            mb2_walk(s, t + step, left - step, acpi2, fb2, mm2, (fuel - 1) as nat)
        }
    }
}

fn read_mmap(s: &[u8], t: usize, size: u32, entry_size: u32) -> (mm: Vec<PMMapElement>)
    requires
        entry_size > 0,
        t + 12 <= s@.len(),
    ensures
        mm@ == mmap_entries(s@, t as int, size as int, entry_size as int),
{
    let n = s.len();
    let cnt0: usize = if size < 8 { 0 } else { ((size - 8) / entry_size) as usize };
    let cnt1: usize = if cnt0 > 32 { 32 } else { cnt0 };
    let fit: usize = if n < 36 || t > n - 36 { 0 } else { (n - (t + 36)) / entry_size as usize + 1 };
    let cnt: usize = if cnt1 > fit { fit } else { cnt1 };
    let ghost want = mmap_entries(s@, t as int, size as int, entry_size as int);
    assert(want.len() == cnt) by {
        if size < 8 {
            assert((size - 8) / (entry_size as int) < 0) by (nonlinear_arith)
                requires size < 8, entry_size > 0;
        }
    }
    let mut mm: Vec<PMMapElement> = Vec::new();
    let mut i: usize = 0;
    while i < cnt
        invariant
            n == s@.len(),
            cnt == want.len(),
            want == mmap_entries(s@, t as int, size as int, entry_size as int),
            cnt <= fit,
            fit == if t + 36 > n { 0 } else { (n - (t + 36)) / entry_size as int + 1 },
            entry_size > 0,
            i <= cnt,
            mm@ == want.subrange(0, i as int),
        decreases cnt - i,
    {
        assert(t + 16 + i * entry_size + 20 <= n) by (nonlinear_arith)
            requires
                i < cnt,
                cnt <= fit,
                fit == (n - (t + 36)) / entry_size as int + 1,
                t + 36 <= n,
                entry_size > 0,
        ;
        let off = t + 16 + i * entry_size as usize;
        let base = le64(s, off) as usize;
        let e = PMMapElement {
            base,
            len: le64(s, off + 8) as usize,
            avail: base >= 0x100000 && le32(s, off + 16) == 1,
        };
        mm.push(e);
        i = i + 1;
        assert(mm@ =~= want.subrange(0, i as int));
    }
    assert(want.subrange(0, cnt as int) =~= want);
    mm
}

/// Reads the Multiboot2 information the loader left (starting with its
/// total size, then 8-byte aligned tags up to the end tag).
pub fn parse_multiboot2(s: &[u8]) -> (r: Mb2BootInfo)
    requires
        8 <= s@.len() < 0x7fff_ffff,
    ensures
        ({
            let w = mb2_walk(s@, 8, spec_le32(s@, 0), None, None, Seq::empty(), s@.len());
            &&& r.acpi_rsdp == w.0
            &&& match w.1 {
                Some(o) => r.framebuffer matches Some(f) && fb_at(f, s@, o),
                None => r.framebuffer is None,
            }
            &&& r.mem_map@ == w.2
        }),
{
    let n = s.len();
    let mut left: u64 = le32(s, 0) as u64;
    let mut t: usize = 8;
    let mut acpi: Option<usize> = None;
    let mut fb: Option<Multiboot2FrameBuffer> = None;
    let ghost mut fb_off: Option<int> = None;
    let mut mm: Vec<PMMapElement> = Vec::new();
    let mut fuel: usize = n;
    let mut done = false;
    let ghost w0 = mb2_walk(s@, 8, spec_le32(s@, 0), None, None, Seq::empty(), s@.len());
    while !done && fuel > 0
        invariant
            n == s@.len(),
            n < 0x7fff_ffff,
            w0 == mb2_walk(s@, 8, spec_le32(s@, 0), None, None, Seq::empty(), s@.len()),
            t <= n + 8,
            match fb_off {
                Some(o) => fb matches Some(f) && fb_at(f, s@, o),
                None => fb is None,
            },
            done ==> w0 == (acpi, fb_off, mm@),
            !done ==> w0 == mb2_walk(s@, t as int, left as int, acpi, fb_off, mm@, fuel as nat),
        decreases fuel + if done { 0int } else { 1int },
    {
        if left == 0 || t > n || n - t < 8 {
            done = true;
        } else {
            let ty = le32(s, t);
            let size = le32(s, t + 4);
            let end: u64 = t as u64 + size as u64;
            let pad: u64 = if end % 8 == 0 { 0 } else { 8 - end % 8 };
            let step: u64 = size as u64 + pad;
            if ty == MB2_TAG_END || step > left || size < 8 {
                done = true;
            } else {
                if ty == MB2_TAG_ACPI_OLD || ty == MB2_TAG_ACPI_NEW {
                    acpi = Some(t + 8);
                }
                if ty == MB2_TAG_FRAMEBUFFER && n - t >= 38 {
                    fb = Some(fb_from(s, t + 8));
                    proof { fb_off = Some(t + 8); }
                }
                if ty == MB2_TAG_MEMORY_MAP && n - t >= 12 {
                    let es = le32(s, t + 8);
                    if es > 0 {
                        mm = read_mmap(s, t, size, es);
                    }
                }
                left = left - step;
                if step > (n - t) as u64 + 8 {
                    proof {
                        assert(mb2_walk(s@, t + step, left as int, acpi, fb_off, mm@, (fuel - 1) as nat) == (acpi, fb_off, mm@));
                    }
                    done = true;
                } else {
                    t = t + step as usize;
                }
                fuel = fuel - 1;
            }
        }
    }
    Mb2BootInfo { acpi_rsdp: acpi, framebuffer: fb, mem_map: mm }
}

// ---------------------------------------------------------------------------
// ACPI
// ---------------------------------------------------------------------------

pub const MAX_CPU_COUNT: usize = 8;
pub const MAX_IRQ_COUNT: usize = 16;
/// "RSD PTR " read as a little-endian 64-bit word
pub const RSDP_SIGNATURE: u64 = 0x2052545020445352;
/// Table signatures read as little-endian words: "APIC", "FACP", "HPET"
pub const SIG_MADT: u32 = 0x43495041;
pub const SIG_FADT: u32 = 0x50434146;
pub const SIG_HPET: u32 = 0x54455048;

/// A register address as ACPI describes it.
#[derive(Clone, Copy, Debug, PartialEq, Eq, Structural)]
pub enum AcpiGenericAddress {
    Memory { addr: usize },
    IOPort { port_num: u16 },
    Unsupported,
}

/// The generic address structure at `off`: address space (0 memory, 1 I/O
/// port) and the 64-bit address at `off + 4`.
pub open spec fn spec_generic_address(s: Seq<u8>, off: int) -> AcpiGenericAddress {
    if s[off] == 0 {
        AcpiGenericAddress::Memory { addr: spec_le64(s, off + 4) as usize }
    } else if s[off] == 1 {
        AcpiGenericAddress::IOPort { port_num: spec_le64(s, off + 4) as u16 }
    } else {
        AcpiGenericAddress::Unsupported
    }
}

impl AcpiGenericAddress {
    /// Decodes the generic address structure at `off` in `s`.
    pub fn from_acpi_entry(s: &[u8], off: usize) -> (a: Self)
        requires
            off + 12 <= s@.len(),
        ensures
            a == spec_generic_address(s@, off as int),
    {
        let _n = s.len();
        let space = s[off];
        let addr = le64(s, off + 4);
        if space == 0 {
            AcpiGenericAddress::Memory { addr: addr as usize }
        } else if space == 1 {
            AcpiGenericAddress::IOPort { port_num: addr as u16 }
        } else {
            AcpiGenericAddress::Unsupported
        }
    }
}

/// A processor's local APIC.
#[derive(Clone, Copy, Debug)]
pub struct AcpiLocalApic {
    pub cpu_id: u8,
    pub lapic_id: u8,
    pub enabled: bool,
}

impl AcpiLocalApic {
    pub fn new() -> (a: Self)
        ensures
            a.cpu_id == 0 && a.lapic_id == 0 && !a.enabled,
    {
        AcpiLocalApic { cpu_id: 0, lapic_id: 0, enabled: false }
    }
}

/// The I/O APIC.
#[derive(Clone, Copy, Debug)]
pub struct AcpiIOApic {
    pub ioapic_id: u8,
    pub ioapic_mmio: u32,
    pub gsi_base: u32,
}

impl AcpiIOApic {
    pub fn new() -> (a: Self)
        ensures
            a.ioapic_id == 0 && a.ioapic_mmio == 0 && a.gsi_base == 0,
    {
        AcpiIOApic { ioapic_id: 0, ioapic_mmio: 0, gsi_base: 0 }
    }
}

/// A legacy IRQ routed to a global system interrupt.
#[derive(Clone, Copy, Debug)]
pub struct AcpiIRQMapping {
    pub src_bus: u8,
    pub src_irq: u8,
    pub dst_gsi: u32,
    pub active_low: bool,
    pub lvl_trig: bool,
}

impl AcpiIRQMapping {
    pub fn new() -> (a: Self)
        ensures
            a.src_bus == 0 && a.src_irq == 0 && a.dst_gsi == 0 && !a.active_low && !a.lvl_trig,
    {
        AcpiIRQMapping { src_bus: 0, src_irq: 0, dst_gsi: 0, active_low: false, lvl_trig: false }
    }
}

/// The NMI input of a set of processors.
#[derive(Clone, Copy, Debug)]
pub struct AcpiNmiMapping {
    pub cpu_id_mask: u8,
    pub lint_vector: u8,
    pub active_low: bool,
    pub lvl_trig: bool,
}

impl AcpiNmiMapping {
    pub fn new() -> (a: Self)
        ensures
            a.cpu_id_mask == 0 && a.lint_vector == 0 && !a.active_low && !a.lvl_trig,
    {
        AcpiNmiMapping { cpu_id_mask: 0, lint_vector: 0, active_low: false, lvl_trig: false }
    }
}

/// What the ACPI tables tell about the machine.
pub struct AcpiInfo {
    pub madt_base: u32,
    pub fadt_base: u32,
    pub hpet_base: u32,
    pub lapic_mmio: u32,
    pub lapic: Vec<AcpiLocalApic>,
    pub ioapic: AcpiIOApic,
    pub irq_map: Vec<AcpiIRQMapping>,
    pub nmi_map: Vec<AcpiNmiMapping>,
    pub reboot_reg: AcpiGenericAddress,
    pub reboot_val: u8,
}

impl AcpiInfo {
    pub fn new() -> (a: Self)
        ensures
            a.madt_base == 0 && a.fadt_base == 0 && a.hpet_base == 0 && a.lapic_mmio == 0,
            a.lapic@.len() == 0 && a.irq_map@.len() == 0 && a.nmi_map@.len() == 0,
            a.ioapic.ioapic_mmio == 0 && a.ioapic.ioapic_id == 0 && a.ioapic.gsi_base == 0,
            a.reboot_reg == AcpiGenericAddress::Unsupported && a.reboot_val == 0,
    {
        AcpiInfo {
            madt_base: 0,
            fadt_base: 0,
            hpet_base: 0,
            lapic_mmio: 0,
            lapic: Vec::new(),
            ioapic: AcpiIOApic::new(),
            irq_map: Vec::new(),
            nmi_map: Vec::new(),
            reboot_reg: AcpiGenericAddress::Unsupported,
            reboot_val: 0,
        }
    }
}

/// Bytes an entry of a MADT type needs.
pub open spec fn madt_entry_need(ty: u8) -> int {
    if ty == 0 {
        5
    } else if ty == 1 {
        12
    } else if ty == 2 {
        10
    } else if ty == 4 {
        7
    } else {
        2
    }
}

/// The MADT entries from offset `off` on, up to `len` (the table length):
/// the local APICs (the first `MAX_CPU_COUNT` of them), the first I/O APIC,
/// the IRQ and the NMI routings.
/// Walking stops at an empty or truncated entry.
pub open spec fn madt_walk(
    s: Seq<u8>,
    off: int,
    len: int,
    lapics: Seq<AcpiLocalApic>,
    io: AcpiIOApic,
    irqs: Seq<AcpiIRQMapping>,
    nmis: Seq<AcpiNmiMapping>,
) -> (Seq<AcpiLocalApic>, AcpiIOApic, Seq<AcpiIRQMapping>, Seq<AcpiNmiMapping>)
    decreases (if len > s.len() { len } else { s.len() as int }) + 256 - off,
{
    if off < 0 || off >= len || off + 2 > s.len() || s[off + 1] == 0 || off + madt_entry_need(s[off]) > s.len() {
        (lapics, io, irqs, nmis)
    } else {
        let ty = s[off];
        let next = off + s[off + 1];
        if ty == 0 {
            let l2 = if lapics.len() < MAX_CPU_COUNT {
                lapics.push(AcpiLocalApic { cpu_id: s[off + 2], lapic_id: s[off + 3], enabled: s[off + 4] == 1 })
            } else {
                lapics
            };
            madt_walk(s, next, len, l2, io, irqs, nmis)
        } else if ty == 1 {
            let io2 = if io.ioapic_mmio == 0 {
                AcpiIOApic {
                    ioapic_id: s[off + 2],
                    ioapic_mmio: spec_le32(s, off + 4) as u32,
                    gsi_base: spec_le32(s, off + 8) as u32,
                }
            } else {
                io
            };
            madt_walk(s, next, len, lapics, io2, irqs, nmis)
        } else if ty == 2 {
            let flags = spec_le16(s, off + 8) as u16;
            madt_walk(s, next, len, lapics, io, irqs.push(AcpiIRQMapping {
                src_bus: s[off + 2],
                src_irq: s[off + 3],
                dst_gsi: spec_le32(s, off + 4) as u32,
                active_low: flags & 2 == 2,
                lvl_trig: flags & 8 == 8,
            }), nmis)
        } else if ty == 4 {
            let flags = spec_le16(s, off + 3) as u16;
            madt_walk(s, next, len, lapics, io, irqs, nmis.push(AcpiNmiMapping {
                cpu_id_mask: s[off + 2],
                lint_vector: s[off + 5],
                active_low: flags & 2 == 2,
                lvl_trig: flags & 8 == 8,
            }))
        } else {
            madt_walk(s, next, len, lapics, io, irqs, nmis)
        }
    }
}

/// Reads the MADT found at `madt_addr` (its bytes are `madt`): the local
/// APIC address and the interrupt controller entries.
pub fn x86_acpi_parse_madt(acpi: &mut AcpiInfo, madt: &[u8], madt_addr: u32)
    requires
        madt@.len() >= 44,
        madt@.len() <= u32::MAX,
    ensures
        ({
            let w = madt_walk(
                madt@,
                44,
                spec_le32(madt@, 4),
                Seq::empty(),
                old(acpi).ioapic,
                Seq::empty(),
                Seq::empty(),
            );
            &&& final(acpi).madt_base == madt_addr
            &&& final(acpi).lapic_mmio == spec_le32(madt@, 36)
            &&& final(acpi).lapic@ == w.0
            &&& final(acpi).ioapic == w.1
            &&& final(acpi).irq_map@ == w.2
            &&& final(acpi).nmi_map@ == w.3
        }),
        final(acpi).fadt_base == old(acpi).fadt_base,
        final(acpi).hpet_base == old(acpi).hpet_base,
        final(acpi).reboot_reg == old(acpi).reboot_reg,
        final(acpi).reboot_val == old(acpi).reboot_val,
{
    let n = madt.len() as u64;
    let len = le32(madt, 4) as u64;
    acpi.madt_base = madt_addr;
    acpi.lapic_mmio = le32(madt, 36);
    let mut lapics: Vec<AcpiLocalApic> = Vec::new();
    let mut irqs: Vec<AcpiIRQMapping> = Vec::new();
    let mut nmis: Vec<AcpiNmiMapping> = Vec::new();
    let mut io = acpi.ioapic;
    let ghost w0 = madt_walk(madt@, 44, len as int, Seq::empty(), io, Seq::empty(), Seq::empty());
    let mut off: u64 = 44;
    let mut done = false;
    while !done
        invariant
            n == madt@.len(),
            n <= u32::MAX,
            off <= n,
            done ==> w0 == (lapics@, io, irqs@, nmis@),
            !done ==> w0 == madt_walk(madt@, off as int, len as int, lapics@, io, irqs@, nmis@),
        decreases n - off + if done { 0int } else { 1int },
    {
        if off >= len || off + 2 > n {
            done = true;
        } else {
            let o = off as usize;
            let ty = madt[o];
            let el = madt[o + 1];
            let need: u64 = if ty == 0 { 5 } else if ty == 1 { 12 } else if ty == 2 { 10 } else if ty == 4 { 7 } else { 2 };
            if el == 0 || off + need > n {
                done = true;
            } else {
                if ty == 0 {
                    if lapics.len() < MAX_CPU_COUNT {
                        lapics.push(AcpiLocalApic { cpu_id: madt[o + 2], lapic_id: madt[o + 3], enabled: madt[o + 4] == 1 });
                    }
                } else if ty == 1 {
                    if io.ioapic_mmio == 0 {
                        io = AcpiIOApic { ioapic_id: madt[o + 2], ioapic_mmio: le32(madt, o + 4), gsi_base: le32(madt, o + 8) };
                    }
                } else if ty == 2 {
                    let flags = le16(madt, o + 8);
                    irqs.push(AcpiIRQMapping {
                        src_bus: madt[o + 2],
                        src_irq: madt[o + 3],
                        dst_gsi: le32(madt, o + 4),
                        active_low: flags & 2 == 2,
                        lvl_trig: flags & 8 == 8,
                    });
                } else if ty == 4 {
                    let flags = le16(madt, o + 3);
                    nmis.push(AcpiNmiMapping {
                        cpu_id_mask: madt[o + 2],
                        lint_vector: madt[o + 5],
                        active_low: flags & 2 == 2,
                        lvl_trig: flags & 8 == 8,
                    });
                }
                let next = off + el as u64;
                if next >= len || next > n {
                    proof {
                        assert(madt_walk(madt@, next as int, len as int, lapics@, io, irqs@, nmis@) == (lapics@, io, irqs@, nmis@));
                    }
                    done = true;
                } else {
                    off = next;
                }
            }
        }
    }
    acpi.lapic = lapics;
    acpi.ioapic = io;
    acpi.irq_map = irqs;
    acpi.nmi_map = nmis;
}

/// Reads the FADT found at `addr` (its bytes are `facp`): the reset
/// register (at byte 116) and the value that resets the machine (byte 128).
pub fn x86_acpi_parse_facp(acpi: &mut AcpiInfo, facp: &[u8], addr: u32)
    requires
        facp@.len() >= 129,
    ensures
        final(acpi).fadt_base == addr,
        final(acpi).reboot_reg == spec_generic_address(facp@, 116),
        final(acpi).reboot_val == facp@[128],
        final(acpi).madt_base == old(acpi).madt_base,
        final(acpi).hpet_base == old(acpi).hpet_base,
        final(acpi).lapic_mmio == old(acpi).lapic_mmio,
        final(acpi).lapic@ == old(acpi).lapic@,
        final(acpi).ioapic == old(acpi).ioapic,
        final(acpi).irq_map@ == old(acpi).irq_map@,
        final(acpi).nmi_map@ == old(acpi).nmi_map@,
{
    acpi.fadt_base = addr;
    acpi.reboot_reg = AcpiGenericAddress::from_acpi_entry(facp, 116);
    acpi.reboot_val = facp[128];
}

/// Records where the HPET table is.
pub fn x86_acpi_parse_hpet(acpi: &mut AcpiInfo, addr: u32)
    ensures
        final(acpi).hpet_base == addr,
        final(acpi).madt_base == old(acpi).madt_base,
        final(acpi).fadt_base == old(acpi).fadt_base,
        final(acpi).lapic@ == old(acpi).lapic@,
        final(acpi).irq_map@ == old(acpi).irq_map@,
        final(acpi).nmi_map@ == old(acpi).nmi_map@,
        final(acpi).reboot_reg == old(acpi).reboot_reg,
        final(acpi).reboot_val == old(acpi).reboot_val,
        final(acpi).lapic_mmio == old(acpi).lapic_mmio,
        final(acpi).ioapic == old(acpi).ioapic,
{
    acpi.hpet_base = addr;
}

/// The ACPI tables the kernel reads, by their signature.
#[derive(Clone, Copy, Debug, PartialEq, Eq, Structural)]
pub enum AcpiTableKind {
    /// `"APIC"`: the MADT
    Madt,
    /// `"FACP"`: the FADT
    Facp,
    /// `"HPET"`
    Hpet,
    Other,
}

/// Which table a signature (the table's first four bytes, little-endian)
/// names; each is then read by its own parser.
pub fn acpi_table_kind(sig: u32) -> (k: AcpiTableKind)
    ensures
        k == if sig == 0x43495041 {
            AcpiTableKind::Madt
        } else if sig == 0x50434146 {
            AcpiTableKind::Facp
        } else if sig == 0x54455048 {
            AcpiTableKind::Hpet
        } else {
            AcpiTableKind::Other
        },
{
    if sig == 0x43495041 {
        AcpiTableKind::Madt
    } else if sig == 0x50434146 {
        AcpiTableKind::Facp
    } else if sig == 0x54455048 {
        AcpiTableKind::Hpet
    } else {
        AcpiTableKind::Other
    }
}

/// A system description table as read from memory: its address and its
/// bytes.
pub struct AcpiTable {
    pub addr: u32,
    pub bytes: Vec<u8>,
}

/// What the ACPI tables tell, as values.
pub struct AcpiView {
    pub madt_base: u32,
    pub fadt_base: u32,
    pub hpet_base: u32,
    pub lapic_mmio: u32,
    pub lapic: Seq<AcpiLocalApic>,
    pub ioapic: AcpiIOApic,
    pub irq_map: Seq<AcpiIRQMapping>,
    pub nmi_map: Seq<AcpiNmiMapping>,
    pub reboot_reg: AcpiGenericAddress,
    pub reboot_val: u8,
}

impl AcpiInfo {
    pub open spec fn view_acpi(&self) -> AcpiView {
        AcpiView {
            madt_base: self.madt_base,
            fadt_base: self.fadt_base,
            hpet_base: self.hpet_base,
            lapic_mmio: self.lapic_mmio,
            lapic: self.lapic@,
            ioapic: self.ioapic,
            irq_map: self.irq_map@,
            nmi_map: self.nmi_map@,
            reboot_reg: self.reboot_reg,
            reboot_val: self.reboot_val,
        }
    }
}

/// Nothing known yet.
pub open spec fn empty_acpi_view() -> AcpiView {
    AcpiView {
        madt_base: 0,
        fadt_base: 0,
        hpet_base: 0,
        lapic_mmio: 0,
        lapic: Seq::empty(),
        ioapic: AcpiIOApic { ioapic_id: 0, ioapic_mmio: 0, gsi_base: 0 },
        irq_map: Seq::empty(),
        nmi_map: Seq::empty(),
        reboot_reg: AcpiGenericAddress::Unsupported,
        reboot_val: 0,
    }
}

/// What reading the table `t` at `addr` adds: a MADT (at least 44 bytes)
/// gives the local APIC address and the interrupt controllers, a FADT (at
/// least 129 bytes) the reset register, an HPET table its address. Other
/// tables, and tables too short for their fields, add nothing.
pub open spec fn spec_acpi_table(a: AcpiView, addr: u32, t: Seq<u8>) -> AcpiView {
    if t.len() < 4 {
        a
    } else if spec_le32(t, 0) == 0x43495041 {
        if 44 <= t.len() <= u32::MAX {
            let w = madt_walk(t, 44, spec_le32(t, 4), Seq::empty(), a.ioapic, Seq::empty(), Seq::empty());
            AcpiView {
                madt_base: addr,
                lapic_mmio: spec_le32(t, 36) as u32,
                lapic: w.0,
                ioapic: w.1,
                irq_map: w.2,
                nmi_map: w.3,
                ..a
            }
        } else {
            a
        }
    } else if spec_le32(t, 0) == 0x50434146 {
        if t.len() >= 129 {
            AcpiView { fadt_base: addr, reboot_reg: spec_generic_address(t, 116), reboot_val: t[128], ..a }
        } else {
            a
        }
    } else if spec_le32(t, 0) == 0x54455048 {
        AcpiView { hpet_base: addr, ..a }
    } else {
        a
    }
}

/// What the first `k` tables tell, read in order.
pub open spec fn spec_acpi_tables(ts: Seq<AcpiTable>, k: int) -> AcpiView
    decreases k,
{
    if k <= 0 {
        empty_acpi_view()
    } else {
        spec_acpi_table(spec_acpi_tables(ts, k - 1), ts[k - 1].addr, ts[k - 1].bytes@)
    }
}

/// Reads the tables the root table lists, in its order, each by its
/// signature.
pub fn x86_acpi_parse(tables: &Vec<AcpiTable>) -> (acpi: AcpiInfo)
    ensures
        acpi.view_acpi() == spec_acpi_tables(tables@, tables@.len() as int),
{
    let mut acpi = AcpiInfo::new();
    assert(acpi.lapic@ =~= Seq::<AcpiLocalApic>::empty());
    assert(acpi.irq_map@ =~= Seq::<AcpiIRQMapping>::empty());
    assert(acpi.nmi_map@ =~= Seq::<AcpiNmiMapping>::empty());
    assert(acpi.view_acpi() == empty_acpi_view());
    let mut i: usize = 0;
    while i < tables.len()
        invariant
            i <= tables@.len(),
            acpi.view_acpi() == spec_acpi_tables(tables@, i as int),
        decreases tables@.len() - i,
    {
        let t = &tables[i];
        let b = t.bytes.as_slice();
        if b.len() >= 4 {
            match acpi_table_kind(le32(b, 0)) {
                AcpiTableKind::Madt => {
                    if b.len() >= 44 && b.len() as u64 <= 0xFFFF_FFFF {
                        x86_acpi_parse_madt(&mut acpi, b, t.addr);
                    }
                },
                AcpiTableKind::Facp => {
                    if b.len() >= 129 {
                        x86_acpi_parse_facp(&mut acpi, b, t.addr);
                    }
                },
                AcpiTableKind::Hpet => {
                    x86_acpi_parse_hpet(&mut acpi, t.addr);
                },
                AcpiTableKind::Other => {},
            }
        }
        i = i + 1;
        assert(acpi.view_acpi() == spec_acpi_tables(tables@, i as int));
    }
    acpi
}

/// The root table an RSDP points to: its address and the size of its
/// entries (4 for the RSDT of revision 0, 8 for the XSDT of revision 2);
/// `None` without the signature or for another revision.
pub open spec fn spec_acpi_root(rsdp: Seq<u8>) -> Option<(u64, u64)> {
    if spec_le64(rsdp, 0) != RSDP_SIGNATURE {
        None
    } else if rsdp[15] == 0 {
        Some((spec_le32(rsdp, 16) as u64, 4))
    } else if rsdp[15] == 2 {
        Some((spec_le32(rsdp, 24) as u64, 8))
    } else {
        None
    }
}

/// Reads the root system description pointer.
pub fn acpi_root_table(rsdp: &[u8]) -> (r: Option<(u64, u64)>)
    requires
        rsdp@.len() >= 28,
    ensures
        r == spec_acpi_root(rsdp@),
{
    if le64(rsdp, 0) != RSDP_SIGNATURE {
        return None;
    }
    let rev = rsdp[15];
    if rev == 0 {
        Some((le32(rsdp, 16) as u64, 4))
    } else if rev == 2 {
        Some((le32(rsdp, 24) as u64, 8))
    } else {
        None
    }
}

/// The table addresses listed by a root table (`sdt`, whose length is at
/// byte 4 and entries start at byte 36), each `addr_size` bytes wide; only
/// the low 32 bits of an address are used.
pub open spec fn spec_sdt_entries(sdt: Seq<u8>, addr_size: int) -> Seq<u32> {
    let n = (spec_le32(sdt, 4) - 36) / addr_size;
    Seq::new(n as nat, |i: int| spec_le32(sdt, 36 + i * addr_size) as u32)
}

/// Lists the tables of a root table.
pub fn acpi_table_addresses(sdt: &[u8], addr_size: u64) -> (v: Vec<u32>)
    requires
        addr_size == 4 || addr_size == 8,
        sdt@.len() >= 36,
        spec_le32(sdt@, 4) >= 36,
        spec_le32(sdt@, 4) <= sdt@.len(),
    ensures
        v@ == spec_sdt_entries(sdt@, addr_size as int),
{
    let len = le32(sdt, 4) as u64;
    let cnt = (len - 36) / addr_size;
    let ghost want = spec_sdt_entries(sdt@, addr_size as int);
    let mut v: Vec<u32> = Vec::new();
    let mut i: u64 = 0;
    while i < cnt
        invariant
            cnt == (len - 36) / addr_size as int,
            want == spec_sdt_entries(sdt@, addr_size as int),
            len == spec_le32(sdt@, 4),
            len <= sdt@.len(),
            addr_size == 4 || addr_size == 8,
            i <= cnt,
            v@ == want.subrange(0, i as int),
        decreases cnt - i,
    {
        assert(36 + i * addr_size + 4 <= len) by (nonlinear_arith)
            requires
                i < cnt,
                cnt == (len - 36) / addr_size as int,
                addr_size >= 4,
                len >= 36,
        ;
        v.push(le32(sdt, (36 + i * addr_size) as usize));
        i = i + 1;
        assert(v@ =~= want.subrange(0, i as int));
    }
    assert(want.subrange(0, cnt as int) =~= want);
    v
}

// ---------------------------------------------------------------------------
// I/O APIC
// ---------------------------------------------------------------------------

/// The I/O APIC: interrupt redirection for the global system interrupts
/// from `gsi_base` on.
#[derive(Clone, Copy, Debug)]
pub struct X86IoApic {
    pub acpi_id: u8,
    pub version: u8,
    pub max_irqs: u8,
    pub initialized: bool,
    pub mmio_base: u32,
    pub gsi_base: u32,
}

pub const IOAPIC_REG_ID: u8 = 0x0;
pub const IOAPIC_REG_VER: u8 = 0x1;
pub const PRIORITY_FIXED: u32 = 0x0;
pub const PRIORITY_LOWEST: u32 = 0x100;
pub const PRIORITY_SMI: u32 = 0x200;
pub const PRIORITY_NMI: u32 = 0x400;
pub const PRIORITY_INIT: u32 = 0x500;
pub const PRIORITY_EXTINT: u32 = 0x700;
pub const POLARITY_HIGH: u32 = 0x0;
pub const POLARITY_LOW: u32 = 0x2000;
pub const TRIGGER_EDGE: u32 = 0x0;
pub const TRIGGER_LEVEL: u32 = 0x8000;

/// The redirection entry registers (low word) of an entry.
pub open spec fn redir_low_reg(entry: u32) -> u8 {
    (entry * 2 + 0x10) as u8
}

impl X86IoApic {
    pub fn new() -> (a: Self)
        ensures
            a.acpi_id == 0 && a.version == 0 && a.max_irqs == 0 && !a.initialized
                && a.mmio_base == 0 && a.gsi_base == 0,
    {
        X86IoApic { acpi_id: 0, version: 0, max_irqs: 0, initialized: false, mmio_base: 0, gsi_base: 0 }
    }

    /// Takes over the I/O APIC that ACPI describes (rejecting a register
    /// window below 1 MiB), given its ID and version registers as read.
    pub fn init(&mut self, ioapic: &AcpiIOApic, id_reg: u32, ver_reg: u32)
        requires
            (ver_reg >> 16u32) & 0xFF != 0xFF,
        ensures
            ioapic.ioapic_mmio <= 0x100000 ==> *final(self) == *old(self),
            ioapic.ioapic_mmio > 0x100000 ==> {
                &&& final(self).initialized
                &&& final(self).mmio_base == ioapic.ioapic_mmio
                &&& final(self).gsi_base == ioapic.gsi_base
                &&& final(self).acpi_id == (id_reg >> 24u32) as u8
                &&& final(self).version == (ver_reg & 0xFF) as u8
                &&& final(self).max_irqs == (((ver_reg >> 16u32) & 0xFF) as u8) as int + 1
            },
    {
        if ioapic.ioapic_mmio <= 0x100000 {
            return;
        }
        self.initialized = true;
        self.mmio_base = ioapic.ioapic_mmio;
        self.gsi_base = ioapic.gsi_base;
        self.acpi_id = (id_reg >> 24u32) as u8;
        self.version = (ver_reg & 0xFF) as u8;
        let m = ((ver_reg >> 16u32) & 0xFF) as u8;
        assert(m < 0xFF && m as u32 == (ver_reg >> 16u32) & 0xFF) by (bit_vector)
            requires
                m == ((ver_reg >> 16u32) & 0xFF) as u8,
                (ver_reg >> 16u32) & 0xFF != 0xFF;
        self.max_irqs = m + 1;
    }

    /// The register writes that route `gsi` to `isr_vector` on the CPUs of
    /// `dest_cpu_acpi_id_mask`: the low then the high word of its entry.
    /// Nothing for a GSI the controller does not have, or before `init`.
    pub fn register_isr(&self, gsi: u32, isr_vector: u8, priority: u32, pin_polarity: u32, pin_trigger: u32, masked: bool, dest_cpu_acpi_id_mask: u8) -> (w: Vec<(u8, u32)>)
        requires
            gsi >= self.gsi_base,
        ensures
            !(gsi < self.max_irqs && self.initialized) ==> w@.len() == 0,
            gsi < self.max_irqs && self.initialized ==> {
                let entry = (gsi - self.gsi_base) as u32;
                let low = (isr_vector as u32) | priority | pin_polarity | pin_trigger;
                w@ == seq![
                    (redir_low_reg(entry), if masked { low | 0x10000 } else { low }),
                    ((entry * 2 + 0x11) as u8, (dest_cpu_acpi_id_mask as u32) << 24u32),
                ]
            },
    {
        let mut w: Vec<(u8, u32)> = Vec::new();
        let entry_index = gsi - self.gsi_base;
        if gsi < self.max_irqs as u32 && self.initialized {
            let mut low: u32 = (isr_vector as u32) | priority | pin_polarity | pin_trigger;
            if masked {
                low = low | 0x10000;
            }
            let high: u32 = (dest_cpu_acpi_id_mask as u32) << 24u32;
            w.push(((entry_index * 2 + 0x10) as u8, low));
            w.push(((entry_index * 2 + 0x11) as u8, high));
        }
        w
    }

    /// The write that masks or unmasks `gsi`, given the low word of its
    /// entry as read; `None` for a GSI the controller does not have, or
    /// before `init`.
    pub fn set_irq_mask(&self, gsi: u32, masked: bool, current_low: u32) -> (w: Option<(u8, u32)>)
        requires
            gsi >= self.gsi_base,
        ensures
            !(gsi < self.max_irqs && self.initialized) ==> w is None,
            gsi < self.max_irqs && self.initialized ==> w == Some(
                (
                    redir_low_reg((gsi - self.gsi_base) as u32),
                    if masked { current_low | 0x10000 } else { current_low & 0x0FFFF },
                ),
            ),
    {
        let entry_index = gsi - self.gsi_base;
        if gsi < self.max_irqs as u32 && self.initialized {
            let low = if masked { current_low | 0x10000 } else { current_low & 0x0FFFF };
            Some(((entry_index * 2 + 0x10) as u8, low))
        } else {
            None
        }
    }
}

/// The routing of a legacy IRQ to IDT vector `vector + 34`, unmasked, to
/// CPU 0: the arguments of `X86IoApic::register_isr` after `gsi`.
pub fn irq_reroute(gsi: u32, vector: u8, edge_triggered: bool) -> (r: (u32, u8, u32, u32, u32, bool, u8))
    requires
        vector + 34 <= u8::MAX,
    ensures
        r == (
            gsi,
            (vector + 34) as u8,
            PRIORITY_FIXED,
            POLARITY_HIGH,
            if edge_triggered { TRIGGER_EDGE } else { TRIGGER_LEVEL },
            false,
            0u8,
        ),
{
    let trig = if edge_triggered { TRIGGER_EDGE } else { TRIGGER_LEVEL };
    (gsi, vector + 34, PRIORITY_FIXED, POLARITY_HIGH, trig, false, 0)
}

// ---------------------------------------------------------------------------
// Local APIC
// ---------------------------------------------------------------------------

pub const LAPIC_REG_EOI: u16 = 0xB0;
pub const LAPIC_REG_SIV: u16 = 0xF0;
pub const LAPIC_REG_ERROR_STATUS: u16 = 0x280;
pub const LAPIC_REG_INT_CMD1: u16 = 0x300;
pub const LAPIC_REG_INT_CMD2: u16 = 0x310;
pub const LAPIC_REG_LVT_TIMER: u16 = 0x320;
pub const MSR_IA32_TSC_DEADLINE: u32 = 0x6E0;

/// A write the local APIC code makes: to a register of the local APIC
/// (its offset and value) or to a model-specific register.
#[derive(Clone, Copy, Debug, PartialEq, Eq, Structural)]
pub enum ApicWrite {
    Reg(u16, u32),
    Msr(u32, u64),
}

/// A processor's local APIC.
#[derive(Clone, Copy, Debug)]
pub struct X86LocalApic {
    pub lapic_id: u8,
    pub cpu_acpi_id: u8,
    pub mmio_base: u32,
    pub initialized: bool,
}

impl X86LocalApic {
    pub fn new() -> (a: Self)
        ensures
            a.lapic_id == 0 && a.cpu_acpi_id == 0 && a.mmio_base == 0 && !a.initialized,
    {
        X86LocalApic { lapic_id: 0, cpu_acpi_id: 0, mmio_base: 0, initialized: false }
    }

    /// Takes over the local APIC ACPI describes (rejecting a register window
    /// below 1 MiB) and returns the spurious-vector write that enables it,
    /// given that register as read.
    pub fn init(&mut self, lapic: &AcpiLocalApic, lapic_mmio: u32, siv: u32) -> (w: Option<(u16, u32)>)
        ensures
            lapic_mmio <= 0x100000 ==> w is None && *final(self) == *old(self),
            lapic_mmio > 0x100000 ==> {
                &&& w == Some((LAPIC_REG_SIV, siv | 0x100))
                &&& final(self).lapic_id == lapic.lapic_id
                &&& final(self).cpu_acpi_id == lapic.cpu_id
                &&& final(self).mmio_base == lapic_mmio
                &&& final(self).initialized
            },
    {
        if lapic_mmio <= 0x100000 {
            return None;
        }
        self.lapic_id = lapic.lapic_id;
        self.cpu_acpi_id = lapic.cpu_id;
        self.mmio_base = lapic_mmio;
        self.initialized = true;
        Some((LAPIC_REG_SIV, siv | 0x100))
    }

    /// End of interrupt.
    pub fn send_eoi(&self) -> (w: (u16, u32))
        ensures
            w == (LAPIC_REG_EOI, 0u32),
    {
        (LAPIC_REG_EOI, 0)
    }

    /// The two command register writes that send `cmd1` to the local APIC
    /// `dest_lapic_id`, given both command registers as read.
    pub fn send_ipi(&self, dest_lapic_id: u8, cmd1: u32, cmd2_cur: u32, cmd1_cur: u32) -> (w: [(u16, u32); 2])
        ensures
            w@ == seq![
                (LAPIC_REG_INT_CMD2, (cmd2_cur & 0x00FFFFFF) | ((dest_lapic_id as u32) << 24u32)),
                (LAPIC_REG_INT_CMD1, (cmd1_cur & 0xFFF00000) | cmd1),
            ],
    {
        let w = [
            (LAPIC_REG_INT_CMD2, (cmd2_cur & 0x00FFFFFF) | ((dest_lapic_id as u32) << 24u32)),
            (LAPIC_REG_INT_CMD1, (cmd1_cur & 0xFFF00000) | cmd1),
        ];
        assert(w@ =~= seq![
            (LAPIC_REG_INT_CMD2, (cmd2_cur & 0x00FFFFFF) | ((dest_lapic_id as u32) << 24u32)),
            (LAPIC_REG_INT_CMD1, (cmd1_cur & 0xFFF00000) | cmd1),
        ]);
        w
    }

    /// The INIT IPI: asserted, then de-asserted (each followed by a wait
    /// for delivery).
    pub fn send_init_ipi(&self, dest_lapic_id: u8) -> (cmds: [u32; 2])
        ensures
            cmds@ == seq![0xC500u32, 0x8500u32],
    {
        let c = [0xC500u32, 0x8500u32];
        assert(c@ =~= seq![0xC500u32, 0x8500u32]);
        c
    }

    /// The startup IPI that starts a processor at page `entry_point_pg`.
    pub fn send_startup_ipi(&self, dest_lapic_id: u8, entry_point_pg: u8) -> (cmd: u32)
        ensures
            cmd == 0x600u32 | entry_point_pg as u32,
    {
        0x600u32 | entry_point_pg as u32
    }

    /// Whether an IPI is still being delivered, from the first command
    /// register as read.
    pub fn ipi_pending(cmd1: u32) -> (b: bool)
        ensures
            b == (cmd1 & 0x1000 > 0),
    {
        cmd1 & 0x1000 > 0
    }

    /// The timer in TSC-deadline mode on `irq_handler_vector`, given the
    /// LVT timer register as read: the writes, in order, that clear the
    /// error status, set the deadline to 0 (so that no interrupt is raised
    /// yet) and set the LVT timer register.
    pub fn config_timer(&self, irq_handler_vector: u8, irq_masked: bool, lvt_cur: u32) -> (w: [ApicWrite; 3])
        ensures
            w@ == seq![
                ApicWrite::Reg(LAPIC_REG_ERROR_STATUS, 0u32),
                ApicWrite::Msr(MSR_IA32_TSC_DEADLINE, 0u64),
                ApicWrite::Reg(
                    LAPIC_REG_LVT_TIMER,
                    ((lvt_cur & 0xFFF8EF00) | (if irq_masked { 0x10000u32 } else { 0u32 }))
                        | (irq_handler_vector as u32 | 0x40000u32),
                ),
            ],
    {
        let mut lvtreg = lvt_cur & 0xFFF8EF00;
        if irq_masked {
            lvtreg = lvtreg | 0x10000;
        } else {
            lvtreg = lvtreg | 0;
        }
        let w = [
            ApicWrite::Reg(LAPIC_REG_ERROR_STATUS, 0),
            ApicWrite::Msr(MSR_IA32_TSC_DEADLINE, 0),
            ApicWrite::Reg(LAPIC_REG_LVT_TIMER, lvtreg | (irq_handler_vector as u32 | 0x40000u32)),
        ];
        assert(w@ =~= seq![
            ApicWrite::Reg(LAPIC_REG_ERROR_STATUS, 0u32),
            ApicWrite::Msr(MSR_IA32_TSC_DEADLINE, 0u64),
            ApicWrite::Reg(
                LAPIC_REG_LVT_TIMER,
                ((lvt_cur & 0xFFF8EF00) | (if irq_masked { 0x10000u32 } else { 0u32 }))
                    | (irq_handler_vector as u32 | 0x40000u32),
            ),
        ]);
        w
    }

    /// Arming the timer: the deadline MSR and its value.
    pub fn set_timer(&self, target_tsc: u64) -> (w: (u32, u64))
        ensures
            w == (MSR_IA32_TSC_DEADLINE, target_tsc),
    {
        (MSR_IA32_TSC_DEADLINE, target_tsc)
    }

    /// The LVT timer value with the interrupt masked or not.
    pub fn set_timer_irq_mask(&self, irq_masked: bool, lvt_cur: u32) -> (lvt: u32)
        ensures
            lvt == (lvt_cur & 0xFFFEFFFF) | (if irq_masked { 0x10000u32 } else { 0u32 }),
    {
        let lvtreg = lvt_cur & 0xFFFEFFFF;
        if irq_masked {
            lvtreg | 0x10000
        } else {
            lvtreg | 0
        }
    }
}

// ---------------------------------------------------------------------------
// High precision event timer
// ---------------------------------------------------------------------------

/// The HPET as its ACPI table and capability register describe it.
#[derive(Clone, Copy, Debug)]
pub struct X86HPET {
    pub valid: bool,
    pub comp_count: u8,
    pub comp_size: u8,
    pub hpet_num: u8,
    pub min_prd_tick: u16,
    pub irq: u8,
    pub mmio_base: usize,
    pub period_ns: u32,
}

impl X86HPET {
    pub fn new() -> (h: Self)
        ensures
            !h.valid && h.comp_count == 0 && h.comp_size == 0 && h.hpet_num == 0
                && h.min_prd_tick == 0 && h.irq == 0 && h.mmio_base == 0 && h.period_ns == 0,
    {
        X86HPET { valid: false, comp_count: 0, comp_size: 0, hpet_num: 0, min_prd_tick: 0, irq: 0, mmio_base: 0, period_ns: 0 }
    }

    /// Reads the HPET table (`tbl`): the register window (a memory generic
    /// address at byte 40, mapped by the caller to `mmio_virt`), the number
    /// and size of the comparators (byte 36), the sequence number (52) and
    /// the minimum tick (53); `gen_cap` is the capability register, whose
    /// high half is the tick period in femtoseconds. A register window that
    /// is not in memory leaves the timer invalid.
    pub fn init(&mut self, tbl: &[u8], mmio_virt: usize, gen_cap: u64)
        requires
            tbl@.len() >= 56,
        ensures
            !(spec_generic_address(tbl@, 40) is Memory) ==> !final(self).valid && final(self).comp_count
                == old(self).comp_count && final(self).period_ns == old(self).period_ns,
            spec_generic_address(tbl@, 40) is Memory ==> {
                let blk = spec_le32(tbl@, 36) as u32;
                &&& final(self).valid
                &&& final(self).mmio_base == mmio_virt
                &&& final(self).comp_count == ((blk >> 8u32) & 0x1F) + 1
                &&& final(self).comp_size == if blk & 0x2000 != 0 { 64u8 } else { 32u8 }
                &&& final(self).min_prd_tick == spec_le16(tbl@, 53)
                &&& final(self).hpet_num == tbl@[52]
                &&& final(self).period_ns == ((gen_cap >> 32u64) + 999_999) / 1_000_000
            },
    {
        match AcpiGenericAddress::from_acpi_entry(tbl, 40) {
            AcpiGenericAddress::Memory { addr: _ } => {
                self.mmio_base = mmio_virt;
            },
            _ => {
                self.valid = false;
                return;
            },
        }
        let blk_id = le32(tbl, 36);
        let cc = ((blk_id >> 8u32) & 0x1F) as u8;
        assert(cc < 0x20 && cc as u32 == (blk_id >> 8u32) & 0x1F) by (bit_vector)
            requires
                cc == ((blk_id >> 8u32) & 0x1F) as u8;
        self.comp_count = cc + 1;
        self.comp_size = if blk_id & 0x2000 != 0 { 64 } else { 32 };
        self.min_prd_tick = le16(tbl, 53);
        self.hpet_num = tbl[52];
        self.valid = true;
        let fs = gen_cap >> 32u64;
        assert(fs <= 0xFFFF_FFFF) by (bit_vector)
            requires
                fs == gen_cap >> 32u64;
        self.period_ns = ((fs + 999_999) / 1_000_000) as u32;
    }

    /// Ticks of the main counter in `ns` nanoseconds.
    pub fn duration_to_ticks(&self, ns: u128) -> (t: u64)
        requires
            self.period_ns > 0,
        ensures
            t == (ns / self.period_ns as u128) as u64,
    {
        (ns / self.period_ns as u128) as u64
    }
}

/// The machine: its CPUs and the controllers ACPI describes.
pub struct MachineContext {
    pub cpu_count: usize,
    pub acpi_info: AcpiInfo,
    pub ioapic: X86IoApic,
    pub hpet: X86HPET,
}

impl MachineContext {
    /// One CPU (the bootstrap processor) and nothing known yet.
    pub fn new() -> (m: Self)
        ensures
            m.cpu_count == 1,
            m.acpi_info.lapic@.len() == 0 && m.acpi_info.reboot_reg == AcpiGenericAddress::Unsupported,
            !m.ioapic.initialized && !m.hpet.valid,
    {
        MachineContext { cpu_count: 1, acpi_info: AcpiInfo::new(), ioapic: X86IoApic::new(), hpet: X86HPET::new() }
    }
}

/// How the machine is reset.
#[derive(Clone, Copy, Debug, PartialEq, Eq, Structural)]
pub enum RebootAction {
    /// Write the byte to the I/O port
    PortWrite { port: u16, val: u8 },
    /// Write the value to the 64-bit word at the physical address
    MemoryWrite { addr: usize, val: u64 },
    NotSupported,
}

/// The reset the FADT's reset register calls for; a memory register above
/// 4 GiB is not written.
pub fn machine_reboot(reg: AcpiGenericAddress, val: u8) -> (a: RebootAction)
    ensures
        a == match reg {
            AcpiGenericAddress::IOPort { port_num } => RebootAction::PortWrite { port: port_num, val },
            AcpiGenericAddress::Memory { addr } => if addr < 0x1_0000_0000 {
                RebootAction::MemoryWrite { addr, val: val as u64 }
            } else {
                RebootAction::NotSupported
            },
            AcpiGenericAddress::Unsupported => RebootAction::NotSupported,
        },
{
    match reg {
        AcpiGenericAddress::IOPort { port_num } => RebootAction::PortWrite { port: port_num, val },
        AcpiGenericAddress::Memory { addr } => if (addr as u64) < 0x1_0000_0000u64 && addr as u64 == addr as u64 {
            RebootAction::MemoryWrite { addr, val: val as u64 }
        } else {
            RebootAction::NotSupported
        },
        AcpiGenericAddress::Unsupported => RebootAction::NotSupported,
    }
}

/// Whether interrupts are enabled, from RFLAGS.
pub fn cpu_ints_enabled(rflags: u64) -> (b: bool)
    ensures
        b == (rflags & 0x200 > 0),
{
    rflags & 0x200 > 0
}

// ---------------------------------------------------------------------------
// Serial port
// ---------------------------------------------------------------------------

/// A 16550 UART at an I/O port base.
#[derive(Clone, Copy, Debug)]
pub struct PortBasedUART {
    pub port: u16,
}

impl PortBasedUART {
    pub fn new(p: u16) -> (u: Self)
        ensures
            u.port == p,
    {
        PortBasedUART { port: p }
    }

    /// The writes that set 38400 baud, 8N1, FIFOs on, run the loopback
    /// test byte and leave the chip in normal mode.
    pub fn config(&self) -> (w: Vec<(u16, u8)>)
        requires
            self.port + 4 <= u16::MAX,
        ensures
            w@ == seq![
                ((self.port + 1) as u16, 0x00u8),
                ((self.port + 3) as u16, 0x80u8),
                (self.port, 0x03u8),
                ((self.port + 1) as u16, 0x00u8),
                ((self.port + 3) as u16, 0x03u8),
                ((self.port + 2) as u16, 0xC7u8),
                ((self.port + 4) as u16, 0x0Bu8),
                ((self.port + 4) as u16, 0x1Eu8),
                (self.port, 0xAEu8),
                ((self.port + 4) as u16, 0x0Fu8),
            ],
    {
        let p = self.port;
        let mut w: Vec<(u16, u8)> = Vec::new();
        w.push((p + 1, 0x00));
        w.push((p + 3, 0x80));
        w.push((p, 0x03));
        w.push((p + 1, 0x00));
        w.push((p + 3, 0x03));
        w.push((p + 2, 0xC7));
        w.push((p + 4, 0x0B));
        w.push((p + 4, 0x1E));
        w.push((p, 0xAE));
        w.push((p + 4, 0x0F));
        assert(w@ =~= seq![
            ((self.port + 1) as u16, 0x00u8),
            ((self.port + 3) as u16, 0x80u8),
            (self.port, 0x03u8),
            ((self.port + 1) as u16, 0x00u8),
            ((self.port + 3) as u16, 0x03u8),
            ((self.port + 2) as u16, 0xC7u8),
            ((self.port + 4) as u16, 0x0Bu8),
            ((self.port + 4) as u16, 0x1Eu8),
            (self.port, 0xAEu8),
            ((self.port + 4) as u16, 0x0Fu8),
        ]);
        w
    }

    /// Whether the transmitter takes a byte, from the line status register.
    pub fn tx_ready(lsr: u8) -> (b: bool)
        ensures
            b == (lsr & 0x20 != 0),
    {
        lsr & 0x20 != 0
    }

    /// The write that sends `c` once the transmitter is ready.
    pub fn putc(&self, c: u8) -> (w: (u16, u8))
        ensures
            w == (self.port, c),
    {
        (self.port, c)
    }

    /// The writes that send `msg`, one byte after the other.
    pub fn puts(&self, msg: &[u8]) -> (w: Vec<(u16, u8)>)
        ensures
            w@.len() == msg@.len(),
            forall|i: int| 0 <= i < msg@.len() ==> #[trigger] w@[i] == (self.port, msg@[i]),
    {
        let mut w: Vec<(u16, u8)> = Vec::new();
        let mut i: usize = 0;
        while i < msg.len()
            invariant
                i <= msg@.len(),
                w@.len() == i,
                forall|k: int| 0 <= k < i ==> #[trigger] w@[k] == (self.port, msg@[k]),
            decreases msg@.len() - i,
        {
            w.push(self.putc(msg[i]));
            i = i + 1;
        }
        w
    }
}

// ---------------------------------------------------------------------------
// Tasks
// ---------------------------------------------------------------------------

/// Where a task starts and its saved stack pointer.
#[derive(Clone, Copy, Debug)]
pub struct TaskContext {
    pub ep: u64,
    pub rsp: u64,
    pub tid: usize,
}

/// Words of the initial stack frame.
pub const TASK_FRAME_WORDS: usize = 19;
/// The watermark at the top of the saved registers.
pub const STACK_WATERMARK: u64 = 0x0123456789abcdef;

/// The initial frame from the top of the stack down: return address,
/// `launch` (the entry of the launcher), RFLAGS with interrupts enabled,
/// RAX..RSI zero, RDI = the task context's address, RBP = the address of
/// the top word, R8..R15 zero and the watermark.
pub open spec fn initial_frame(launch: u64, ctx_addr: u64, top_addr: u64) -> Seq<u64> {
    seq![
        STACK_WATERMARK, 0u64, 0u64, 0u64, 0u64, 0u64, 0u64, 0u64, 0u64,
        top_addr, ctx_addr, 0u64, 0u64, 0u64, 0u64, 0u64, 0x202u64, launch, 0u64,
    ]
}

impl TaskContext {
    pub fn new() -> (t: Self)
        ensures
            t.ep == 0 && t.rsp == 0 && t.tid == 0,
    {
        TaskContext { ep: 0, rsp: 0, tid: 0 }
    }

    /// Prepares `stack` (whose first word is at `stack_addr`) so that the
    /// first switch to the task runs `launch` with this context: the last
    /// 19 words get the initial frame and `rsp` points at its lowest word.
    pub fn init(&mut self, id: usize, func: u64, stack: &mut [u64], stack_addr: u64, ctx_addr: u64, launch: u64)
        requires
            old(stack)@.len() >= TASK_FRAME_WORDS,
            stack_addr + 8 * old(stack)@.len() <= u64::MAX,
        ensures
            final(stack)@.len() == old(stack)@.len(),
            final(stack)@.subrange(0, old(stack)@.len() - 19) == old(stack)@.subrange(0, old(stack)@.len() - 19),
            final(stack)@.subrange(old(stack)@.len() - 19, old(stack)@.len() as int) == initial_frame(
                launch,
                ctx_addr,
                (stack_addr + 8 * (old(stack)@.len() - 1)) as u64,
            ),
            final(self).ep == func,
            final(self).tid == id,
            final(self).rsp == stack_addr + 8 * (old(stack)@.len() - 19),
    {
        let n = stack.len();
        let top_addr = stack_addr + 8 * (n as u64 - 1);
        stack[n - 1] = 0;
        stack[n - 2] = launch;
        stack[n - 3] = 0x202;
        stack[n - 4] = 0;
        stack[n - 5] = 0;
        stack[n - 6] = 0;
        stack[n - 7] = 0;
        stack[n - 8] = 0;
        stack[n - 9] = ctx_addr;
        stack[n - 10] = top_addr;
        stack[n - 11] = 0;
        stack[n - 12] = 0;
        stack[n - 13] = 0;
        stack[n - 14] = 0;
        stack[n - 15] = 0;
        stack[n - 16] = 0;
        stack[n - 17] = 0;
        stack[n - 18] = 0;
        stack[n - 19] = STACK_WATERMARK;
        self.ep = func;
        self.rsp = stack_addr + 8 * (n as u64 - 19);
        self.tid = id;
        assert(stack@.subrange(0, n - 19) =~= old(stack)@.subrange(0, n - 19));
        assert(stack@.subrange(n - 19, n as int) =~= initial_frame(launch, ctx_addr, top_addr));
    }

    pub fn tid(&self) -> (t: usize)
        ensures
            t == self.tid,
    {
        self.tid
    }
}

// ---------------------------------------------------------------------------
// Symmetric multiprocessing
// ---------------------------------------------------------------------------

/// The IDT vector of legacy IRQ 0 (see how the IDT is laid out at boot).
pub const ISR_VECTOR_OFFSET: u8 = 34;
/// The page (0x8000) where the application processors' trampoline code is.
pub const AP_TRAMPOLINE_PAGE: u8 = 0x8;

/// The local APIC at `i` is the first with ID `id`.
pub open spec fn first_lapic(lapics: Seq<AcpiLocalApic>, id: u8, i: int) -> bool {
    0 <= i < lapics.len() && lapics[i].lapic_id == id && forall|j: int|
        0 <= j < i ==> (#[trigger] lapics[j]).lapic_id != id
}

/// An application processor to start: enabled, with a non-zero local APIC
/// ID below `max_cpus`.
pub open spec fn is_startable_ap(l: AcpiLocalApic, max_cpus: u8) -> bool {
    l.lapic_id > 0 && l.lapic_id < max_cpus && l.enabled
}

/// The local APIC IDs of the application processors to start, in ACPI
/// order.
pub open spec fn spec_ap_ids(lapics: Seq<AcpiLocalApic>, max_cpus: u8) -> Seq<u8>
    decreases lapics.len(),
{
    if lapics.len() == 0 {
        Seq::empty()
    } else {
        let prev = spec_ap_ids(lapics.drop_last(), max_cpus);
        if is_startable_ap(lapics.last(), max_cpus) {
            prev.push(lapics.last().lapic_id)
        } else {
            prev
        }
    }
}

/// How the I/O APIC routes a global system interrupt: the arguments of
/// `X86IoApic::register_isr`.
#[derive(Clone, Copy, Debug)]
pub struct IoApicRoute {
    pub gsi: u32,
    pub vector: u8,
    pub priority: u32,
    pub polarity: u32,
    pub trigger: u32,
    pub masked: bool,
    pub dest_mask: u8,
}

/// The route of a legacy IRQ that ACPI maps: to IDT vector IRQ + 34, fixed
/// priority, with the mapping's polarity and trigger, masked (its driver
/// unmasks it), to CPU 0.
pub open spec fn spec_irq_route(m: AcpiIRQMapping) -> IoApicRoute {
    IoApicRoute {
        gsi: m.dst_gsi,
        vector: (m.src_irq + ISR_VECTOR_OFFSET) as u8,
        priority: PRIORITY_FIXED,
        polarity: if m.active_low { POLARITY_LOW } else { POLARITY_HIGH },
        trigger: if m.lvl_trig { TRIGGER_LEVEL } else { TRIGGER_EDGE },
        masked: true,
        dest_mask: 0,
    }
}

/// What bringing up the other processors takes: the BSP's local APIC (its
/// index among those of ACPI), the application processors to start (their
/// local APIC IDs) and the routes of the legacy IRQs.
pub struct SmpPlan {
    pub bsp_lapic: Option<usize>,
    pub ap_ids: Vec<u8>,
    pub routes: Vec<IoApicRoute>,
}

/// The index of the first local APIC with ID `id`.
pub fn find_lapic(lapics: &Vec<AcpiLocalApic>, id: u8) -> (r: Option<usize>)
    ensures
        r matches Some(i) ==> first_lapic(lapics@, id, i as int),
        r is None ==> forall|j: int| 0 <= j < lapics@.len() ==> (#[trigger] lapics@[j]).lapic_id != id,
{
    let mut i: usize = 0;
    while i < lapics.len()
        invariant
            i <= lapics@.len(),
            forall|j: int| 0 <= j < i ==> (#[trigger] lapics@[j]).lapic_id != id,
        decreases lapics@.len() - i,
    {
        if lapics[i].lapic_id == id {
            return Some(i);
        }
        i = i + 1;
    }
    None
}

/// The local APIC IDs of the application processors to start.
pub fn ap_ids(lapics: &Vec<AcpiLocalApic>, max_cpus: u8) -> (v: Vec<u8>)
    ensures
        v@ == spec_ap_ids(lapics@, max_cpus),
{
    let mut v: Vec<u8> = Vec::new();
    let mut i: usize = 0;
    assert(lapics@.take(0) =~= Seq::<AcpiLocalApic>::empty());
    while i < lapics.len()
        invariant
            i <= lapics@.len(),
            v@ == spec_ap_ids(lapics@.take(i as int), max_cpus),
        decreases lapics@.len() - i,
    {
        let l = lapics[i];
        assert(lapics@.take(i + 1).drop_last() =~= lapics@.take(i as int));
        if l.lapic_id > 0 && l.lapic_id < max_cpus && l.enabled {
            v.push(l.lapic_id);
        }
        i = i + 1;
    }
    assert(lapics@.take(lapics@.len() as int) =~= lapics@);
    v
}

/// The I/O APIC routes of the legacy IRQs that ACPI maps, in order.
pub fn irq_routes(irqs: &Vec<AcpiIRQMapping>) -> (v: Vec<IoApicRoute>)
    requires
        forall|i: int| 0 <= i < irqs@.len() ==> (#[trigger] irqs@[i]).src_irq + ISR_VECTOR_OFFSET <= u8::MAX,
    ensures
        v@.len() == irqs@.len(),
        forall|i: int| 0 <= i < irqs@.len() ==> #[trigger] v@[i] == spec_irq_route(irqs@[i]),
{
    let mut v: Vec<IoApicRoute> = Vec::new();
    let mut i: usize = 0;
    while i < irqs.len()
        invariant
            i <= irqs@.len(),
            forall|i: int| 0 <= i < irqs@.len() ==> (#[trigger] irqs@[i]).src_irq + ISR_VECTOR_OFFSET <= u8::MAX,
            v@.len() == i,
            forall|k: int| 0 <= k < i ==> #[trigger] v@[k] == spec_irq_route(irqs@[k]),
        decreases irqs@.len() - i,
    {
        let m = irqs[i];
        assert(m.src_irq + ISR_VECTOR_OFFSET <= u8::MAX);
        v.push(IoApicRoute {
            gsi: m.dst_gsi,
            vector: m.src_irq + ISR_VECTOR_OFFSET,
            priority: PRIORITY_FIXED,
            polarity: if m.active_low { POLARITY_LOW } else { POLARITY_HIGH },
            trigger: if m.lvl_trig { TRIGGER_LEVEL } else { TRIGGER_EDGE },
            masked: true,
            dest_mask: 0,
        });
        i = i + 1;
    }
    v
}

/// Plans the start of the other processors from what ACPI found: the BSP's
/// local APIC is the first whose ID is `bsp_cpu_id` (its low byte), the
/// application processors are the enabled ones with an ID from 1 to below
/// `max_cpus` (its low byte), and each legacy IRQ gets its route.
pub fn start_smp(acpi: &AcpiInfo, bsp_cpu_id: usize, max_cpus: usize) -> (plan: SmpPlan)
    requires
        forall|i: int| 0 <= i < acpi.irq_map@.len() ==> (#[trigger] acpi.irq_map@[i]).src_irq + ISR_VECTOR_OFFSET <= u8::MAX,
    ensures
        plan.bsp_lapic matches Some(i) ==> first_lapic(acpi.lapic@, bsp_cpu_id as u8, i as int),
        plan.bsp_lapic is None ==> forall|j: int|
            0 <= j < acpi.lapic@.len() ==> (#[trigger] acpi.lapic@[j]).lapic_id != bsp_cpu_id as u8,
        plan.ap_ids@ == spec_ap_ids(acpi.lapic@, max_cpus as u8),
        plan.routes@.len() == acpi.irq_map@.len(),
        forall|i: int| 0 <= i < acpi.irq_map@.len() ==> #[trigger] plan.routes@[i] == spec_irq_route(acpi.irq_map@[i]),
{
    let bsp_lapic = find_lapic(&acpi.lapic, bsp_cpu_id as u8);
    let ap_ids = ap_ids(&acpi.lapic, max_cpus as u8);
    let routes = irq_routes(&acpi.irq_map);
    SmpPlan { bsp_lapic, ap_ids, routes }
}

/// Where the start of one application processor is.
#[derive(Clone, Copy, Debug, PartialEq, Eq, Structural)]
pub enum ApStartStage {
    /// INIT is to be sent
    Begin,
    /// INIT sent: the processor gets 10 ms to initialize
    InitSent,
    /// The startup IPI is to be sent
    SipiDue,
    /// Startup IPI sent: the processor gets 1 ms to start
    SipiSent,
    /// Has the processor count grown? If not, the startup IPI goes again
    Check,
    /// Waiting for the processor to come up
    Polling,
    /// The processor count is to be looked at again
    Polled,
    /// The processor is up
    Done,
}

/// What the start of an application processor asks for next.
#[derive(Clone, Copy, Debug, PartialEq, Eq, Structural)]
pub enum ApStartAction {
    /// Send INIT to the local APIC
    SendInit(u8),
    /// Send the startup IPI with the trampoline's page to the local APIC
    SendSipi(u8, u8),
    /// Wait this many milliseconds
    WaitMs(u64),
    /// Nothing more: the processor is up
    Finished,
}

/// The start of the application processor with local APIC `lapic_id`,
/// with `cpus_before` processors up when it began.
#[derive(Clone, Copy, Debug)]
pub struct ApStart {
    pub lapic_id: u8,
    pub cpus_before: usize,
    pub stage: ApStartStage,
}

impl ApStart {
    /// The start of the processor with local APIC `lapic_id`, `cpus` being
    /// up now.
    pub fn new(lapic_id: u8, cpus: usize) -> (s: Self)
        ensures
            s.lapic_id == lapic_id && s.cpus_before == cpus && s.stage == ApStartStage::Begin,
    {
        ApStart { lapic_id, cpus_before: cpus, stage: ApStartStage::Begin }
    }

    /// The next state and action, `cpus` being the processors up now.
    pub open spec fn spec_step(self, cpus: usize) -> (ApStartStage, ApStartAction) {
        match self.stage {
            ApStartStage::Begin => (ApStartStage::InitSent, ApStartAction::SendInit(self.lapic_id)),
            ApStartStage::InitSent => (ApStartStage::SipiDue, ApStartAction::WaitMs(10)),
            ApStartStage::SipiDue => (ApStartStage::SipiSent, ApStartAction::SendSipi(self.lapic_id, AP_TRAMPOLINE_PAGE)),
            ApStartStage::SipiSent => (ApStartStage::Check, ApStartAction::WaitMs(1)),
            ApStartStage::Check => if cpus == self.cpus_before {
                (ApStartStage::Polling, ApStartAction::SendSipi(self.lapic_id, AP_TRAMPOLINE_PAGE))
            } else {
                (ApStartStage::Polled, ApStartAction::WaitMs(1))
            },
            ApStartStage::Polling => (ApStartStage::Polled, ApStartAction::WaitMs(1)),
            ApStartStage::Polled => if cpus > self.cpus_before {
                (ApStartStage::Done, ApStartAction::Finished)
            } else {
                (ApStartStage::Polled, ApStartAction::WaitMs(1))
            },
            ApStartStage::Done => (ApStartStage::Done, ApStartAction::Finished),
        }
    }

    /// Takes one step: INIT, 10 ms, the startup IPI, 1 ms, the startup IPI
    /// again if no processor came up, then 1 ms at a time until one has.
    pub fn step(&mut self, cpus: usize) -> (a: ApStartAction)
        ensures
            final(self).lapic_id == old(self).lapic_id,
            final(self).cpus_before == old(self).cpus_before,
            (final(self).stage, a) == old(self).spec_step(cpus),
    {
        let (stage, a) = match self.stage {
            ApStartStage::Begin => (ApStartStage::InitSent, ApStartAction::SendInit(self.lapic_id)),
            ApStartStage::InitSent => (ApStartStage::SipiDue, ApStartAction::WaitMs(10)),
            ApStartStage::SipiDue => (ApStartStage::SipiSent, ApStartAction::SendSipi(self.lapic_id, AP_TRAMPOLINE_PAGE)),
            ApStartStage::SipiSent => (ApStartStage::Check, ApStartAction::WaitMs(1)),
            ApStartStage::Check => if cpus == self.cpus_before {
                (ApStartStage::Polling, ApStartAction::SendSipi(self.lapic_id, AP_TRAMPOLINE_PAGE))
            } else {
                (ApStartStage::Polled, ApStartAction::WaitMs(1))
            },
            ApStartStage::Polling => (ApStartStage::Polled, ApStartAction::WaitMs(1)),
            ApStartStage::Polled => if cpus > self.cpus_before {
                (ApStartStage::Done, ApStartAction::Finished)
            } else {
                (ApStartStage::Polled, ApStartAction::WaitMs(1))
            },
            ApStartStage::Done => (ApStartStage::Done, ApStartAction::Finished),
        };
        self.stage = stage;
        a
    }
}

} // verus!
