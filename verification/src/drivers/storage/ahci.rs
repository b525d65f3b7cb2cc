//! The AHCI (SATA) host bus adapter: the layout of its registers, the
//! structures it shares with the driver in memory (command headers,
//! scatter/gather descriptors, command FISes) and how the driver fills them,
//! the drives it finds, and the queues of their I/O requests. The register
//! and memory accesses themselves stay with the caller.
use vstd::prelude::*;
use crate::drivers::pci::PCIDevice;
use crate::drivers::storage::{BusType, Disk, IOCompletion, IOOperation, IORequest};

verus! {

// ---------------------------------------------------------------------------
// Registers
// ---------------------------------------------------------------------------

/// Registers of the host bus adapter (generic host control).
#[derive(Clone, Copy, Debug, PartialEq, Eq, Structural)]
pub enum HBAReg {
    CAP,
    GHC,
    IS,
    PI,
    VS,
}

impl HBAReg {
    /// The register's index (in 32-bit words) in the register file.
    pub fn index(&self) -> (i: usize)
        ensures
            i == match self {
                HBAReg::CAP => 0usize,
                HBAReg::GHC => 1,
                HBAReg::IS => 2,
                HBAReg::PI => 3,
                HBAReg::VS => 4,
            },
    {
        match self {
            HBAReg::CAP => 0,
            HBAReg::GHC => 1,
            HBAReg::IS => 2,
            HBAReg::PI => 3,
            HBAReg::VS => 4,
        }
    }
}

/// Registers of a port.
#[derive(Clone, Copy, Debug, PartialEq, Eq, Structural)]
pub enum HBAPortReg {
    CLB,
    CLBU,
    FB,
    FBU,
    IS,
    IE,
    CMDSTS,
    TFD,
    SIG,
    SSTS,
    SCTL,
    SERR,
    SACT,
    CI,
    SNTF,
    FBS,
    DEVSLP,
}

/// The index (in 32-bit words) of a port register in the port's registers.
pub open spec fn spec_port_reg_offset(r: HBAPortReg) -> usize {
    match r {
        HBAPortReg::CLB => 0,
        HBAPortReg::CLBU => 1,
        HBAPortReg::FB => 2,
        HBAPortReg::FBU => 3,
        HBAPortReg::IS => 4,
        HBAPortReg::IE => 5,
        HBAPortReg::CMDSTS => 6,
        HBAPortReg::TFD => 8,
        HBAPortReg::SIG => 9,
        HBAPortReg::SSTS => 10,
        HBAPortReg::SCTL => 11,
        HBAPortReg::SERR => 12,
        HBAPortReg::SACT => 13,
        HBAPortReg::CI => 14,
        HBAPortReg::SNTF => 15,
        HBAPortReg::FBS => 16,
        HBAPortReg::DEVSLP => 17,
    }
}

/// The index (in 32-bit words) in the register file of a port's register:
/// the ports' registers start at 0x100, 0x80 bytes each.
pub fn port_reg_index(port: usize, reg: HBAPortReg) -> (i: usize)
    requires
        port < 32,
    ensures
        i == (0x100 + port * 0x80) / 4 + spec_port_reg_offset(reg),
{
    let off: usize = match reg {
        HBAPortReg::CLB => 0,
        HBAPortReg::CLBU => 1,
        HBAPortReg::FB => 2,
        HBAPortReg::FBU => 3,
        HBAPortReg::IS => 4,
        HBAPortReg::IE => 5,
        HBAPortReg::CMDSTS => 6,
        HBAPortReg::TFD => 8,
        HBAPortReg::SIG => 9,
        HBAPortReg::SSTS => 10,
        HBAPortReg::SCTL => 11,
        HBAPortReg::SERR => 12,
        HBAPortReg::SACT => 13,
        HBAPortReg::CI => 14,
        HBAPortReg::SNTF => 15,
        HBAPortReg::FBS => 16,
        HBAPortReg::DEVSLP => 17,
    };
    (0x100 + port * 0x80) / 4 + off
}

pub const PORT_SSTS_IPM_ACTIVE: u32 = 1;
pub const PORT_SSTS_DET_PRESENT: u32 = 3;
pub const PORT_SIG_ATA: u32 = 0x00000101;
pub const PORT_SIG_ATAPI: u32 = 0xEB140101;
pub const PORT_SIG_SEMB: u32 = 0xC33C0101;
pub const PORT_SIG_PM: u32 = 0x96690101;

/// What is attached to a port.
#[derive(Clone, Copy, Debug, PartialEq, Eq, Structural)]
pub enum AHCIDriveType {
    Null,
    SATA,
    SEMB,
    PM,
    SATAPI,
}

/// What a port's SATA status and signature registers say is attached: a
/// device must be present and its interface active, and the signature
/// tells the kind (a SATA drive for any signature not otherwise known).
pub open spec fn spec_drive_type(ssts: u32, sig: u32) -> AHCIDriveType {
    if ssts & 0xF != PORT_SSTS_DET_PRESENT || (ssts >> 8u32) & 0xF != PORT_SSTS_IPM_ACTIVE {
        AHCIDriveType::Null
    } else if sig == PORT_SIG_ATAPI {
        AHCIDriveType::SATAPI
    } else if sig == PORT_SIG_SEMB {
        AHCIDriveType::SEMB
    } else if sig == PORT_SIG_PM {
        AHCIDriveType::PM
    } else {
        AHCIDriveType::SATA
    }
}

/// What is attached to a port, from its SSTS and SIG registers.
pub fn get_drive_type(ssts: u32, sig: u32) -> (t: AHCIDriveType)
    ensures
        t == spec_drive_type(ssts, sig),
{
    let ipm = (ssts >> 8u32) & 0xF;
    let det = ssts & 0xF;
    if det != PORT_SSTS_DET_PRESENT || ipm != PORT_SSTS_IPM_ACTIVE {
        return AHCIDriveType::Null;
    }
    if sig == PORT_SIG_ATAPI {
        AHCIDriveType::SATAPI
    } else if sig == PORT_SIG_SEMB {
        AHCIDriveType::SEMB
    } else if sig == PORT_SIG_PM {
        AHCIDriveType::PM
    } else {
        AHCIDriveType::SATA
    }
}

// ---------------------------------------------------------------------------
// Command headers
// ---------------------------------------------------------------------------

pub const FLAGS_ATAPI: u16 = 0x20;
pub const FLAGS_WRITE: u16 = 0x40;
pub const FLAGS_PREFETCH: u16 = 0x80;
pub const FLAGS_RESET: u16 = 0x100;
/// The adapter clears the command's issue bit and the busy status once the
/// FIS is sent and acknowledged.
pub const FLAGS_CLEAR_BUSY: u16 = 0x400;

/// An entry of a port's command list: flags (with the command FIS length
/// in 32-bit words in the low 5 bits), the length of the scatter/gather
/// table, the bytes transferred and the command table's address.
#[derive(Clone, Copy, Debug)]
pub struct HBACommandHeader {
    pub flags: u16,
    pub prdt_entries: u16,
    pub xfered_bytes: u32,
    pub cmd_tbl_base: u64,
}

/// The four 32-bit words of a command header in memory.
pub open spec fn spec_header_words(h: HBACommandHeader) -> Seq<u32> {
    seq![
        ((h.prdt_entries as u32) << 16u32) | (h.flags as u32),
        h.xfered_bytes,
        (h.cmd_tbl_base & 0xFFFFFF80) as u32,
        (h.cmd_tbl_base >> 32u64) as u32,
    ]
}

/// The command header four words in memory hold.
pub open spec fn spec_header_from_words(w0: u32, w1: u32, w2: u32, w3: u32) -> HBACommandHeader {
    HBACommandHeader {
        flags: (w0 & 0xFFFF) as u16,
        prdt_entries: (w0 >> 16u32) as u16,
        xfered_bytes: w1,
        cmd_tbl_base: (w2 as u64) | ((w3 as u64) << 32u64),
    }
}

impl HBACommandHeader {
    pub fn new() -> (h: Self)
        ensures
            h.flags == 0 && h.prdt_entries == 0 && h.xfered_bytes == 0 && h.cmd_tbl_base == 0,
    {
        HBACommandHeader { flags: 0, prdt_entries: 0, xfered_bytes: 0, cmd_tbl_base: 0 }
    }

    /// Sets the command FIS length (in 32-bit words, 5 bits).
    pub fn set_cmd_fis_len(&mut self, num_dwords: u8)
        ensures
            final(self).flags == (old(self).flags & 0xFFE0) | ((num_dwords & 0x1F) as u16),
            final(self).prdt_entries == old(self).prdt_entries,
            final(self).xfered_bytes == old(self).xfered_bytes,
            final(self).cmd_tbl_base == old(self).cmd_tbl_base,
    {
        self.flags = (self.flags & 0xFFE0) | ((num_dwords & 0x1F) as u16);
    }

    /// The header as it is written to memory (its command table address
    /// aligned down to 128 bytes).
    pub fn encode(&self) -> (w: [u32; 4])
        ensures
            w@ == spec_header_words(*self),
    {
        let w: [u32; 4] = [
            ((self.prdt_entries as u32) << 16u32) | (self.flags as u32),
            self.xfered_bytes,
            (self.cmd_tbl_base & 0xFFFFFF80) as u32,
            (self.cmd_tbl_base >> 32u64) as u32,
        ];
        assert(w@ =~= spec_header_words(*self));
        w
    }

    /// Reads the header from its four words in memory.
    pub fn decode(&mut self, w: &[u32; 4])
        ensures
            *final(self) == spec_header_from_words(w@[0], w@[1], w@[2], w@[3]),
    {
        self.flags = (w[0] & 0xFFFF) as u16;
        self.prdt_entries = (w[0] >> 16u32) as u16;
        self.xfered_bytes = w[1];
        self.cmd_tbl_base = (w[2] as u64) | ((w[3] as u64) << 32u64);
    }
}

/// A command header written and read back is the same header, when its
/// command table is 128-byte aligned (as the adapter requires).
pub proof fn lemma_header_roundtrip(h: HBACommandHeader)
    requires
        h.cmd_tbl_base & 0x7F == 0,
    ensures
        ({
            let w = spec_header_words(h);
            spec_header_from_words(w[0], w[1], w[2], w[3]) == h
        }),
{
    let f = h.flags;
    let p = h.prdt_entries;
    let b = h.cmd_tbl_base;
    assert((((((p as u32) << 16u32) | (f as u32)) & 0xFFFF) as u16) == f
        && (((((p as u32) << 16u32) | (f as u32)) >> 16u32) as u16) == p) by (bit_vector);
    assert(b & 0x7F == 0 ==> ((((b & 0xFFFFFF80) as u32) as u64) | ((((b >> 32u64) as u32) as u64) << 32u64)) == b) by (bit_vector);
}

// ---------------------------------------------------------------------------
// Scatter/gather descriptors
// ---------------------------------------------------------------------------

/// An entry of a command's scatter/gather table: a data buffer and whether
/// its completion raises an interrupt.
#[derive(Clone, Copy, Debug)]
pub struct HBAPhysicalRegionDescriptor {
    pub base_addr: u64,
    pub length: u32,
    pub irq: bool,
}

/// The words of a descriptor written to memory: words 0, 1 and 3 (word 2
/// is reserved and left as it is).
pub open spec fn spec_prd_words(p: HBAPhysicalRegionDescriptor) -> (u32, u32, u32) {
    (
        (p.base_addr & 0xFFFFFFFE) as u32,
        (p.base_addr >> 32u64) as u32,
        if p.irq {
            ((p.length - 1) as u32) | 0x80000000u32
        } else {
            (p.length - 1) as u32
        },
    )
}

/// The descriptor words 0, 1 and 3 hold.
pub open spec fn spec_prd_from_words(dw0: u32, dw1: u32, dw3: u32) -> HBAPhysicalRegionDescriptor {
    HBAPhysicalRegionDescriptor {
        base_addr: (dw0 as u64) | ((dw1 as u64) << 32u64),
        length: ((dw3 & 0x3FFFFF) + 1) as u32,
        irq: dw3 & 0x80000000u32 != 0,
    }
}

impl HBAPhysicalRegionDescriptor {
    pub fn new() -> (p: Self)
        ensures
            p.base_addr == 0 && p.length == 0 && !p.irq,
    {
        HBAPhysicalRegionDescriptor { base_addr: 0, length: 0, irq: false }
    }

    /// Words 0, 1 and 3 of the descriptor as it is written to memory (its
    /// address with bit 0 cleared, its length less one, the interrupt in
    /// bit 31).
    pub fn encode(&self) -> (w: (u32, u32, u32))
        requires
            self.length >= 1,
        ensures
            w == spec_prd_words(*self),
    {
        let dw3: u32 = if self.irq {
            (self.length - 1) | 0x80000000
        } else {
            self.length - 1
        };
        ((self.base_addr & 0xFFFFFFFE) as u32, (self.base_addr >> 32u64) as u32, dw3)
    }

    /// Reads the descriptor from its words 0, 1 and 3.
    pub fn decode(&mut self, dw0: u32, dw1: u32, dw3: u32)
        ensures
            *final(self) == spec_prd_from_words(dw0, dw1, dw3),
    {
        self.base_addr = (dw0 as u64) | ((dw1 as u64) << 32u64);
        self.irq = dw3 & 0x80000000 > 0;
        assert(dw3 & 0x3FFFFF < 0x400000) by (bit_vector);
        self.length = (dw3 & 0x3FFFFF) + 1;
    }
}

/// A descriptor written and read back is the same descriptor, when its
/// buffer is 2-byte aligned and its length from 1 to 4 MiB.
pub proof fn lemma_prd_roundtrip(p: HBAPhysicalRegionDescriptor)
    requires
        p.base_addr & 1 == 0,
        1 <= p.length <= 0x400000,
    ensures
        ({
            let w = spec_prd_words(p);
            spec_prd_from_words(w.0, w.1, w.2) == p
        }),
{
    let b = p.base_addr;
    let l = p.length;
    assert(b & 1 == 0 ==> ((((b & 0xFFFFFFFE) as u32) as u64) | ((((b >> 32u64) as u32) as u64) << 32u64)) == b) by (bit_vector);
    assert(1 <= l <= 0x400000 ==> ((((l - 1) as u32) | 0x80000000u32) & 0x3FFFFF) + 1 == l
        && ((((l - 1) as u32) | 0x80000000u32) & 0x80000000u32) != 0
        && (((l - 1) as u32) & 0x3FFFFF) + 1 == l
        && (((l - 1) as u32) & 0x80000000u32) == 0) by (bit_vector);
}

// ---------------------------------------------------------------------------
// Command FIS (host to device)
// ---------------------------------------------------------------------------

pub const FIS_LENGTH_DWORDS: u8 = 5;
pub const DEV_LBA_ADDRESSING: u8 = 0x40;
pub const DEV_MASTER: u8 = 0;
pub const FIS_TYPE_REG_H2D: u32 = 0x27;
pub const ATA_CMD_IDENTIFY: u8 = 0xEC;
pub const ATA_CMD_READ_DMA_EX: u8 = 0x25;

/// A register FIS from the host to the device: the ATA command, the port
/// multiplier port, the device register, the sector address and count.
#[derive(Clone, Copy, Debug)]
pub struct HBAHostToDeviceFIS {
    pub lba: u64,
    pub sectors: u16,
    pub ata_cmd: u8,
    pub pm_port: u8,
    pub device: u8,
}

/// The five words of the FIS in the command table.
pub open spec fn spec_fis_words(f: HBAHostToDeviceFIS) -> Seq<u32> {
    seq![
        ((f.ata_cmd as u32) << 16u32) | ((0x80u32 | (f.pm_port as u32)) << 8u32) | FIS_TYPE_REG_H2D,
        ((f.device as u32) << 24u32) | ((f.lba & 0xFFFFFF) as u32),
        ((f.lba >> 24u64) & 0xFFFFFF) as u32,
        f.sectors as u32,
        0u32,
    ]
}

/// The FIS five words hold, as the driver reads it back: the upper part of
/// the sector address is put at bit 32.
pub open spec fn spec_fis_from_words(w: Seq<u32>) -> HBAHostToDeviceFIS {
    HBAHostToDeviceFIS {
        ata_cmd: ((w[0] >> 16u32) & 0xFF) as u8,
        pm_port: ((w[0] >> 8u32) & 0x0F) as u8,
        device: (w[1] >> 24u32) as u8,
        lba: ((w[1] & 0xFFFFFF) as u64) | (((w[2] & 0xFFFFFF) as u64) << 32u64),
        sectors: (w[3] & 0xFFFF) as u16,
    }
}

impl HBAHostToDeviceFIS {
    pub fn new() -> (f: Self)
        ensures
            f.lba == 0 && f.sectors == 0 && f.ata_cmd == 0 && f.pm_port == 0 && f.device == 0,
    {
        HBAHostToDeviceFIS { lba: 0, sectors: 0, ata_cmd: 0, pm_port: 0, device: 0 }
    }

    /// The FIS as it is written to the command table.
    pub fn encode(&self) -> (w: [u32; 5])
        ensures
            w@ == spec_fis_words(*self),
    {
        let dw0: u32 = ((self.ata_cmd as u32) << 16u32) | ((0x80u32 | (self.pm_port as u32)) << 8u32) | FIS_TYPE_REG_H2D;
        let dw1: u32 = ((self.device as u32) << 24u32) | ((self.lba & 0xFFFFFF) as u32);
        let dw2: u32 = ((self.lba >> 24u64) & 0xFFFFFF) as u32;
        let dw3: u32 = self.sectors as u32;
        let w: [u32; 5] = [dw0, dw1, dw2, dw3, 0];
        assert(w@ =~= spec_fis_words(*self));
        w
    }

    /// Reads the FIS back from its five words.
    pub fn decode(&mut self, w: &[u32; 5])
        ensures
            *final(self) == spec_fis_from_words(w@),
    {
        self.ata_cmd = ((w[0] >> 16u32) & 0xFF) as u8;
        self.pm_port = ((w[0] >> 8u32) & 0x0F) as u8;
        self.device = (w[1] >> 24u32) as u8;
        self.lba = ((w[1] & 0xFFFFFF) as u64) | (((w[2] & 0xFFFFFF) as u64) << 32u64);
        self.sectors = (w[3] & 0xFFFF) as u16;
    }
}

/// A FIS written and read back is the same FIS when its port multiplier
/// port fits in 4 bits and its sector address in 24 bits.
pub proof fn lemma_fis_roundtrip(f: HBAHostToDeviceFIS)
    requires
        f.pm_port < 16,
        f.lba < 0x1000000,
    ensures
        spec_fis_from_words(spec_fis_words(f)) == f,
{
    let c = f.ata_cmd;
    let pm = f.pm_port;
    let d = f.device;
    let l = f.lba;
    let s = f.sectors;
    assert(pm < 16 ==> ((((((c as u32) << 16u32) | ((0x80u32 | (pm as u32)) << 8u32) | 0x27u32) >> 16u32) & 0xFF) as u8) == c
        && ((((((c as u32) << 16u32) | ((0x80u32 | (pm as u32)) << 8u32) | 0x27u32) >> 8u32) & 0x0F) as u8) == pm) by (bit_vector);
    assert(l < 0x1000000 ==> (((((d as u32) << 24u32) | ((l & 0xFFFFFF) as u32)) >> 24u32) as u8) == d
        && ((((((d as u32) << 24u32) | ((l & 0xFFFFFF) as u32)) & 0xFFFFFF) as u64) | ((((((l >> 24u64) & 0xFFFFFF) as u32) & 0xFFFFFF) as u64) << 32u64)) == l) by (bit_vector);
    assert((((s as u32) & 0xFFFF) as u16) == s) by (bit_vector);
}

// ---------------------------------------------------------------------------
// Commands
// ---------------------------------------------------------------------------

/// A command the driver puts in command slot `cmd_index`: its header, its
/// one scatter/gather descriptor and its FIS.
#[derive(Clone, Copy, Debug)]
pub struct AHCICommand {
    pub cmd_index: usize,
    pub hdr: HBACommandHeader,
    pub prd: HBAPhysicalRegionDescriptor,
    pub fis: HBAHostToDeviceFIS,
}

/// The header of a command with one descriptor and a FIS of the usual
/// length, from the slot's header as it was, whose flags become `flags`.
pub open spec fn spec_cmd_header(hdr0: HBACommandHeader, flags: u16) -> HBACommandHeader {
    HBACommandHeader {
        flags: (flags & 0xFFE0) | ((FIS_LENGTH_DWORDS & 0x1F) as u16),
        prdt_entries: 1,
        xfered_bytes: hdr0.xfered_bytes,
        cmd_tbl_base: hdr0.cmd_tbl_base,
    }
}

/// ATA IDENTIFY DEVICE into the 512-byte buffer at `dma_phys`, in slot 0
/// (whose header was `hdr0`).
pub open spec fn spec_identify_command(hdr0: HBACommandHeader, dma_phys: usize) -> AHCICommand {
    AHCICommand {
        cmd_index: 0,
        hdr: spec_cmd_header(hdr0, FLAGS_CLEAR_BUSY),
        prd: HBAPhysicalRegionDescriptor { base_addr: dma_phys as u64, length: 512, irq: true },
        fis: HBAHostToDeviceFIS { lba: 0, sectors: 0, ata_cmd: ATA_CMD_IDENTIFY, pm_port: 0, device: DEV_MASTER },
    }
}

/// ATA READ DMA EXT of `num_sectors` sectors (512 bytes each) from
/// `start_lba` into the buffer at `buffer_addr`, in slot 0 (whose header was
/// `hdr0`).
pub open spec fn spec_read_command(hdr0: HBACommandHeader, start_lba: u64, num_sectors: u16, buffer_addr: usize) -> AHCICommand {
    AHCICommand {
        cmd_index: 0,
        hdr: spec_cmd_header(hdr0, hdr0.flags | FLAGS_CLEAR_BUSY),
        prd: HBAPhysicalRegionDescriptor {
            base_addr: buffer_addr as u64,
            length: (num_sectors * 512) as u32,
            irq: true,
        },
        fis: HBAHostToDeviceFIS {
            lba: start_lba,
            sectors: num_sectors,
            ata_cmd: ATA_CMD_READ_DMA_EX,
            pm_port: 0,
            device: DEV_LBA_ADDRESSING,
        },
    }
}

/// The ATA IDENTIFY DEVICE command.
pub fn identify_command(hdr0: &HBACommandHeader, dma_phys: usize) -> (c: AHCICommand)
    ensures
        c == spec_identify_command(*hdr0, dma_phys),
{
    let mut hdr = *hdr0;
    hdr.flags = FLAGS_CLEAR_BUSY;
    hdr.set_cmd_fis_len(FIS_LENGTH_DWORDS);
    hdr.prdt_entries = 1;
    let mut prd = HBAPhysicalRegionDescriptor::new();
    prd.base_addr = dma_phys as u64;
    prd.length = 512;
    prd.irq = true;
    let mut fis = HBAHostToDeviceFIS::new();
    fis.ata_cmd = ATA_CMD_IDENTIFY;
    fis.device = DEV_MASTER;
    AHCICommand { cmd_index: 0, hdr, prd, fis }
}

/// The ATA READ DMA EXT command; none for more than 8 sectors (4 KiB).
pub fn read_command(hdr0: &HBACommandHeader, start_lba: u64, num_sectors: u16, buffer_addr: usize) -> (c: Option<AHCICommand>)
    requires
        num_sectors <= 8 ==> num_sectors >= 1,
    ensures
        num_sectors > 8 ==> c is None,
        num_sectors <= 8 ==> c == Some(spec_read_command(*hdr0, start_lba, num_sectors, buffer_addr)),
        c matches Some(cmd) ==> cmd.prd.length >= 1,
{
    if num_sectors > 8 {
        return None;
    }
    let mut hdr = *hdr0;
    hdr.flags = hdr.flags | FLAGS_CLEAR_BUSY;
    hdr.set_cmd_fis_len(FIS_LENGTH_DWORDS);
    hdr.prdt_entries = 1;
    let mut prd = HBAPhysicalRegionDescriptor::new();
    prd.base_addr = buffer_addr as u64;
    prd.length = (num_sectors as u32) * 512;
    prd.irq = true;
    let mut fis = HBAHostToDeviceFIS::new();
    fis.ata_cmd = ATA_CMD_READ_DMA_EX;
    fis.device = DEV_LBA_ADDRESSING;
    fis.lba = start_lba;
    fis.sectors = num_sectors;
    Some(AHCICommand { cmd_index: 0, hdr, prd, fis })
}

/// Whether the command in slot `cmd_index` has completed, given the port's
/// command issue register.
pub fn command_done(ci: u32, cmd_index: usize) -> (b: bool)
    requires
        cmd_index < 32,
    ensures
        b == (ci & (1u32 << (cmd_index as u32)) == 0),
{
    ci & (1u32 << (cmd_index as u32)) == 0
}

/// The port reports a task file error (bit 30 of its interrupt status).
pub fn task_file_error(is: u32) -> (b: bool)
    ensures
        b == (is & 0x40000000 != 0),
{
    is & 0x40000000 > 0
}

// ---------------------------------------------------------------------------
// Drives
// ---------------------------------------------------------------------------

pub const CAP_LBA28_SUPPORTED: u32 = 0x1;
pub const CAP_LBA48_SUPPORTED: u32 = 0x2;
pub const CAP_DMA_SUPPORTED: u32 = 0x4;
/// The port's memory: the command list (1 KiB), the received FISes (256
/// bytes), then the command tables.
pub const CMD_LST_BASE: usize = 0;
pub const FB_OFFSET: usize = 1024;
pub const CMD_TBL_BASE: usize = 1280;
/// Command slots in use, so that the port's memory fits in a 4 KiB frame.
pub const CMD_TBL_COUNT: usize = 11;
pub const PRDT_ENTRIES_PER_CTBL: usize = 8;
/// A command table: the FIS, the ATAPI command, then the descriptors.
pub const CMD_TBL_SIZE: usize = 0x100;
pub const MEM_SIZE: usize = 4096;

/// What ATA IDENTIFY DEVICE reports (its 256 words): the capabilities, the
/// sector count (left as `count0` when neither LBA mode is supported) and
/// the sector size: DMA and LBA28 support from word 49, LBA48 support from
/// word 83.
pub open spec fn spec_identify(id: Seq<u16>, count0: u64) -> (u32, u64, u32) {
    let w49 = id[49];
    let w83 = id[83];
    let cap_dma: u32 = if w49 & 0x100 != 0 { CAP_DMA_SUPPORTED } else { 0 };
    let cap = if w83 & 0x400 != 0 {
        cap_dma | CAP_LBA48_SUPPORTED
    } else if w49 & 0x200 != 0 {
        cap_dma | CAP_LBA28_SUPPORTED
    } else {
        cap_dma
    };
    let count = if w83 & 0x400 != 0 {
        (id[100] as u64) | ((id[101] as u64) << 16u64) | ((id[102] as u64) << 32u64) | ((id[103] as u64) << 48u64)
    } else if w49 & 0x200 != 0 {
        (id[60] as u64) | ((id[61] as u64) << 16u64)
    } else {
        count0
    };
    let size = if id[106] & 0x1000 != 0 {
        (((id[117] as u32) | ((id[118] as u32) << 16u32)) * 2) as u32
    } else {
        512u32
    };
    (cap, count, size)
}

/// The sector size word pair does not overflow when doubled.
pub open spec fn identify_ok(id: Seq<u16>) -> bool {
    id[106] & 0x1000 != 0 ==> ((id[117] as u32) | ((id[118] as u32) << 16u32)) * 2 <= u32::MAX
}

/// A drive on a port: its memory, its I/O request queues (waiting to be
/// sent, sent, completed) and what IDENTIFY DEVICE reported.
pub struct AHCIDrive {
    pub port: usize,
    pub drv_type: AHCIDriveType,
    pub base_addr: usize,
    pub request_queue: Vec<IORequest>,
    pub submitted_queue: Vec<IORequest>,
    pub completed_queue: Vec<IORequest>,
    pub cap: u32,
    pub sector_size: u32,
    pub sector_count: u64,
}

impl AHCIDrive {
    pub fn new() -> (d: Self)
        ensures
            d.port == 0 && d.drv_type == AHCIDriveType::Null && d.base_addr == 0,
            d.request_queue@.len() == 0 && d.submitted_queue@.len() == 0 && d.completed_queue@.len() == 0,
            d.cap == 0 && d.sector_size == 0 && d.sector_count == 0,
    {
        AHCIDrive {
            port: 0,
            drv_type: AHCIDriveType::Null,
            base_addr: 0,
            request_queue: Vec::new(),
            submitted_queue: Vec::new(),
            completed_queue: Vec::new(),
            cap: 0,
            sector_size: 0,
            sector_count: 0,
        }
    }

    /// Where command slot `cmd_index`'s header is.
    pub fn cmd_hdr_base(&self, cmd_index: usize) -> (a: usize)
        requires
            self.base_addr + cmd_index * 32 <= usize::MAX,
        ensures
            a == self.base_addr + cmd_index * 32,
    {
        self.base_addr + cmd_index * 32
    }

    /// Where command slot `cmd_index`'s table is.
    pub fn cmd_table_base(&self, cmd_index: usize) -> (a: usize)
        requires
            self.base_addr + CMD_TBL_BASE + cmd_index * CMD_TBL_SIZE <= usize::MAX,
        ensures
            a == self.base_addr + CMD_TBL_BASE + cmd_index * CMD_TBL_SIZE,
    {
        self.base_addr + CMD_TBL_BASE + cmd_index * CMD_TBL_SIZE
    }

    /// Where descriptor `entry_index` of command slot `cmd_index` is.
    pub fn prdt_entry_addr(&self, cmd_index: usize, entry_index: usize) -> (a: usize)
        requires
            self.base_addr + CMD_TBL_BASE + cmd_index * CMD_TBL_SIZE + 0x80 + entry_index * 16 <= usize::MAX,
        ensures
            a == self.base_addr + CMD_TBL_BASE + cmd_index * CMD_TBL_SIZE + 0x80 + entry_index * 16,
    {
        self.cmd_table_base(cmd_index) + 0x80 + entry_index * 16
    }

    /// Takes the (zeroed) frame at `frame` as the port's memory and returns
    /// the headers to write there: each slot in use points to its command
    /// table, with room for 8 descriptors.
    pub fn init_memory(&mut self, frame: usize) -> (w: Vec<(usize, HBACommandHeader)>)
        requires
            frame + MEM_SIZE <= usize::MAX,
        ensures
            final(self).base_addr == frame,
            final(self).port == old(self).port && final(self).drv_type == old(self).drv_type,
            final(self).request_queue@ == old(self).request_queue@,
            final(self).submitted_queue@ == old(self).submitted_queue@,
            final(self).completed_queue@ == old(self).completed_queue@,
            final(self).cap == old(self).cap && final(self).sector_size == old(self).sector_size,
            final(self).sector_count == old(self).sector_count,
            w@.len() == CMD_TBL_COUNT,
            forall|i: int|
                0 <= i < CMD_TBL_COUNT ==> (#[trigger] w@[i]).0 == frame + i * 32 && w@[i].1.prdt_entries
                    == PRDT_ENTRIES_PER_CTBL && w@[i].1.flags == 0 && w@[i].1.xfered_bytes == 0
                    && w@[i].1.cmd_tbl_base == frame + CMD_TBL_BASE + i * CMD_TBL_SIZE,
    {
        self.base_addr = frame;
        let mut w: Vec<(usize, HBACommandHeader)> = Vec::new();
        let mut i: usize = 0;
        while i < CMD_TBL_COUNT
            invariant
                i <= CMD_TBL_COUNT,
                self.base_addr == frame,
                frame + MEM_SIZE <= usize::MAX,
                w@.len() == i,
                forall|k: int|
                    0 <= k < i ==> (#[trigger] w@[k]).0 == frame + k * 32 && w@[k].1.prdt_entries
                        == PRDT_ENTRIES_PER_CTBL && w@[k].1.flags == 0 && w@[k].1.xfered_bytes == 0
                        && w@[k].1.cmd_tbl_base == frame + CMD_TBL_BASE + k * CMD_TBL_SIZE,
            decreases CMD_TBL_COUNT - i,
        {
            let mut cmd = HBACommandHeader::new();
            cmd.prdt_entries = PRDT_ENTRIES_PER_CTBL as u16;
            cmd.cmd_tbl_base = self.cmd_table_base(i) as u64;
            w.push((self.cmd_hdr_base(i), cmd));
            i = i + 1;
        }
        w
    }

    /// Takes what ATA IDENTIFY DEVICE reported.
    pub fn identify(&mut self, id: &[u16])
        requires
            id@.len() == 256,
            identify_ok(id@),
        ensures
            (final(self).cap, final(self).sector_count, final(self).sector_size) == spec_identify(
                id@,
                old(self).sector_count,
            ),
            final(self).port == old(self).port && final(self).base_addr == old(self).base_addr,
            final(self).drv_type == old(self).drv_type,
            final(self).request_queue@ == old(self).request_queue@,
            final(self).submitted_queue@ == old(self).submitted_queue@,
            final(self).completed_queue@ == old(self).completed_queue@,
    {
        let w49 = id[49];
        let w83 = id[83];
        let cap_dma: u32 = if w49 & 0x100 > 0 {
            CAP_DMA_SUPPORTED
        } else {
            0
        };
        self.cap = cap_dma;
        if w83 & 0x400 > 0 {
            self.cap = cap_dma | CAP_LBA48_SUPPORTED;
            self.sector_count = (id[100] as u64) | ((id[101] as u64) << 16u64) | ((id[102] as u64) << 32u64)
                | ((id[103] as u64) << 48u64);
        } else if w49 & 0x200 > 0 {
            self.cap = cap_dma | CAP_LBA28_SUPPORTED;
            self.sector_count = (id[60] as u64) | ((id[61] as u64) << 16u64);
        }
        let w106 = id[106];
        if w106 & 0x1000 > 0 {
            let w117 = id[117] as u32;
            let w118 = id[118] as u32;
            self.sector_size = (w117 | (w118 << 16u32)) * 2;
        } else {
            self.sector_size = 512;
        }
    }
}

// ---------------------------------------------------------------------------
// The bus
// ---------------------------------------------------------------------------

/// The request `iorq` completed with `code` at time `ts`.
pub open spec fn completed_with(iorq: IORequest, code: IOCompletion, ts: u64) -> IORequest {
    IORequest { completion_code: code, ts_completed: ts, ..iorq }
}

/// The requests of `reqs` (sent, in order) whose command slot is no longer
/// issued, completed with the bytes their slot transferred. The others are
/// dropped.
pub open spec fn spec_irq_done(reqs: Seq<IORequest>, ci: u32, xfered: Seq<u32>, ts: u64) -> Seq<IORequest>
    decreases reqs.len(),
{
    if reqs.len() == 0 {
        Seq::empty()
    } else {
        let prev = spec_irq_done(reqs.drop_last(), ci, xfered, ts);
        let r = reqs.last();
        if ci & (1u32 << (r.driver_priv as u32)) == 0 {
            prev.push(completed_with(r, IOCompletion::Successful(xfered[r.driver_priv as int] as usize), ts))
        } else {
            prev
        }
    }
}

/// The index of the first AHCI controller (class 1, subclass 6) among the
/// PCI functions.
pub open spec fn is_first_ahci(devs: Seq<PCIDevice>, i: int) -> bool {
    0 <= i < devs.len() && devs[i].class == 1 && devs[i].sub_class == 6 && forall|j: int|
        0 <= j < i ==> !((#[trigger] devs[j]).class == 1 && devs[j].sub_class == 6)
}

/// The AHCI host bus adapter: its PCI function, its register file, its
/// drives, and whether it was found and raises interrupts.
pub struct AHCIBus {
    pub pci_dev: PCIDevice,
    pub hba_base: usize,
    pub drives: Vec<AHCIDrive>,
    pub enumerated: bool,
    pub irq_enabled: bool,
}

impl AHCIBus {
    pub fn new() -> (b: Self)
        ensures
            b.hba_base == 0 && b.drives@.len() == 0 && !b.enumerated && !b.irq_enabled,
    {
        AHCIBus { pci_dev: PCIDevice::new(), hba_base: 0, drives: Vec::new(), enumerated: false, irq_enabled: false }
    }

    /// Takes the first AHCI controller among the PCI functions: its register
    /// file is at BAR 5 (4 KiB aligned), and it raises interrupts when its
    /// IRQ line is set (0xFF: not routed). Returns the number of buses (1,
    /// or 0 when there is none).
    pub fn enumerate(&mut self, devs: &Vec<PCIDevice>) -> (n: usize)
        ensures
            (exists|i: int| is_first_ahci(devs@, i)) ==> {
                let i = choose|i: int| is_first_ahci(devs@, i);
                &&& n == 1
                &&& final(self).pci_dev == devs@[i]
                &&& final(self).hba_base == (devs@[i].bar@[5] & 0xFFFFF000) as usize
                &&& final(self).irq_enabled == (devs@[i].irq_line != 0xFF)
                &&& final(self).enumerated
            },
            !(exists|i: int| is_first_ahci(devs@, i)) ==> n == 0 && final(self).enumerated == old(self).enumerated
                && final(self).irq_enabled == old(self).irq_enabled,
            final(self).drives@ == old(self).drives@,
    {
        let mut i: usize = 0;
        while i < devs.len()
            invariant
                i <= devs@.len(),
                forall|j: int| 0 <= j < i ==> !((#[trigger] devs@[j]).class == 1 && devs@[j].sub_class == 6),
                self.drives@ == old(self).drives@,
                self.enumerated == old(self).enumerated && self.irq_enabled == old(self).irq_enabled,
            decreases devs@.len() - i,
        {
            let dev = devs[i];
            if dev.class == 0x1 && dev.sub_class == 0x6 {
                proof {
                    assert(is_first_ahci(devs@, i as int));
                    let c = choose|k: int| is_first_ahci(devs@, k);
                    if c < i {
                        assert(!(devs@[c].class == 1 && devs@[c].sub_class == 6));
                    } else if c > i {
                        assert(!(devs@[i as int].class == 1 && devs@[i as int].sub_class == 6));
                    }
                }
                self.pci_dev = dev;
                self.hba_base = (dev.bar[5] & 0xFFFFF000) as usize;
                self.irq_enabled = dev.irq_line != 0xFF;
                self.enumerated = true;
                return 1;
            }
            i = i + 1;
        }
        0
    }

    /// The routing of the controller's interrupt: its IRQ line as both the
    /// GSI and the vector; none when the line is not set.
    pub fn irq_route(&self) -> (r: Option<(u32, u8)>)
        ensures
            self.pci_dev.irq_line == 0xFF ==> r is None,
            self.pci_dev.irq_line != 0xFF ==> r == Some((self.pci_dev.irq_line as u32, self.pci_dev.irq_line)),
    {
        if self.pci_dev.irq_line == 0xFF {
            None
        } else {
            Some((self.pci_dev.irq_line as u32, self.pci_dev.irq_line))
        }
    }

    /// The global host control value that turns interrupts on.
    pub fn ghc_irq_enabled(ghc: u32) -> (v: u32)
        ensures
            v == ghc | 0x2,
    {
        ghc | 0x2
    }

    /// The implemented ports (bits of PI) with a SATA drive, given each
    /// port's SSTS and SIG registers.
    pub fn sata_ports(pi: u32, regs: &Vec<(u32, u32)>) -> (v: Vec<usize>)
        requires
            regs@.len() == 32,
        ensures
            forall|k: int| 0 <= k < v@.len() ==> #[trigger] v@[k] < 32,
            forall|k: int, l: int| 0 <= k < l < v@.len() ==> v@[k] < v@[l],
            forall|p: int|
                0 <= p < 32 ==> (v@.contains(p as usize) <==> ((pi >> (p as u32)) & 1 == 1 && spec_drive_type(
                    regs@[p].0,
                    regs@[p].1,
                ) == AHCIDriveType::SATA)),
    {
        let mut v: Vec<usize> = Vec::new();
        let mut i: usize = 0;
        while i < 32
            invariant
                i <= 32,
                regs@.len() == 32,
                forall|k: int| 0 <= k < v@.len() ==> #[trigger] v@[k] < i,
                forall|k: int, l: int| 0 <= k < l < v@.len() ==> v@[k] < v@[l],
                forall|p: int|
                    0 <= p < i ==> (v@.contains(p as usize) <==> ((pi >> (p as u32)) & 1 == 1 && spec_drive_type(
                        regs@[p].0,
                        regs@[p].1,
                    ) == AHCIDriveType::SATA)),
            decreases 32 - i,
        {
            let (ssts, sig) = regs[i];
            let implemented = (pi >> (i as u32)) & 1 == 1;
            let ghost v0 = v@;
            let take = implemented && get_drive_type(ssts, sig) == AHCIDriveType::SATA;
            if take {
                v.push(i);
            }
            proof {
                assert forall|p: int|
                    0 <= p < i + 1 implies (v@.contains(p as usize) <==> ((pi >> (p as u32)) & 1 == 1
                        && spec_drive_type(regs@[p].0, regs@[p].1) == AHCIDriveType::SATA)) by {
                    if v@.contains(p as usize) {
                        let k = choose|k: int| 0 <= k < v@.len() && v@[k] == p as usize;
                        if k < v0.len() {
                            assert(v0[k] == p as usize);
                            assert(v0.contains(p as usize));
                        } else {
                            assert(take && p == i);
                        }
                    }
                    if p < i && v0.contains(p as usize) {
                        let k = choose|k: int| 0 <= k < v0.len() && v0[k] == p as usize;
                        assert(v@[k] == p as usize);
                    }
                    if p == i && take {
                        assert(v@[v@.len() - 1] == i);
                    }
                    if p == i && v0.contains(p as usize) {
                        let k = choose|k: int| 0 <= k < v0.len() && v0[k] == p as usize;
                        assert(v0[k] < i);
                    }
                }
            }
            i = i + 1;
        }
        v
    }

    /// Adds the SATA drive on `port` (its memory at `base_addr`, what it
    /// reported to IDENTIFY DEVICE when that completed) and returns the disk
    /// to register for it.
    pub fn add_drive(&mut self, port: usize, base_addr: usize, id: Option<&[u16]>, driver: usize) -> (d: Disk)
        requires
            old(self).drives@.len() < 256,
            id matches Some(b) ==> b@.len() == 256 && identify_ok(b@),
        ensures
            final(self).drives@.len() == old(self).drives@.len() + 1,
            forall|k: int| 0 <= k < old(self).drives@.len() ==> #[trigger] final(self).drives@[k] == old(self).drives@[k],
            ({
                let dr = final(self).drives@.last();
                &&& dr.port == port && dr.base_addr == base_addr && dr.drv_type == AHCIDriveType::SATA
                &&& dr.request_queue@.len() == 0 && dr.submitted_queue@.len() == 0
                &&& dr.completed_queue@.len() == 0
                &&& match id {
                    Some(b) => (dr.cap, dr.sector_count, dr.sector_size) == spec_identify(b@, 0),
                    None => dr.cap == 0 && dr.sector_count == 0 && dr.sector_size == 0,
                }
                &&& d.sector_size == dr.sector_size && d.sector_count == dr.sector_count
            }),
            d.bus == BusType::AHCI && d.bus_id == 0 && d.drive_id == old(self).drives@.len()
                && d.part_id == 0 && d.driver == driver,
            final(self).pci_dev == old(self).pci_dev && final(self).hba_base == old(self).hba_base,
            final(self).enumerated == old(self).enumerated && final(self).irq_enabled == old(self).irq_enabled,
    {
        let mut drive = AHCIDrive::new();
        drive.port = port;
        drive.drv_type = AHCIDriveType::SATA;
        drive.base_addr = base_addr;
        match id {
            Some(b) => drive.identify(b),
            None => {},
        }
        let disk = Disk {
            bus: BusType::AHCI,
            bus_id: 0,
            drive_id: self.drives.len() as u8,
            part_id: 0,
            sector_size: drive.sector_size,
            sector_count: drive.sector_count,
            driver,
        };
        self.drives.push(drive);
        disk
    }

    /// The drive workers to start: one per drive.
    pub fn post_enum(&self) -> (n: usize)
        ensures
            n == self.drives@.len(),
    {
        self.drives.len()
    }

    pub fn release(_device: usize) {
    }
}

/// The two drives have the same port, memory, type and identity.
pub open spec fn same_drive(a: AHCIDrive, b: AHCIDrive) -> bool {
    &&& a.port == b.port && a.base_addr == b.base_addr && a.drv_type == b.drv_type
    &&& a.cap == b.cap && a.sector_size == b.sector_size && a.sector_count == b.sector_count
}

/// Why a request to `dsk` fails before it reaches a drive: a disk of
/// another bus, sectors past the disk's end, or no such drive.
pub open spec fn spec_issue_error(dsk: Disk, iorq: IORequest, num_drives: int) -> Option<IOCompletion> {
    if dsk.bus != BusType::AHCI || dsk.bus_id != 0 {
        Some(IOCompletion::InvalidBus)
    } else if iorq.lba + iorq.sectors > dsk.sector_count {
        Some(IOCompletion::OutOfBoundIO)
    } else if dsk.drive_id >= num_drives {
        Some(IOCompletion::InvalidDrive)
    } else {
        None
    }
}

impl AHCIBus {
    /// Takes a request for `dsk` at time `ts` from task `tid`: it is queued
    /// for the disk's drive (whose worker sends it), or returned at once
    /// with why it failed.
    pub fn issue_io(&mut self, dsk: &Disk, iorq: &IORequest, ts: u64, tid: usize) -> (r: Option<IORequest>)
        requires
            iorq.lba + iorq.sectors <= u64::MAX,
        ensures
            match spec_issue_error(*dsk, *iorq, old(self).drives@.len() as int) {
                Some(code) => {
                    &&& r == Some(IORequest { completion_code: code, ts_issued: ts, ..*iorq })
                    &&& final(self).drives@ == old(self).drives@
                },
                None => {
                    let d = dsk.drive_id as int;
                    &&& r is None
                    &&& final(self).drives@.len() == old(self).drives@.len()
                    &&& forall|k: int| 0 <= k < old(self).drives@.len() && k != d ==> #[trigger] final(self).drives@[k] == old(self).drives@[k]
                    &&& same_drive(final(self).drives@[d], old(self).drives@[d])
                    &&& final(self).drives@[d].request_queue@ == old(self).drives@[d].request_queue@.push(
                        IORequest { ts_issued: ts, waiter_tid: tid, ..*iorq },
                    )
                    &&& final(self).drives@[d].submitted_queue@ == old(self).drives@[d].submitted_queue@
                    &&& final(self).drives@[d].completed_queue@ == old(self).drives@[d].completed_queue@
                },
            },
            final(self).pci_dev == old(self).pci_dev && final(self).hba_base == old(self).hba_base,
            final(self).enumerated == old(self).enumerated && final(self).irq_enabled == old(self).irq_enabled,
    {
        let mut cpyrq = *iorq;
        cpyrq.ts_issued = ts;
        if dsk.bus != BusType::AHCI || dsk.bus_id != 0 {
            cpyrq.completion_code = IOCompletion::InvalidBus;
            return Some(cpyrq);
        }
        if iorq.lba + iorq.sectors as u64 > dsk.sector_count {
            cpyrq.completion_code = IOCompletion::OutOfBoundIO;
            return Some(cpyrq);
        }
        if dsk.drive_id as usize >= self.drives.len() {
            cpyrq.completion_code = IOCompletion::InvalidDrive;
            return Some(cpyrq);
        }
        cpyrq.waiter_tid = tid;
        let d = dsk.drive_id as usize;
        let mut drive = self.drives.remove(d);
        drive.request_queue.push(cpyrq);
        self.drives.insert(d, drive);
        None
    }

    /// Sends a request (taken from drive `drive_id`'s queue) at time `ts`,
    /// command slot 0's header being `hdr0`: a read of up to 8 sectors
    /// becomes the command to issue and waits among the sent requests;
    /// anything else completes at once (a longer read as not issued, a
    /// write as an invalid operation).
    pub fn submit_io_command(&mut self, drive_id: u8, iorq: IORequest, ts: u64, hdr0: &HBACommandHeader) -> (r: Option<AHCICommand>)
        requires
            drive_id < old(self).drives@.len(),
            iorq.op == IOOperation::Read && iorq.sectors <= 8 ==> iorq.sectors >= 1,
        ensures
            ({
                let d = drive_id as int;
                let rq = IORequest { ts_submitted: ts, ..iorq };
                &&& final(self).drives@.len() == old(self).drives@.len()
                &&& forall|k: int| 0 <= k < old(self).drives@.len() && k != d ==> #[trigger] final(self).drives@[k] == old(self).drives@[k]
                &&& same_drive(final(self).drives@[d], old(self).drives@[d])
                &&& final(self).drives@[d].request_queue@ == old(self).drives@[d].request_queue@
                &&& if iorq.op == IOOperation::Read && iorq.sectors <= 8 {
                    &&& r == Some(spec_read_command(*hdr0, iorq.lba, iorq.sectors, iorq.buffer))
                    &&& final(self).drives@[d].submitted_queue@ == old(self).drives@[d].submitted_queue@.push(
                        IORequest { driver_priv: 0, ..rq },
                    )
                    &&& final(self).drives@[d].completed_queue@ == old(self).drives@[d].completed_queue@
                } else {
                    &&& r is None
                    &&& final(self).drives@[d].submitted_queue@ == old(self).drives@[d].submitted_queue@
                    &&& final(self).drives@[d].completed_queue@ == old(self).drives@[d].completed_queue@.push(
                        IORequest {
                            completion_code: if iorq.op == IOOperation::Read {
                                IOCompletion::NotIssued
                            } else {
                                IOCompletion::InvalidOp
                            },
                            ..rq
                        },
                    )
                }
            }),
            final(self).pci_dev == old(self).pci_dev && final(self).hba_base == old(self).hba_base,
            final(self).enumerated == old(self).enumerated && final(self).irq_enabled == old(self).irq_enabled,
    {
        let ret = if iorq.op == IOOperation::Read {
            read_command(hdr0, iorq.lba, iorq.sectors, iorq.buffer)
        } else {
            None
        };
        let mut rq = iorq;
        rq.ts_submitted = ts;
        let d = drive_id as usize;
        let mut drive = self.drives.remove(d);
        match ret {
            None => {
                if iorq.op == IOOperation::Read {
                    rq.completion_code = IOCompletion::NotIssued;
                } else {
                    rq.completion_code = IOCompletion::InvalidOp;
                }
                drive.completed_queue.push(rq);
            },
            Some(cmd) => {
                rq.driver_priv = cmd.cmd_index;
                drive.submitted_queue.push(rq);
            },
        }
        self.drives.insert(d, drive);
        ret
    }

    /// An interrupt is pending on the adapter.
    pub fn irq_pending(hba_is: u32) -> (b: bool)
        ensures
            b == (hba_is != 0),
    {
        hba_is != 0
    }

    /// Handles drive `drv`'s interrupt at time `ts`, given its port's
    /// interrupt status, its command issue register and the bytes each
    /// command slot transferred: every sent request whose slot is done
    /// completes with them; the others are dropped. Returns whether the
    /// port's interrupt status is to be cleared (it had one).
    pub fn complete_drive(&mut self, drv: usize, port_is: u32, ci: u32, xfered: &Vec<u32>, ts: u64) -> (cleared: bool)
        requires
            drv < old(self).drives@.len(),
            xfered@.len() == 32,
            forall|k: int|
                0 <= k < old(self).drives@[drv as int].submitted_queue@.len() ==> (#[trigger] old(self).drives@[drv as int].submitted_queue@[k]).driver_priv < 32,
        ensures
            cleared == (port_is != 0),
            port_is == 0 ==> final(self).drives@ == old(self).drives@,
            port_is != 0 ==> {
                let d = drv as int;
                &&& final(self).drives@.len() == old(self).drives@.len()
                &&& forall|k: int| 0 <= k < old(self).drives@.len() && k != d ==> #[trigger] final(self).drives@[k] == old(self).drives@[k]
                &&& same_drive(final(self).drives@[d], old(self).drives@[d])
                &&& final(self).drives@[d].request_queue@ == old(self).drives@[d].request_queue@
                &&& final(self).drives@[d].submitted_queue@.len() == 0
                &&& final(self).drives@[d].completed_queue@ == old(self).drives@[d].completed_queue@ + spec_irq_done(
                    old(self).drives@[d].submitted_queue@,
                    ci,
                    xfered@,
                    ts,
                )
            },
            final(self).pci_dev == old(self).pci_dev && final(self).hba_base == old(self).hba_base,
            final(self).enumerated == old(self).enumerated && final(self).irq_enabled == old(self).irq_enabled,
    {
        if port_is == 0 {
            return false;
        }
        let mut drive = self.drives.remove(drv);
        let mut sent: Vec<IORequest> = Vec::new();
        std::mem::swap(&mut sent, &mut drive.submitted_queue);
        let ghost c0 = drive.completed_queue@;
        let mut i: usize = 0;
        while i < sent.len()
            invariant
                i <= sent@.len(),
                sent@ == old(self).drives@[drv as int].submitted_queue@,
                xfered@.len() == 32,
                forall|k: int| 0 <= k < sent@.len() ==> (#[trigger] sent@[k]).driver_priv < 32,
                drive.completed_queue@ == c0 + spec_irq_done(sent@.take(i as int), ci, xfered@, ts),
                drive.submitted_queue@.len() == 0,
                drive.port == old(self).drives@[drv as int].port,
                drive.base_addr == old(self).drives@[drv as int].base_addr,
                drive.drv_type == old(self).drives@[drv as int].drv_type,
                drive.cap == old(self).drives@[drv as int].cap,
                drive.sector_size == old(self).drives@[drv as int].sector_size,
                drive.sector_count == old(self).drives@[drv as int].sector_count,
                drive.request_queue@ == old(self).drives@[drv as int].request_queue@,
                c0 == old(self).drives@[drv as int].completed_queue@,
            decreases sent@.len() - i,
        {
            let mut rq = sent[i];
            assert(sent@.take(i + 1).drop_last() =~= sent@.take(i as int));
            assert(sent@.take(i + 1).last() == rq);
            if ci & (1u32 << (rq.driver_priv as u32)) == 0 {
                rq.completion_code = IOCompletion::Successful(xfered[rq.driver_priv] as usize);
                rq.ts_completed = ts;
                drive.completed_queue.push(rq);
                assert(drive.completed_queue@ =~= c0 + spec_irq_done(sent@.take(i + 1), ci, xfered@, ts));
            }
            i = i + 1;
        }
        assert(sent@.take(sent@.len() as int) =~= sent@);
        self.drives.insert(drv, drive);
        assert(self.drives@ =~= old(self).drives@.update(drv as int, self.drives@[drv as int]));
        true
    }

    /// Takes drive `drv`'s queued requests, in order.
    pub fn take_requests(&mut self, drv: usize) -> (v: Vec<IORequest>)
        requires
            drv < old(self).drives@.len(),
        ensures
            v@ == old(self).drives@[drv as int].request_queue@,
            final(self).drives@.len() == old(self).drives@.len(),
            forall|k: int| 0 <= k < old(self).drives@.len() && k != drv ==> #[trigger] final(self).drives@[k] == old(self).drives@[k],
            same_drive(final(self).drives@[drv as int], old(self).drives@[drv as int]),
            final(self).drives@[drv as int].request_queue@.len() == 0,
            final(self).drives@[drv as int].submitted_queue@ == old(self).drives@[drv as int].submitted_queue@,
            final(self).drives@[drv as int].completed_queue@ == old(self).drives@[drv as int].completed_queue@,
    {
        let mut drive = self.drives.remove(drv);
        let mut v: Vec<IORequest> = Vec::new();
        std::mem::swap(&mut v, &mut drive.request_queue);
        self.drives.insert(drv, drive);
        v
    }

    /// Takes drive `drv`'s completed requests, in order (their callbacks
    /// are then run and their waiters woken).
    pub fn take_completions(&mut self, drv: usize) -> (v: Vec<IORequest>)
        requires
            drv < old(self).drives@.len(),
        ensures
            v@ == old(self).drives@[drv as int].completed_queue@,
            final(self).drives@.len() == old(self).drives@.len(),
            forall|k: int| 0 <= k < old(self).drives@.len() && k != drv ==> #[trigger] final(self).drives@[k] == old(self).drives@[k],
            same_drive(final(self).drives@[drv as int], old(self).drives@[drv as int]),
            final(self).drives@[drv as int].completed_queue@.len() == 0,
            final(self).drives@[drv as int].submitted_queue@ == old(self).drives@[drv as int].submitted_queue@,
            final(self).drives@[drv as int].request_queue@ == old(self).drives@[drv as int].request_queue@,
    {
        let mut drive = self.drives.remove(drv);
        let mut v: Vec<IORequest> = Vec::new();
        std::mem::swap(&mut v, &mut drive.completed_queue);
        self.drives.insert(drv, drive);
        v
    }
}

} // verus!
