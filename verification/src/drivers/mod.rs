//! Device drivers: the decisions and encodings they make.
use vstd::prelude::*;
use crate::util::{div_round_up, spec_div_round_up};

pub mod audio;
pub mod gui;
pub mod input;
pub mod storage;
pub mod pci;
pub mod machine;
pub mod kbd;

verus! {

/// Tags naming the driver that serves a mount point or a device.
pub const DRV_MACHINE: usize = 1;
pub const DRV_GUI: usize = 2;
pub const DRV_KEYBOARD: usize = 3;
pub const DRV_MOUSE: usize = 4;
pub const DRV_AUDIO: usize = 5;
pub const DRV_FAT: usize = 6;
pub const DRV_FRAMEBUFFER: usize = 7;
pub const DRV_PCI: usize = 8;
pub const DRV_I8042: usize = 9;
pub const DRV_AHCI: usize = 10;
pub const DRV_UART_KEYBOARD: usize = 11;
pub const DRV_EMMC: usize = 12;

/// A built-in driver: its name, the tag of its enumerate/release entry
/// points, and whether it has work to do after enumeration.
#[derive(Clone, Copy, Debug)]
pub struct DriverInfo {
    pub name: &'static str,
    pub driver: usize,
    pub has_post_enum: bool,
}

/// The machines the kernel is built for.
#[derive(Clone, Copy, Debug, PartialEq, Eq, Structural)]
pub enum Arch {
    X86_64,
    AArch64,
}

/// The drivers of a machine, in the order they are started: the common
/// ones (machine, frame buffer, GUI) first.
pub open spec fn builtin_driver_tags(arch: Arch) -> Seq<(usize, bool)> {
    let common = seq![(DRV_MACHINE, true), (DRV_FRAMEBUFFER, true), (DRV_GUI, true)];
    match arch {
        Arch::X86_64 => common + seq![(DRV_PCI, false), (DRV_I8042, false), (DRV_AHCI, true), (DRV_AUDIO, true)],
        Arch::AArch64 => common + seq![(DRV_UART_KEYBOARD, true), (DRV_EMMC, true)],
    }
}

/// The names of the drivers of a machine, in the same order.
pub open spec fn builtin_driver_names(arch: Arch) -> Seq<Seq<char>> {
    let common = seq!["Machine"@, "FrameBuffer"@, "GUI Server"@];
    match arch {
        Arch::X86_64 => common + seq![
            "PCI Bus"@,
            "i8046 PS/2 Controller"@,
            "AHCI/SATA Bus"@,
            "Intel HDA Audio Controller"@,
        ],
        Arch::AArch64 => common + seq!["UART Keyboard"@, "eMMC Controller"@],
    }
}

/// The built-in drivers of a machine.
pub fn get_builtin_drivers(arch: Arch) -> (v: Vec<DriverInfo>)
    ensures
        v@.len() == builtin_driver_tags(arch).len(),
        forall|i: int|
            0 <= i < v@.len() ==> (#[trigger] v@[i].driver, v@[i].has_post_enum) == builtin_driver_tags(arch)[i],
        forall|i: int| 0 <= i < v@.len() ==> (#[trigger] v@[i].name)@ == builtin_driver_names(arch)[i],
{
    let mut v: Vec<DriverInfo> = Vec::new();
    v.push(DriverInfo { name: "Machine", driver: DRV_MACHINE, has_post_enum: true });
    v.push(DriverInfo { name: "FrameBuffer", driver: DRV_FRAMEBUFFER, has_post_enum: true });
    v.push(DriverInfo { name: "GUI Server", driver: DRV_GUI, has_post_enum: true });
    match arch {
        Arch::X86_64 => {
            v.push(DriverInfo { name: "PCI Bus", driver: DRV_PCI, has_post_enum: false });
            v.push(DriverInfo { name: "i8046 PS/2 Controller", driver: DRV_I8042, has_post_enum: false });
            v.push(DriverInfo { name: "AHCI/SATA Bus", driver: DRV_AHCI, has_post_enum: true });
            v.push(DriverInfo { name: "Intel HDA Audio Controller", driver: DRV_AUDIO, has_post_enum: true });
        },
        Arch::AArch64 => {
            v.push(DriverInfo { name: "UART Keyboard", driver: DRV_UART_KEYBOARD, has_post_enum: true });
            v.push(DriverInfo { name: "eMMC Controller", driver: DRV_EMMC, has_post_enum: true });
        },
    }
    assert(v@.len() == builtin_driver_tags(arch).len());
    v
}

/// Types that can be read and written as memory-mapped registers.
pub trait MMIOAccessible {}

impl MMIOAccessible for u8 {}
impl MMIOAccessible for i8 {}
impl MMIOAccessible for u16 {}
impl MMIOAccessible for i16 {}
impl MMIOAccessible for u32 {}
impl MMIOAccessible for i32 {}
impl MMIOAccessible for u64 {}
impl MMIOAccessible for i64 {}

/// Size of a page and of a physical frame.
pub const PAGE_SIZE: usize = 4096;

/// A device's register window: where it is and, for a window this struct
/// mapped itself ("physical"), how many pages it maps.
#[derive(Clone, Copy, Debug)]
pub struct RegisterFile {
    pub base_phys: usize,
    pub base_virt: usize,
    pub length: usize,
    pub frames: usize,
    pub logical: bool,
}

impl RegisterFile {
    pub fn new() -> (r: Self)
        ensures
            r.base_phys == 0 && r.base_virt == 0 && r.length == 0 && r.frames == 0 && !r.logical,
    {
        RegisterFile { base_phys: 0, base_virt: 0, length: 0, frames: 0, logical: false }
    }

    /// A window of `length` bytes at `phys` that the caller maps (as
    /// device memory, `frames` pages) at `virt`.
    pub fn init_physical(&mut self, phys: usize, length: usize, virt: usize)
        requires
            length + PAGE_SIZE - 1 <= usize::MAX,
        ensures
            !final(self).logical,
            final(self).base_phys == phys && final(self).length == length,
            final(self).frames == spec_div_round_up(length as int, PAGE_SIZE as int),
            final(self).base_virt == virt,
    {
        self.logical = false;
        self.base_phys = phys;
        self.length = length;
        self.frames = div_round_up(length, PAGE_SIZE);
        self.base_virt = virt;
    }

    /// A window of `length` bytes inside registers already mapped at `virt`.
    pub fn init_logical(&mut self, virt: usize, length: usize)
        ensures
            final(self).logical,
            final(self).base_virt == virt && final(self).length == length,
            final(self).base_phys == old(self).base_phys && final(self).frames == old(self).frames,
    {
        self.logical = true;
        self.base_virt = virt;
        self.length = length;
    }

    /// Whether an access of `size` bytes at `offset` stays in the window
    /// (an access outside it is a kernel error).
    pub fn in_bounds(&self, offset: usize, size: usize) -> (b: bool)
        ensures
            b == (offset + size <= self.length),
    {
        offset <= self.length && size <= self.length - offset
    }

    /// The pages to unmap when the window goes away: only for a window
    /// this struct mapped.
    pub fn release(&self) -> (r: Option<(usize, usize)>)
        ensures
            r == if !self.logical && self.base_virt != 0 && self.frames > 0 {
                Some((self.base_virt, self.frames))
            } else {
                None::<(usize, usize)>
            },
    {
        if !self.logical && self.base_virt != 0 && self.frames > 0 {
            Some((self.base_virt, self.frames))
        } else {
            None
        }
    }
}

/// How memory is mapped for a device.
#[derive(Clone, Copy, Debug, PartialEq, Eq, Structural)]
pub enum MemoryType {
    /// Write-back cacheable memory
    Normal,
    Device,
    OutputDMA,
}

/// Memory a device reads or writes directly.
#[derive(Clone, Copy, Debug)]
pub struct DMABuffer {
    pub phys_addr: usize,
    pub virt_addr: usize,
    pub length: usize,
    pub frames: usize,
    pub preallocated: bool,
}

impl DMABuffer {
    pub fn new() -> (d: Self)
        ensures
            d.phys_addr == 0 && d.virt_addr == 0 && d.length == 0 && d.frames == 0 && !d.preallocated,
    {
        DMABuffer { phys_addr: 0, virt_addr: 0, length: 0, frames: 0, preallocated: false }
    }

    /// A buffer over memory the caller already owns at `phys`, mapped at
    /// `virt`; returns how it is to be mapped.
    pub fn init_preallocated(&mut self, phys: usize, length: usize, output_dma: bool, virt: usize) -> (t: MemoryType)
        requires
            length + PAGE_SIZE - 1 <= usize::MAX,
        ensures
            t == if output_dma { MemoryType::OutputDMA } else { MemoryType::Device },
            final(self).preallocated,
            final(self).phys_addr == phys && final(self).length == length && final(self).virt_addr == virt,
            final(self).frames == spec_div_round_up(length as int, PAGE_SIZE as int),
    {
        self.preallocated = true;
        self.phys_addr = phys;
        self.length = length;
        self.frames = div_round_up(length, PAGE_SIZE);
        self.virt_addr = virt;
        if output_dma { MemoryType::OutputDMA } else { MemoryType::Device }
    }

    /// A buffer of at least `length` bytes over frames allocated at `phys`
    /// and mapped at `virt`; returns how it is to be mapped.
    pub fn init(&mut self, length: usize, output_dma: bool, phys: usize, virt: usize) -> (t: MemoryType)
        requires
            length + PAGE_SIZE - 1 <= usize::MAX,
        ensures
            t == if output_dma { MemoryType::OutputDMA } else { MemoryType::Device },
            !final(self).preallocated,
            final(self).phys_addr == phys && final(self).length == length && final(self).virt_addr == virt,
            final(self).frames == spec_div_round_up(length as int, PAGE_SIZE as int),
    {
        self.preallocated = false;
        self.length = length;
        self.frames = div_round_up(length, PAGE_SIZE);
        self.phys_addr = phys;
        self.virt_addr = virt;
        if output_dma { MemoryType::OutputDMA } else { MemoryType::Device }
    }

    /// What to undo when the buffer goes away: the pages to unmap and, for
    /// frames it allocated, the frames to free.
    pub fn release(&self) -> (r: Option<(usize, usize, Option<usize>)>)
        ensures
            r == if self.virt_addr != 0 && self.frames > 0 {
                Some((self.virt_addr, self.frames, if self.preallocated { None } else { Some(self.phys_addr) }))
            } else {
                None::<(usize, usize, Option<usize>)>
            },
    {
        if self.virt_addr != 0 && self.frames > 0 {
            Some((self.virt_addr, self.frames, if self.preallocated { None } else { Some(self.phys_addr) }))
        } else {
            None
        }
    }
}

} // verus!
