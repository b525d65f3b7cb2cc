//! The PCI bus: configuration addresses, device headers and BARs.
use vstd::prelude::*;

verus! {

pub const PORT_CFG_ADDR: u16 = 0xCF8;
pub const PORT_CFG_DAT: u16 = 0xCFC;
pub const SLOT_NOT_EXISTS: u16 = 0xFFFF;
pub const REG_VENDOR: u8 = 0;
pub const REG_COMMAND: u8 = 4;
pub const REG_BAR0: u8 = 16;

/// The configuration address of a register: enable bit, bus, slot,
/// function and the dword-aligned register offset.
pub open spec fn spec_config_address(bus: u8, slot: u8, func: u8, reg_off: u8) -> u32 {
    0x80000000u32 | ((bus as u32) << 16u32) | ((slot as u32) << 11u32) | ((func as u32) << 8u32)
        | ((reg_off as u32) & 0xFCu32)
}

/// A function on the PCI bus and its configuration header.
#[derive(Clone, Copy, Debug)]
pub struct PCIDevice {
    pub bus_id: u8,
    pub slot_id: u8,
    pub func_id: u8,
    pub vendor_id: u16,
    pub device_id: u16,
    pub class: u8,
    pub sub_class: u8,
    pub prog_if: u8,
    pub revision_id: u8,
    pub bar: [u32; 6],
    pub irq_line: u8,
    pub irq_pin: u8,
    pub valid: bool,
}

impl PCIDevice {
    pub fn new() -> (d: Self)
        ensures
            !d.valid && d.vendor_id == 0 && d.device_id == 0 && d.bar@ == seq![0u32, 0, 0, 0, 0, 0],
    {
        let d = PCIDevice {
            bus_id: 0,
            slot_id: 0,
            func_id: 0,
            vendor_id: 0,
            device_id: 0,
            class: 0,
            sub_class: 0,
            prog_if: 0,
            revision_id: 0,
            bar: [0; 6],
            irq_line: 0,
            irq_pin: 0,
            valid: false,
        };
        assert(d.bar@ =~= seq![0u32, 0, 0, 0, 0, 0]);
        d
    }

    /// Fills in the device at `bus:slot.func` from its header registers as
    /// read: dword 0 (IDs), dword 2 (class codes), the six BARs and dword 15
    /// (interrupt line and pin).
    pub fn load_from_pci(&mut self, bus: u8, slot: u8, func: u8, reg0: u32, reg2: u32, bars: [u32; 6], regf: u32)
        ensures
            final(self).bus_id == bus && final(self).slot_id == slot && final(self).func_id == func,
            final(self).vendor_id == reg0 & 0xFFFF,
            final(self).device_id == reg0 >> 16u32,
            final(self).class == (reg2 >> 24u32) & 0xFF,
            final(self).sub_class == (reg2 >> 16u32) & 0xFF,
            final(self).prog_if == (reg2 >> 8u32) & 0xFF,
            final(self).revision_id == reg2 & 0xFF,
            final(self).bar == bars,
            final(self).irq_line == regf & 0xFF,
            final(self).irq_pin == (regf >> 8u32) & 0xFF,
            final(self).valid,
    {
        self.bus_id = bus;
        self.slot_id = slot;
        self.func_id = func;
        assert((reg0 & 0xFFFF) as u16 as u32 == reg0 & 0xFFFF && (reg0 >> 16u32) as u16 as u32 == reg0 >> 16u32) by (bit_vector);
        assert(((reg2 >> 24u32) & 0xFF) as u8 as u32 == (reg2 >> 24u32) & 0xFF
            && ((reg2 >> 16u32) & 0xFF) as u8 as u32 == (reg2 >> 16u32) & 0xFF
            && ((reg2 >> 8u32) & 0xFF) as u8 as u32 == (reg2 >> 8u32) & 0xFF
            && (reg2 & 0xFF) as u8 as u32 == reg2 & 0xFF) by (bit_vector);
        assert((regf & 0xFF) as u8 as u32 == regf & 0xFF && ((regf >> 8u32) & 0xFF) as u8 as u32 == (regf >> 8u32) & 0xFF) by (bit_vector);
        self.vendor_id = (reg0 & 0xFFFF) as u16;
        self.device_id = (reg0 >> 16u32) as u16;
        self.class = ((reg2 >> 24u32) & 0xFF) as u8;
        self.sub_class = ((reg2 >> 16u32) & 0xFF) as u8;
        self.prog_if = ((reg2 >> 8u32) & 0xFF) as u8;
        self.revision_id = (reg2 & 0xFF) as u8;
        self.bar = bars;
        self.irq_line = (regf & 0xFF) as u8;
        self.irq_pin = ((regf >> 8u32) & 0xFF) as u8;
        self.valid = true;
    }

    /// The command register with memory space decoding on, given it as
    /// read; `None` for a device not loaded.
    pub fn enable_memspace(&self, cmdsts: u32) -> (r: Option<u32>)
        ensures
            r == if self.valid { Some(cmdsts | 0x2) } else { None::<u32> },
    {
        if !self.valid {
            return None;
        }
        Some(cmdsts | 0x2)
    }

    /// The command register with memory space decoding off.
    pub fn disable_memspace(&self, cmdsts: u32) -> (r: Option<u32>)
        ensures
            r == if self.valid { Some(cmdsts & !0x2u32) } else { None::<u32> },
    {
        if !self.valid {
            return None;
        }
        Some(cmdsts & !0x2u32)
    }

    /// The command register with bus mastering on.
    pub fn enable_bus_master(&self, cmd: u32) -> (r: Option<u32>)
        ensures
            r == if self.valid { Some(cmd | 0x4) } else { None::<u32> },
    {
        if !self.valid {
            return None;
        }
        Some(cmd | 0x4)
    }

    /// The command half of the command/status register.
    pub fn get_command(&self, cmdsts: u32) -> (r: Option<u16>)
        ensures
            r == if self.valid { Some((cmdsts & 0xFFFF) as u16) } else { None::<u16> },
    {
        if !self.valid {
            return None;
        }
        Some((cmdsts & 0xFFFF) as u16)
    }

    /// The status half of the command/status register.
    pub fn get_status(&self, cmdsts: u32) -> (r: Option<u16>)
        ensures
            r == if self.valid { Some((cmdsts >> 16u32) as u16) } else { None::<u16> },
    {
        if !self.valid {
            return None;
        }
        Some((cmdsts >> 16u32) as u16)
    }

    /// The base and size of memory BAR `bar_index`, given what the BAR
    /// reads after all ones were written to it (the caller restores it);
    /// `None` for a missing, unused or I/O BAR.
    pub fn get_bar_address(&self, bar_index: usize, size_probe: u32) -> (r: Option<(usize, usize)>)
        requires
            bar_index < 6 && self.bar@[bar_index as int] != 0 && self.bar@[bar_index as int] & 1 == 0
                ==> size_probe & 0xFFFFFFF0 != 0,
        ensures
            bar_index >= 6 ==> r is None,
            bar_index < 6 ==> {
                let b = self.bar@[bar_index as int];
                r == if b == 0 || b & 1 != 0 {
                    None::<(usize, usize)>
                } else {
                    Some(((b & 0xFFFFFFF0) as usize, (!(size_probe & 0xFFFFFFF0) + 1) as usize))
                }
            },
    {
        if bar_index >= 6 {
            return None;
        }
        let bar_val = self.bar[bar_index];
        if bar_val == 0 {
            return None;
        }
        if bar_val & 0x1 == 0 {
            let base_addr = (bar_val & 0xFFFFFFF0) as usize;
            let size_mask = size_probe & 0xFFFFFFF0;
            assert(!size_mask < 0xFFFF_FFFF) by (bit_vector)
                requires
                    size_probe & 0xFFFFFFF0 != 0,
                    size_mask == size_probe & 0xFFFFFFF0;
            let size = (!size_mask + 1) as usize;
            Some((base_addr, size))
        } else {
            None
        }
    }

    /// The port accesses that size memory BAR `bar_index`: write all ones
    /// to it, read it back (the value to hand to `get_bar_address`), and
    /// write its value back; `None` for a missing, unused or I/O BAR.
    pub fn bar_probe(&self, bar_index: usize) -> (r: Option<BarProbe>)
        ensures
            bar_index >= 6 ==> r is None,
            bar_index < 6 ==> {
                let b = self.bar@[bar_index as int];
                let reg = (REG_BAR0 + bar_index * 4) as u8;
                let addr = spec_config_address(self.bus_id, self.slot_id, self.func_id, reg);
                r == if b == 0 || b & 1 != 0 {
                    None::<BarProbe>
                } else {
                    Some(BarProbe {
                        fill: [(PORT_CFG_ADDR, addr), (PORT_CFG_DAT, 0xFFFF_FFFFu32)],
                        read_back: (PORT_CFG_ADDR, addr),
                        restore: [(PORT_CFG_ADDR, addr), (PORT_CFG_DAT, b)],
                    })
                }
            },
    {
        if bar_index >= 6 {
            return None;
        }
        let bar_val = self.bar[bar_index];
        if bar_val == 0 || bar_val & 1 != 0 {
            return None;
        }
        let reg = Self::bar_register(bar_index as u8);
        let fill = PCIBus::pci_write(self.bus_id, self.slot_id, self.func_id, reg, 0xFFFF_FFFF);
        let read_back = PCIBus::pci_read(self.bus_id, self.slot_id, self.func_id, reg);
        let restore = PCIBus::pci_write(self.bus_id, self.slot_id, self.func_id, reg, bar_val);
        assert(fill@[0] == fill[0] && fill@[1] == fill[1]);
        assert(restore@[0] == restore[0] && restore@[1] == restore[1]);
        let f = [fill[0], fill[1]];
        let rs = [restore[0], restore[1]];
        assert(f == [(PORT_CFG_ADDR, spec_config_address(self.bus_id, self.slot_id, self.func_id, reg)), (PORT_CFG_DAT, 0xFFFF_FFFFu32)]) by {
            assert(f@ =~= fill@);
        }
        Some(BarProbe { fill: f, read_back, restore: rs })
    }

    /// The register offset of BAR `bar_index`.
    pub fn bar_register(bar_index: u8) -> (r: u8)
        requires
            bar_index < 6,
        ensures
            r == REG_BAR0 + bar_index * 4,
    {
        REG_BAR0 + bar_index * 4
    }
}

/// How a memory BAR is sized: the port writes that fill it with ones, the
/// configuration address to read it back from, and the port writes that
/// restore it.
pub struct BarProbe {
    pub fill: [(u16, u32); 2],
    pub read_back: (u16, u32),
    pub restore: [(u16, u32); 2],
}

/// The functions found on the bus.
pub struct PCIBus {
    pub dev_lst: Vec<PCIDevice>,
}

impl PCIBus {
    pub fn new() -> (b: Self)
        ensures
            b.dev_lst@.len() == 0,
    {
        PCIBus { dev_lst: Vec::new() }
    }

    /// Releasing a PCI device needs no work.
    pub fn release(&mut self, _device: usize)
        ensures
            final(self).dev_lst@ == old(self).dev_lst@,
    {
    }

    /// Whether a slot or function answers, from the vendor register.
    pub fn slot_exists(vendor_reg: u32) -> (b: bool)
        ensures
            b == (vendor_reg as u16 != SLOT_NOT_EXISTS),
    {
        vendor_reg as u16 != SLOT_NOT_EXISTS
    }

    /// Records a function found while enumerating.
    pub fn add_device(&mut self, dev: PCIDevice)
        ensures
            final(self).dev_lst@ == old(self).dev_lst@.push(dev),
    {
        self.dev_lst.push(dev);
    }

    /// A configuration read: the address to write to the address port
    /// before reading the data port.
    pub fn pci_read(bus: u8, slot: u8, func: u8, reg_off: u8) -> (w: (u16, u32))
        ensures
            w == (PORT_CFG_ADDR, spec_config_address(bus, slot, func, reg_off)),
    {
        let addr: u32 = 0x80000000u32 | ((bus as u32) << 16u32) | ((slot as u32) << 11u32)
            | ((func as u32) << 8u32) | ((reg_off as u32) & 0xFCu32);
        (PORT_CFG_ADDR, addr)
    }

    /// A configuration write: the address, then the value.
    pub fn pci_write(bus: u8, slot: u8, func: u8, reg_off: u8, val: u32) -> (w: [(u16, u32); 2])
        ensures
            w@ == seq![(PORT_CFG_ADDR, spec_config_address(bus, slot, func, reg_off)), (PORT_CFG_DAT, val)],
    {
        let (p, addr) = Self::pci_read(bus, slot, func, reg_off);
        let w = [(p, addr), (PORT_CFG_DAT, val)];
        assert(w@ =~= seq![(PORT_CFG_ADDR, spec_config_address(bus, slot, func, reg_off)), (PORT_CFG_DAT, val)]);
        w
    }
}

pub const MAX_BUS_COUNT: u16 = 256;
pub const MAX_SLOT_COUNT: u8 = 32;
pub const MAX_FUNC_COUNT: u8 = 8;

/// Where the walk of the bus stands: the function whose vendor register is
/// read next. A slot is first probed through its function 0; when it
/// answers, each of its functions is read in turn.
pub struct PciScan {
    pub bus: u16,
    pub slot: u8,
    pub func: u8,
    /// The slot answered and its functions are being read
    pub in_slot: bool,
}

/// The walk after the slot at `bus`, `slot` is done: at the next slot,
/// or the next bus's first.
pub open spec fn spec_next_slot(bus: u16, slot: u8) -> PciScan {
    if slot + 1 < MAX_SLOT_COUNT {
        PciScan { bus, slot: (slot + 1) as u8, func: 0, in_slot: false }
    } else {
        PciScan { bus: (bus + 1) as u16, slot: 0, func: 0, in_slot: false }
    }
}

/// The walk after the vendor register read answered `vendor_reg`, and the
/// function found there, if any.
pub open spec fn spec_pci_scan_step(s: PciScan, vendor_reg: u32) -> (PciScan, Option<(u8, u8, u8)>) {
    let answers = vendor_reg as u16 != SLOT_NOT_EXISTS;
    if !s.in_slot {
        if answers {
            (PciScan { func: 0, in_slot: true, ..s }, None)
        } else {
            (spec_next_slot(s.bus, s.slot), None)
        }
    } else {
        let found = if answers { Some((s.bus as u8, s.slot, s.func)) } else { None };
        if s.func + 1 < MAX_FUNC_COUNT {
            (PciScan { func: (s.func + 1) as u8, ..s }, found)
        } else {
            (spec_next_slot(s.bus, s.slot), found)
        }
    }
}

impl PciScan {
    /// The walk from bus 0, slot 0.
    pub fn start() -> (s: Self)
        ensures
            s == (PciScan { bus: 0, slot: 0, func: 0, in_slot: false }),
    {
        PciScan { bus: 0, slot: 0, func: 0, in_slot: false }
    }

    pub open spec fn wf(&self) -> bool {
        self.bus <= MAX_BUS_COUNT && self.slot < MAX_SLOT_COUNT && self.func < MAX_FUNC_COUNT
    }

    /// How many vendor reads the walk has at most left: decreases with
    /// every step.
    pub open spec fn remaining(&self) -> int {
        (MAX_BUS_COUNT - self.bus) * (MAX_SLOT_COUNT as int) * 9 - self.slot * 9 - if self.in_slot {
            1 + self.func
        } else {
            0
        }
    }

    /// The function whose vendor register is read next; none once every
    /// bus was walked.
    pub fn next_read(&self) -> (r: Option<(u8, u8, u8)>)
        requires
            self.wf(),
        ensures
            self.bus >= MAX_BUS_COUNT ==> r is None,
            self.bus < MAX_BUS_COUNT ==> r == Some((self.bus as u8, self.slot, self.func)),
    {
        if self.bus >= MAX_BUS_COUNT {
            None
        } else {
            Some((self.bus as u8, self.slot, self.func))
        }
    }

    /// Takes the vendor register read from `next_read`'s function; returns
    /// the function to record, when one answered while its slot's
    /// functions are being read.
    pub fn step(&mut self, vendor_reg: u32) -> (found: Option<(u8, u8, u8)>)
        requires
            old(self).wf(),
            old(self).bus < MAX_BUS_COUNT,
        ensures
            (*final(self), found) == spec_pci_scan_step(*old(self), vendor_reg),
            final(self).wf(),
            final(self).remaining() < old(self).remaining(),
            final(self).remaining() >= 0,
    {
        let answers = PCIBus::slot_exists(vendor_reg);
        if !self.in_slot {
            if answers {
                self.func = 0;
                self.in_slot = true;
                None
            } else {
                self.next_slot();
                None
            }
        } else {
            let found = if answers { Some((self.bus as u8, self.slot, self.func)) } else { None };
            if self.func + 1 < MAX_FUNC_COUNT {
                self.func = self.func + 1;
            } else {
                self.next_slot();
            }
            found
        }
    }

    fn next_slot(&mut self)
        requires
            old(self).wf(),
            old(self).bus < MAX_BUS_COUNT,
        ensures
            *final(self) == spec_next_slot(old(self).bus, old(self).slot),
            final(self).wf(),
            final(self).remaining() + 9 == old(self).remaining() + if old(self).in_slot {
                1 + old(self).func as int
            } else {
                0
            },
    {
        if self.slot + 1 < MAX_SLOT_COUNT {
            self.slot = self.slot + 1;
        } else {
            self.slot = 0;
            self.bus = self.bus + 1;
        }
        self.func = 0;
        self.in_slot = false;
    }
}

/// The configuration address names the register it was built from: bus,
/// slot (5 bits), function (3 bits) and dword offset can be read back.
pub proof fn lemma_config_address_fields(bus: u8, slot: u8, func: u8, reg_off: u8)
    requires
        slot < 32,
        func < 8,
    ensures
        (spec_config_address(bus, slot, func, reg_off) >> 16u32) & 0xFF == bus,
        (spec_config_address(bus, slot, func, reg_off) >> 11u32) & 0x1F == slot,
        (spec_config_address(bus, slot, func, reg_off) >> 8u32) & 0x7 == func,
        spec_config_address(bus, slot, func, reg_off) & 0xFC == reg_off & 0xFC,
        spec_config_address(bus, slot, func, reg_off) & 0x80000000 != 0,
{
    let a = spec_config_address(bus, slot, func, reg_off);
    assert(a == 0x80000000u32 | ((bus as u32) << 16u32) | ((slot as u32) << 11u32) | ((func as u32) << 8u32)
        | ((reg_off as u32) & 0xFCu32));
    assert((a >> 16u32) & 0xFF == bus && (a >> 11u32) & 0x1F == slot && (a >> 8u32) & 0x7 == func
        && a & 0xFC == reg_off & 0xFC && a & 0x80000000 != 0) by (bit_vector)
        requires
            a == 0x80000000u32 | ((bus as u32) << 16u32) | ((slot as u32) << 11u32) | ((func as u32) << 8u32)
                | ((reg_off as u32) & 0xFCu32),
            slot < 32,
            func < 8;
}

} // verus!
