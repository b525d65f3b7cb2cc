//! The flattened device tree: finding nodes and properties in the blob the
//! firmware hands over, and collecting the machine's CPUs, memory and
//! peripherals from it. Values in the blob are big-endian.
use vstd::prelude::*;
use crate::mem::PMMapElement;
use crate::util::{bytes_at, spec_bytes_at};

verus! {

/// The big-endian 32-bit value at `off`.
pub open spec fn spec_be32(s: Seq<u8>, off: int) -> int {
    s[off] * 0x100_0000 + s[off + 1] * 0x1_0000 + s[off + 2] * 0x100 + s[off + 3]
}

/// The big-endian 64-bit value at `off`.
pub open spec fn spec_be64(s: Seq<u8>, off: int) -> int {
    spec_be32(s, off) * 0x1_0000_0000 + spec_be32(s, off + 4)
}

/// The 32-bit word at `off`, 0 past the end of the blob.
pub open spec fn u32_at(s: Seq<u8>, off: int) -> u32 {
    if 0 <= off && off + 4 <= s.len() {
        spec_be32(s, off) as u32
    } else {
        0
    }
}

/// The 64-bit word at `off`, 0 past the end of the blob.
pub open spec fn u64_at(s: Seq<u8>, off: int) -> u64 {
    if 0 <= off && off + 8 <= s.len() {
        spec_be64(s, off) as u64
    } else {
        0
    }
}

/// The token at `off`, if the blob holds it.
pub open spec fn token_at(s: Seq<u8>, off: int) -> Option<u32> {
    if 0 <= off && off + 4 <= s.len() {
        Some(spec_be32(s, off) as u32)
    } else {
        None
    }
}

fn be32_at(s: &[u8], off: u64) -> (r: Option<u32>)
    ensures
        r == token_at(s@, off as int),
{
    let n = s.len() as u64;
    if off > n || n - off < 4 {
        return None;
    }
    let o = off as usize;
    Some((s[o] as u32) * 0x100_0000 + (s[o + 1] as u32) * 0x1_0000 + (s[o + 2] as u32) * 0x100
        + s[o + 3] as u32)
}

fn word32(s: &[u8], off: u64) -> (r: u32)
    ensures
        r == u32_at(s@, off as int),
{
    match be32_at(s, off) {
        Some(v) => v,
        None => 0,
    }
}

fn word64(s: &[u8], off: u64) -> (r: u64)
    ensures
        r == u64_at(s@, off as int),
{
    let n = s.len() as u64;
    if off > n || n - off < 8 {
        return 0;
    }
    let hi = word32(s, off) as u64;
    let lo = word32(s, off + 4) as u64;
    hi * 0x1_0000_0000 + lo
}

pub const TOKEN_NODE_BEGIN: u32 = 1;
pub const TOKEN_NODE_END: u32 = 2;
pub const TOKEN_PROPERTY: u32 = 3;
pub const TOKEN_TREE_END: u32 = 9;
pub const FDT_MAGIC: u32 = 0xD00DFEED;

/// A string inside the blob: `len` bytes at `off`.
#[derive(Clone, Copy, Debug, PartialEq, Eq, Structural)]
pub struct StrRef {
    pub off: usize,
    pub len: usize,
}

/// The empty string.
pub open spec fn empty_str() -> StrRef {
    StrRef { off: 0, len: 0 }
}

/// Bus-address to physical-address translation of a bus.
#[derive(Clone, Copy, Debug)]
pub struct BusToPhysMemMapping {
    pub bus_addr: usize,
    pub mem_addr: usize,
    pub length: usize,
}

impl BusToPhysMemMapping {
    pub fn new() -> (m: Self)
        ensures
            m.bus_addr == 0 && m.mem_addr == 0 && m.length == 0,
    {
        BusToPhysMemMapping { bus_addr: 0, mem_addr: 0, length: 0 }
    }
}

/// A CPU: its spin-table release address and compatible string.
#[derive(Clone, Copy, Debug)]
pub struct FdtCpuInfo {
    pub release_addr: u64,
    pub compatible: StrRef,
}

impl FdtCpuInfo {
    pub fn new() -> (c: Self)
        ensures
            c.release_addr == 0 && c.compatible == empty_str(),
    {
        FdtCpuInfo { release_addr: 0, compatible: StrRef { off: 0, len: 0 } }
    }
}

/// Kinds of peripherals the tree lists.
#[derive(Clone, Copy, Debug, PartialEq, Eq, Structural)]
pub enum FdtDeviceType {
    Serial,
    I2C,
    SPI,
    GPIO,
    Audio,
    Sound,
    DMA,
    IntCtrl,
    WatchDog,
    MailBox,
    SdHost,
    MMC,
    VideoCore,
    /// Messaging interface to the VideoCore firmware
    VCHIQ,
    FrameBuffer,
    Ethernet,
    Unknown,
}

/// A peripheral: its kind, compatible string and register window.
#[derive(Clone, Copy, Debug)]
pub struct FdtPeripheral {
    pub dev_type: FdtDeviceType,
    pub compat: StrRef,
    pub mmio_base: usize,
    pub mmio_len: usize,
}

impl FdtPeripheral {
    pub fn new() -> (p: Self)
        ensures
            p.dev_type == FdtDeviceType::Unknown && p.compat == empty_str() && p.mmio_base == 0
                && p.mmio_len == 0,
    {
        FdtPeripheral {
            dev_type: FdtDeviceType::Unknown,
            compat: StrRef { off: 0, len: 0 },
            mmio_base: 0,
            mmio_len: 0,
        }
    }
}

pub const MAX_CPU_COUNT: usize = 8;
pub const MAX_DEVICE_COUNT: usize = 32;
pub const MAX_RSVD_COUNT: usize = 32;

/// What the tree tells about the machine.
pub struct FdtMachineResources {
    pub machine_name: StrRef,
    pub machine_model: StrRef,
    pub machine_compat: StrRef,
    pub root_addr_cells: u32,
    pub root_size_cells: u32,
    pub cpus: Vec<FdtCpuInfo>,
    pub mmap: Vec<PMMapElement>,
    pub bus_to_pmem_map: Vec<BusToPhysMemMapping>,
    pub devices: Vec<FdtPeripheral>,
}

/// The machine resources as values.
pub struct FdtResView {
    pub machine_name: StrRef,
    pub machine_model: StrRef,
    pub machine_compat: StrRef,
    pub root_addr_cells: u32,
    pub root_size_cells: u32,
    pub cpus: Seq<FdtCpuInfo>,
    pub mmap: Seq<PMMapElement>,
    pub bus_to_pmem_map: Seq<BusToPhysMemMapping>,
    pub devices: Seq<FdtPeripheral>,
}

impl View for FdtMachineResources {
    type V = FdtResView;

    open spec fn view(&self) -> FdtResView {
        FdtResView {
            machine_name: self.machine_name,
            machine_model: self.machine_model,
            machine_compat: self.machine_compat,
            root_addr_cells: self.root_addr_cells,
            root_size_cells: self.root_size_cells,
            cpus: self.cpus@,
            mmap: self.mmap@,
            bus_to_pmem_map: self.bus_to_pmem_map@,
            devices: self.devices@,
        }
    }
}

impl FdtMachineResources {
    /// Nothing found yet.
    pub fn new() -> (r: Self)
        ensures
            r.machine_name == empty_str() && r.machine_model == empty_str() && r.machine_compat
                == empty_str(),
            r.root_addr_cells == 0 && r.root_size_cells == 0,
            r.cpus@.len() == 0 && r.mmap@.len() == 0 && r.bus_to_pmem_map@.len() == 0
                && r.devices@.len() == 0,
    {
        FdtMachineResources {
            machine_name: StrRef { off: 0, len: 0 },
            machine_model: StrRef { off: 0, len: 0 },
            machine_compat: StrRef { off: 0, len: 0 },
            root_addr_cells: 0,
            root_size_cells: 0,
            cpus: Vec::new(),
            mmap: Vec::new(),
            bus_to_pmem_map: Vec::new(),
            devices: Vec::new(),
        }
    }
}

/// The header fields of a tree and the offsets of the property names the
/// parser looks for (`u32::MAX` for a name the tree lacks).
#[derive(Clone, Copy, Debug)]
pub struct Fdt {
    pub total_size: u32,
    pub struct_off: u32,
    pub strings_off: u32,
    pub mem_rsvmap_off: u32,
    pub version: u32,
    pub so_name: u32,
    pub so_compatible: u32,
    pub so_model: u32,
    pub so_addr_cells: u32,
    pub so_size_cells: u32,
    pub so_dev_type: u32,
    pub so_clock_freq: u32,
    pub so_timer_freq: u32,
    pub so_status: u32,
    pub so_spin_tbl_off: u32,
    pub so_reg: u32,
    pub so_ranges: u32,
}

// ---------------------------------------------------------------------------
// Strings block
// ---------------------------------------------------------------------------

/// The first position at or after `p` and before `limit` where `find` is
/// spelled, as an offset from `base`; `u32::MAX` when there is none.
pub open spec fn str_scan(s: Seq<u8>, base: int, limit: int, find: Seq<u8>, p: int) -> u32
    decreases limit - p,
{
    if p >= limit {
        u32::MAX
    } else if find.len() > 0 && spec_bytes_at(s, p, find) {
        (p - base) as u32
    } else {
        str_scan(s, base, limit, find, p + 1)
    }
}

/// Finds the offset of a property name in the strings block.
pub fn find_str_off(s: &[u8], strings_off: u32, total_size: u32, find: &[u8]) -> (r: u32)
    ensures
        r == str_scan(s@, strings_off as int, total_size as int, find@, strings_off as int),
{
    let mut p: u32 = strings_off;
    while p < total_size
        invariant
            strings_off <= p,
            str_scan(s@, strings_off as int, total_size as int, find@, strings_off as int)
                == str_scan(s@, strings_off as int, total_size as int, find@, p as int),
        decreases total_size - p,
    {
        if find.len() > 0 && bytes_at(s, p as usize, find) {
            return p - strings_off;
        }
        p = p + 1;
    }
    u32::MAX
}

// ---------------------------------------------------------------------------
// Walking the structure block
// ---------------------------------------------------------------------------

/// Bytes from a property token to what follows the property: the token,
/// the length, the name offset and the value words.
pub open spec fn prop_skip(plen: u32) -> int {
    4 * (3 + plen / 4)
}

/// The offset of the first node-begin token at or after `pos`, skipping
/// over properties (whose values may look like tokens).
pub open spec fn next_node_from(s: Seq<u8>, pos: int) -> Option<int>
    decreases s.len() - pos,
{
    if pos < 0 || pos + 4 > s.len() {
        None
    } else {
        let t = u32_at(s, pos);
        if t == TOKEN_NODE_BEGIN {
            Some(pos)
        } else if t == TOKEN_TREE_END {
            None
        } else if t == TOKEN_PROPERTY {
            if pos + 8 > s.len() {
                None
            } else {
                let np = pos + prop_skip(u32_at(s, pos + 4));
                if np + 4 > s.len() {
                    None
                } else {
                    next_node_from(s, np)
                }
            }
        } else if pos + 8 > s.len() {
            None
        } else {
            next_node_from(s, pos + 4)
        }
    }
}

/// The node after the one at `node_off` (0: the first node).
pub open spec fn spec_find_next_node(fdt: Fdt, s: Seq<u8>, node_off: u32) -> Option<u32> {
    if node_off != 0 && (node_off < fdt.struct_off || node_off >= fdt.total_size) {
        None
    } else {
        let start = if node_off == 0 {
            fdt.struct_off as int
        } else {
            node_off + 4
        };
        match next_node_from(s, start) {
            Some(p) => Some(p as u32),
            None => None,
        }
    }
}

/// Finds the node after the one at `node_off` (0 for the first node).
pub fn find_next_node(fdt: &Fdt, s: &[u8], node_off: u32) -> (r: Option<u32>)
    requires
        s@.len() <= u32::MAX,
    ensures
        r == spec_find_next_node(*fdt, s@, node_off),
        r matches Some(n) ==> n + 4 <= s@.len(),
{
    if node_off != 0 && (node_off < fdt.struct_off || node_off >= fdt.total_size) {
        return None;
    }
    let start: u64 = if node_off == 0 { fdt.struct_off as u64 } else { node_off as u64 + 4 };
    let n = s.len() as u64;
    let mut pos = start;
    while pos + 4 <= n
        invariant
            n == s@.len(),
            n <= u32::MAX,
            pos <= 0x1_0000_0004,
            !(node_off != 0 && (node_off < fdt.struct_off || node_off >= fdt.total_size)),
            start == if node_off == 0 { fdt.struct_off as int } else { node_off + 4 },
            next_node_from(s@, start as int) == next_node_from(s@, pos as int),
        decreases n - pos,
    {
        let t = word32(s, pos);
        if t == TOKEN_NODE_BEGIN {
            return Some(pos as u32);
        } else if t == TOKEN_TREE_END {
            return None;
        } else if t == TOKEN_PROPERTY {
            if pos + 8 > n {
                return None;
            }
            let plen = word32(s, pos + 4);
            let np = pos + 4 * (3 + plen as u64 / 4);
            if np + 4 > n {
                return None;
            }
            pos = np;
        } else {
            if pos + 8 > n {
                return None;
            }
            pos = pos + 4;
        }
    }
    None
}

/// A property of a node: its name offset, value length and where the
/// value starts in the blob.
#[derive(Clone, Copy, Debug, PartialEq, Eq, Structural)]
pub struct FdtProperty {
    pub name_so: u32,
    pub value_len: u32,
    pub value_off: usize,
}

/// The property named `pname` among the properties from `pos` on, before
/// `limit` and before the next node or the end of the node.
pub open spec fn prop_scan(s: Seq<u8>, limit: int, pos: int, pname: u32) -> Option<FdtProperty>
    decreases limit - pos,
{
    if pos < 0 || pos >= limit || pos + 4 > s.len() {
        None
    } else {
        let t = u32_at(s, pos);
        if t == TOKEN_PROPERTY {
            if pos + 12 > s.len() {
                None
            } else {
                let plen = u32_at(s, pos + 4);
                if u32_at(s, pos + 8) == pname {
                    Some(FdtProperty { name_so: pname, value_len: plen, value_off: (pos + 12) as usize })
                } else {
                    let np = pos + prop_skip(plen);
                    if np >= limit {
                        None
                    } else {
                        prop_scan(s, limit, np, pname)
                    }
                }
            }
        } else if t == TOKEN_NODE_BEGIN || t == TOKEN_NODE_END || t == TOKEN_TREE_END {
            None
        } else if pos + 4 >= limit {
            None
        } else {
            prop_scan(s, limit, pos + 4, pname)
        }
    }
}

/// The property `pname` of the node at `node_off`.
pub open spec fn spec_find_property(fdt: Fdt, s: Seq<u8>, node_off: u32, pname: u32) -> Option<FdtProperty> {
    if node_off < fdt.struct_off || node_off >= fdt.total_size {
        None
    } else if token_at(s, node_off as int) != Some(TOKEN_NODE_BEGIN) {
        None
    } else {
        prop_scan(s, fdt.total_size as int, node_off + 4, pname)
    }
}

/// Finds the property `pname` of the node at `node_off`.
pub fn find_property(fdt: &Fdt, s: &[u8], node_off: u32, pname: u32) -> (r: Option<FdtProperty>)
    requires
        s@.len() <= u32::MAX,
    ensures
        r == spec_find_property(*fdt, s@, node_off, pname),
        r matches Some(p) ==> p.value_off <= s@.len(),
{
    proof {
        lemma_prop_scan_off(s@, fdt.total_size as int, node_off + 4, pname);
    }
    if node_off < fdt.struct_off || node_off >= fdt.total_size {
        return None;
    }
    match be32_at(s, node_off as u64) {
        Some(t) => {
            if t != TOKEN_NODE_BEGIN {
                return None;
            }
        },
        None => {
            return None;
        },
    }
    let n = s.len() as u64;
    let limit = fdt.total_size as u64;
    let start = node_off as u64 + 4;
    let mut pos = start;
    while pos < limit && pos + 4 <= n
        invariant
            n == s@.len(),
            n <= u32::MAX,
            pos <= 0x1_0000_0004,
            limit == fdt.total_size,
            !(node_off < fdt.struct_off || node_off >= fdt.total_size),
            token_at(s@, node_off as int) == Some(TOKEN_NODE_BEGIN),
            start == node_off + 4,
            prop_scan(s@, limit as int, start as int, pname) == prop_scan(s@, limit as int, pos as int, pname),
        decreases limit - pos,
    {
        let t = word32(s, pos);
        if t == TOKEN_PROPERTY {
            if pos + 12 > n {
                return None;
            }
            let plen = word32(s, pos + 4);
            if word32(s, pos + 8) == pname {
                return Some(FdtProperty { name_so: pname, value_len: plen, value_off: (pos + 12) as usize });
            }
            let np = pos + 4 * (3 + plen as u64 / 4);
            if np >= limit {
                return None;
            }
            pos = np;
        } else if t == TOKEN_NODE_BEGIN || t == TOKEN_NODE_END || t == TOKEN_TREE_END {
            return None;
        } else {
            if pos + 4 >= limit {
                return None;
            }
            pos = pos + 4;
        }
    }
    None
}

/// The length of the NUL-terminated name at `start`, looked for within 256
/// bytes (0 when there is no terminator).
pub open spec fn name_len_from(s: Seq<u8>, start: int, i: int) -> int
    decreases 256 - i,
{
    if i < 0 || i >= 256 || start + i >= s.len() || start + i < 0 {
        0
    } else if s[start + i] == 0 {
        i
    } else {
        name_len_from(s, start, i + 1)
    }
}

proof fn lemma_name_len_bound(s: Seq<u8>, start: int, i: int)
    ensures
        0 <= name_len_from(s, start, i) < 256,
    decreases 256 - i,
{
    if !(i < 0 || i >= 256 || start + i >= s.len() || start + i < 0) && s[start + i] != 0 {
        lemma_name_len_bound(s, start, i + 1);
    }
}

fn name_len(s: &[u8], start: usize) -> (l: usize)
    ensures
        l == name_len_from(s@, start as int, 0),
        l < 256,
{
    let n = s.len();
    let mut i: usize = 0;
    proof { lemma_name_len_bound(s@, start as int, 0); }
    while i < 256
        invariant
            n == s@.len(),
            i <= 256,
            name_len_from(s@, start as int, 0) == name_len_from(s@, start as int, i as int),
            name_len_from(s@, start as int, i as int) < 256,
        decreases 256 - i,
    {
        if start >= n || n - start <= i {
            return 0;
        }
        if s[start + i] == 0 {
            return i;
        }
        i = i + 1;
    }
    0
}

/// A node: where its begin token is and its unit name.
#[derive(Clone, Copy, Debug)]
pub struct FdtNode {
    pub offset: u32,
    pub path: StrRef,
}

/// The unit name of the node at `off`.
pub open spec fn node_path(s: Seq<u8>, off: u32) -> StrRef {
    StrRef { off: (off + 4) as usize, len: name_len_from(s, off + 4, 0) as usize }
}

impl FdtNode {
    /// The node whose begin token is at `off`.
    pub fn from_offset(s: &[u8], off: u32) -> (n: FdtNode)
        requires
            off + 4 <= s@.len(),
        ensures
            n.offset == off,
            n.path == node_path(s@, off),
    {
        let _n = s.len();
        let start = off as usize + 4;
        FdtNode { offset: off, path: StrRef { off: start, len: name_len(s, start) } }
    }
}

/// A property's value as a string (its length without the terminator).
pub open spec fn str_of(p: FdtProperty) -> StrRef {
    StrRef {
        off: p.value_off,
        len: if p.value_len > 0 {
            (p.value_len - 1) as usize
        } else {
            0
        },
    }
}

fn value_as_str(p: &FdtProperty) -> (r: StrRef)
    ensures
        r == str_of(*p),
{
    StrRef { off: p.value_off, len: if p.value_len > 0 { (p.value_len - 1) as usize } else { 0 } }
}

/// An address or size of `cells` 32-bit cells (1 or 2) at `off`.
pub open spec fn cell_at(s: Seq<u8>, off: int, cells: u32) -> usize {
    if cells == 1 {
        u32_at(s, off) as usize
    } else {
        u64_at(s, off) as usize
    }
}

fn cell_value(s: &[u8], off: u64, cells: u32) -> (v: usize)
    ensures
        v == cell_at(s@, off as int, cells),
{
    if cells == 1 {
        word32(s, off) as usize
    } else {
        word64(s, off) as usize
    }
}

/// Cell counts the parser decodes.
pub open spec fn cells_ok(c: u32) -> bool {
    c == 1 || c == 2
}

// ---------------------------------------------------------------------------
// What the nodes tell
// ---------------------------------------------------------------------------

proof fn lemma_prop_scan_off(s: Seq<u8>, limit: int, pos: int, pname: u32)
    requires
        s.len() <= u32::MAX,
    ensures
        prop_scan(s, limit, pos, pname) matches Some(p) ==> p.value_off + 0 <= s.len(),
    decreases limit - pos,
{
    if !(pos < 0 || pos >= limit || pos + 4 > s.len()) {
        let t = u32_at(s, pos);
        if t == TOKEN_PROPERTY {
            if pos + 12 <= s.len() {
                let plen = u32_at(s, pos + 4);
                if u32_at(s, pos + 8) != pname {
                    let np = pos + prop_skip(plen);
                    if np < limit {
                        lemma_prop_scan_off(s, limit, np, pname);
                    }
                }
            }
        } else if !(t == TOKEN_NODE_BEGIN || t == TOKEN_NODE_END || t == TOKEN_TREE_END) && pos + 4 < limit {
            lemma_prop_scan_off(s, limit, pos + 4, pname);
        }
    }
}

/// The property `name` of the node at `off`.
pub open spec fn prop(fdt: Fdt, s: Seq<u8>, off: u32, name: u32) -> Option<FdtProperty> {
    spec_find_property(fdt, s, off, name)
}

/// The root node gives the machine's name, model, compatible string and
/// the cell counts of addresses and sizes.
pub open spec fn spec_enum_root(fdt: Fdt, s: Seq<u8>, off: u32, r: FdtResView) -> FdtResView {
    FdtResView {
        machine_name: match prop(fdt, s, off, fdt.so_name) {
            Some(p) => str_of(p),
            None => r.machine_name,
        },
        machine_model: match prop(fdt, s, off, fdt.so_model) {
            Some(p) => str_of(p),
            None => r.machine_model,
        },
        machine_compat: match prop(fdt, s, off, fdt.so_compatible) {
            Some(p) => str_of(p),
            None => r.machine_compat,
        },
        root_addr_cells: match prop(fdt, s, off, fdt.so_addr_cells) {
            Some(p) => u32_at(s, p.value_off as int),
            None => r.root_addr_cells,
        },
        root_size_cells: match prop(fdt, s, off, fdt.so_size_cells) {
            Some(p) => if p.value_len > 0 {
                u32_at(s, p.value_off as int)
            } else {
                r.root_size_cells
            },
            None => r.root_size_cells,
        },
        ..r
    }
}

fn enum_root_node(fdt: &Fdt, s: &[u8], off: u32, res: &mut FdtMachineResources)
    requires
        s@.len() <= u32::MAX,
    ensures
        final(res)@ == spec_enum_root(*fdt, s@, off, old(res)@),
{
    if let Some(p) = find_property(fdt, s, off, fdt.so_name) {
        res.machine_name = value_as_str(&p);
    }
    if let Some(p) = find_property(fdt, s, off, fdt.so_model) {
        res.machine_model = value_as_str(&p);
    }
    if let Some(p) = find_property(fdt, s, off, fdt.so_compatible) {
        res.machine_compat = value_as_str(&p);
    }
    if let Some(p) = find_property(fdt, s, off, fdt.so_addr_cells) {
        res.root_addr_cells = word32(s, p.value_off as u64);
    }
    if let Some(p) = find_property(fdt, s, off, fdt.so_size_cells) {
        if p.value_len > 0 {
            res.root_size_cells = word32(s, p.value_off as u64);
        }
    }
}

/// One `ranges` entry of a bus at `off`: bus address, parent address, size.
pub open spec fn range_entry(s: Seq<u8>, off: int, ac: u32, sc: u32) -> BusToPhysMemMapping {
    BusToPhysMemMapping {
        bus_addr: cell_at(s, off, ac),
        mem_addr: cell_at(s, off + 4 * ac, ac),
        length: cell_at(s, off + 8 * ac, sc),
    }
}

/// The entries of a `ranges` value of `len` bytes at `off`.
pub open spec fn range_entries(s: Seq<u8>, off: int, len: u32, ac: u32, sc: u32) -> Seq<BusToPhysMemMapping> {
    let w = 8 * ac + 4 * sc;
    Seq::new((len as int / w) as nat, |i: int| range_entry(s, off + i * w, ac, sc))
}

/// The SoC node gives the translation of bus addresses to physical ones
/// (decoded for 1- or 2-cell addresses and sizes).
pub open spec fn spec_enum_soc(fdt: Fdt, s: Seq<u8>, off: u32, r: FdtResView) -> FdtResView {
    let ac = match prop(fdt, s, off, fdt.so_addr_cells) {
        Some(p) => u32_at(s, p.value_off as int),
        None => r.root_addr_cells,
    };
    let sc = match prop(fdt, s, off, fdt.so_size_cells) {
        Some(p) => u32_at(s, p.value_off as int),
        None => r.root_size_cells,
    };
    match prop(fdt, s, off, fdt.so_ranges) {
        Some(p) => if cells_ok(ac) && cells_ok(sc) {
            FdtResView {
                bus_to_pmem_map: r.bus_to_pmem_map + range_entries(
                    s,
                    p.value_off as int,
                    p.value_len,
                    ac,
                    sc,
                ),
                ..r
            }
        } else {
            r
        },
        None => r,
    }
}

fn enum_soc_node(fdt: &Fdt, s: &[u8], off: u32, res: &mut FdtMachineResources)
    requires
        s@.len() <= u32::MAX,
    ensures
        final(res)@ == spec_enum_soc(*fdt, s@, off, old(res)@),
{
    let ac: u32 = match find_property(fdt, s, off, fdt.so_addr_cells) {
        Some(p) => word32(s, p.value_off as u64),
        None => res.root_addr_cells,
    };
    let sc: u32 = match find_property(fdt, s, off, fdt.so_size_cells) {
        Some(p) => word32(s, p.value_off as u64),
        None => res.root_size_cells,
    };
    if let Some(ranges) = find_property(fdt, s, off, fdt.so_ranges) {
        if (ac == 1 || ac == 2) && (sc == 1 || sc == 2) {
            let w: u32 = 8 * ac + 4 * sc;
            let cnt: u32 = ranges.value_len / w;
            let ghost old_map = res.bus_to_pmem_map@;
            let ghost want = range_entries(s@, ranges.value_off as int, ranges.value_len, ac, sc);
            let mut i: u32 = 0;
            while i < cnt
                invariant
                    cnt == want.len(),
                    w == 8 * ac + 4 * sc,
                    cells_ok(ac) && cells_ok(sc),
                    want == range_entries(s@, ranges.value_off as int, ranges.value_len, ac, sc),
                    ranges.value_off <= u32::MAX,
                    i <= cnt,
                    res.bus_to_pmem_map@ == old_map + want.subrange(0, i as int),
                    res.root_addr_cells == old(res).root_addr_cells,
                    res.root_size_cells == old(res).root_size_cells,
                    res.machine_name == old(res).machine_name,
                    res.machine_model == old(res).machine_model,
                    res.machine_compat == old(res).machine_compat,
                    res.cpus@ == old(res).cpus@,
                    res.mmap@ == old(res).mmap@,
                    res.devices@ == old(res).devices@,
                    old_map == old(res).bus_to_pmem_map@,
                decreases cnt - i,
            {
                assert(i * w <= ranges.value_len) by (nonlinear_arith)
                    requires
                        i < cnt,
                        cnt == ranges.value_len / w,
                        w > 0,
                ;
                let vaddr: u64 = ranges.value_off as u64 + i as u64 * w as u64;
                let e = BusToPhysMemMapping {
                    bus_addr: cell_value(s, vaddr, ac),
                    mem_addr: cell_value(s, vaddr + 4 * ac as u64, ac),
                    length: cell_value(s, vaddr + 8 * ac as u64, sc),
                };
                res.bus_to_pmem_map.push(e);
                i = i + 1;
                assert(res.bus_to_pmem_map@ =~= old_map + want.subrange(0, i as int));
            }
            assert(want.subrange(0, cnt as int) =~= want);
        }
    }
}

/// A CPU node adds a CPU (up to eight) with its spin-table address.
pub open spec fn spec_enum_cpu(fdt: Fdt, s: Seq<u8>, off: u32, r: FdtResView) -> FdtResView {
    if r.cpus.len() >= MAX_CPU_COUNT {
        r
    } else {
        let ra = match prop(fdt, s, off, fdt.so_spin_tbl_off) {
            Some(p) => u64_at(s, p.value_off as int),
            None => 0,
        };
        FdtResView { cpus: r.cpus.push(FdtCpuInfo { release_addr: ra, compatible: empty_str() }), ..r }
    }
}

fn enum_cpu(fdt: &Fdt, s: &[u8], off: u32, res: &mut FdtMachineResources)
    requires
        s@.len() <= u32::MAX,
    ensures
        final(res)@ == spec_enum_cpu(*fdt, s@, off, old(res)@),
{
    if res.cpus.len() >= MAX_CPU_COUNT {
        return;
    }
    let ra: u64 = match find_property(fdt, s, off, fdt.so_spin_tbl_off) {
        Some(p) => word64(s, p.value_off as u64),
        None => 0,
    };
    res.cpus.push(FdtCpuInfo { release_addr: ra, compatible: StrRef { off: 0, len: 0 } });
}

/// The memory ranges of a `reg` value of `len` bytes at `off`.
pub open spec fn mem_entries(s: Seq<u8>, off: int, len: u32, ac: u32, sc: u32) -> Seq<PMMapElement> {
    let w = 4 * ac + 4 * sc;
    Seq::new(
        (len as int / w) as nat,
        |i: int| PMMapElement {
            base: cell_at(s, off + i * w, ac),
            len: cell_at(s, off + i * w + 4 * ac, sc),
            avail: true,
        },
    )
}

/// A memory node adds its ranges, free for use (decoded for 1- or 2-cell
/// addresses and sizes of the root).
pub open spec fn spec_enum_mem(fdt: Fdt, s: Seq<u8>, off: u32, r: FdtResView) -> FdtResView {
    match prop(fdt, s, off, fdt.so_reg) {
        Some(p) => if cells_ok(r.root_addr_cells) && cells_ok(r.root_size_cells) {
            FdtResView {
                mmap: r.mmap + mem_entries(
                    s,
                    p.value_off as int,
                    p.value_len,
                    r.root_addr_cells,
                    r.root_size_cells,
                ),
                ..r
            }
        } else {
            r
        },
        None => r,
    }
}

fn enum_mem_device(fdt: &Fdt, s: &[u8], off: u32, res: &mut FdtMachineResources)
    requires
        s@.len() <= u32::MAX,
    ensures
        final(res)@ == spec_enum_mem(*fdt, s@, off, old(res)@),
{
    let ac = res.root_addr_cells;
    let sc = res.root_size_cells;
    if let Some(p) = find_property(fdt, s, off, fdt.so_reg) {
        if (ac == 1 || ac == 2) && (sc == 1 || sc == 2) {
            let w: u32 = 4 * ac + 4 * sc;
            let cnt: u32 = p.value_len / w;
            let ghost old_map = res.mmap@;
            let ghost want = mem_entries(s@, p.value_off as int, p.value_len, ac, sc);
            let mut i: u32 = 0;
            while i < cnt
                invariant
                    cnt == want.len(),
                    w == 4 * ac + 4 * sc,
                    cells_ok(ac) && cells_ok(sc),
                    want == mem_entries(s@, p.value_off as int, p.value_len, ac, sc),
                    p.value_off <= u32::MAX,
                    i <= cnt,
                    res.mmap@ == old_map + want.subrange(0, i as int),
                    res.root_addr_cells == ac && res.root_size_cells == sc,
                    res.root_addr_cells == old(res).root_addr_cells,
                    res.root_size_cells == old(res).root_size_cells,
                    res.machine_name == old(res).machine_name,
                    res.machine_model == old(res).machine_model,
                    res.machine_compat == old(res).machine_compat,
                    res.cpus@ == old(res).cpus@,
                    res.bus_to_pmem_map@ == old(res).bus_to_pmem_map@,
                    res.devices@ == old(res).devices@,
                    old_map == old(res).mmap@,
                decreases cnt - i,
            {
                assert(i * w <= p.value_len) by (nonlinear_arith)
                    requires
                        i < cnt,
                        cnt == p.value_len / w,
                        w > 0,
                ;
                let vaddr: u64 = p.value_off as u64 + i as u64 * w as u64;
                let e = PMMapElement {
                    base: cell_value(s, vaddr, ac),
                    len: cell_value(s, vaddr + 4 * ac as u64, sc),
                    avail: true,
                };
                res.mmap.push(e);
                i = i + 1;
                assert(res.mmap@ =~= old_map + want.subrange(0, i as int));
            }
            assert(want.subrange(0, cnt as int) =~= want);
        }
    }
}

/// A peripheral node adds a device (up to 32) with its compatible string
/// and its first register window.
pub open spec fn spec_enum_peripheral(fdt: Fdt, s: Seq<u8>, off: u32, r: FdtResView, ty: FdtDeviceType) -> FdtResView {
    if r.devices.len() >= MAX_DEVICE_COUNT {
        r
    } else {
        let compat = match prop(fdt, s, off, fdt.so_compatible) {
            Some(p) => str_of(p),
            None => empty_str(),
        };
        let ac = r.root_addr_cells;
        let sc = r.root_size_cells;
        let (base, len) = match prop(fdt, s, off, fdt.so_reg) {
            Some(p) => if cells_ok(ac) && cells_ok(sc) && p.value_len as int / (4 * ac + 4 * sc) >= 1 {
                (cell_at(s, p.value_off as int, ac), cell_at(s, p.value_off + 4 * ac, sc))
            } else {
                (0usize, 0usize)
            },
            None => (0usize, 0usize),
        };
        FdtResView {
            devices: r.devices.push(
                FdtPeripheral { dev_type: ty, compat, mmio_base: base, mmio_len: len },
            ),
            ..r
        }
    }
}

fn enum_peripheral(fdt: &Fdt, s: &[u8], off: u32, res: &mut FdtMachineResources, dev_type: FdtDeviceType)
    requires
        s@.len() <= u32::MAX,
    ensures
        final(res)@ == spec_enum_peripheral(*fdt, s@, off, old(res)@, dev_type),
{
    if res.devices.len() >= MAX_DEVICE_COUNT {
        return;
    }
    let compat = match find_property(fdt, s, off, fdt.so_compatible) {
        Some(p) => value_as_str(&p),
        None => StrRef { off: 0, len: 0 },
    };
    let ac = res.root_addr_cells;
    let sc = res.root_size_cells;
    let (base, len): (usize, usize) = match find_property(fdt, s, off, fdt.so_reg) {
        Some(p) => if (ac == 1 || ac == 2) && (sc == 1 || sc == 2) && p.value_len / (4 * ac + 4 * sc) >= 1 {
            (cell_value(s, p.value_off as u64, ac), cell_value(s, p.value_off as u64 + 4 * ac as u64, sc))
        } else {
            (0, 0)
        },
        None => (0, 0),
    };
    res.devices.push(FdtPeripheral { dev_type, compat, mmio_base: base, mmio_len: len });
}

// ---------------------------------------------------------------------------
// The whole tree
// ---------------------------------------------------------------------------

/// The node name prefixes the parser recognises.
pub open spec fn pfx_memory() -> Seq<u8> { seq![0x6du8, 0x65, 0x6d, 0x6f, 0x72, 0x79, 0x40] }
pub open spec fn pfx_soc() -> Seq<u8> { seq![0x73u8, 0x6f, 0x63] }
pub open spec fn pfx_intctl() -> Seq<u8> {
    seq![0x69u8, 0x6e, 0x74, 0x65, 0x72, 0x72, 0x75, 0x70, 0x74, 0x2d, 0x63, 0x6f, 0x6e, 0x74, 0x72, 0x6f, 0x6c, 0x6c, 0x65, 0x72, 0x40]
}
pub open spec fn pfx_serial() -> Seq<u8> { seq![0x73u8, 0x65, 0x72, 0x69, 0x61, 0x6c, 0x40] }
pub open spec fn pfx_i2c() -> Seq<u8> { seq![0x69u8, 0x32, 0x63, 0x40] }
pub open spec fn pfx_spi() -> Seq<u8> { seq![0x73u8, 0x70, 0x69, 0x40] }
pub open spec fn pfx_mailbox() -> Seq<u8> { seq![0x6du8, 0x61, 0x69, 0x6c, 0x62, 0x6f, 0x78, 0x40] }
pub open spec fn pfx_mmc() -> Seq<u8> { seq![0x6du8, 0x6d, 0x63, 0x40] }
pub open spec fn pfx_vec() -> Seq<u8> { seq![0x76u8, 0x65, 0x63, 0x40] }
pub open spec fn pfx_vchiq() -> Seq<u8> { seq![0x76u8, 0x63, 0x68, 0x69, 0x71, 0x40] }
/// "cpu"
pub open spec fn cpu_str() -> Seq<u8> { seq![0x63u8, 0x70, 0x75] }

/// The string `r` is `pat`.
pub open spec fn str_is(s: Seq<u8>, r: StrRef, pat: Seq<u8>) -> bool {
    r.len == pat.len() && spec_bytes_at(s, r.off as int, pat)
}

/// The name `r` starts with `pat`.
pub open spec fn starts_with(s: Seq<u8>, r: StrRef, pat: Seq<u8>) -> bool {
    pat.len() <= r.len && spec_bytes_at(s, r.off as int, pat)
}

fn name_starts_with(s: &[u8], r: StrRef, pat: &[u8]) -> (b: bool)
    ensures
        b == starts_with(s@, r, pat@),
{
    pat.len() <= r.len && bytes_at(s, r.off, pat)
}

/// What visiting the node at `off` adds: the first node is the root; the
/// others are recognised by their name, or as CPUs by their device type.
#[verifier::opaque]
pub open spec fn spec_visit(fdt: Fdt, s: Seq<u8>, off: u32, r: FdtResView, root: bool) -> FdtResView {
    let path = node_path(s, off);
    if root {
        spec_enum_root(fdt, s, off, r)
    } else if starts_with(s, path, pfx_memory()) {
        spec_enum_mem(fdt, s, off, r)
    } else if starts_with(s, path, pfx_soc()) {
        spec_enum_soc(fdt, s, off, r)
    } else if starts_with(s, path, pfx_intctl()) {
        spec_enum_peripheral(fdt, s, off, r, FdtDeviceType::IntCtrl)
    } else if starts_with(s, path, pfx_serial()) {
        spec_enum_peripheral(fdt, s, off, r, FdtDeviceType::Serial)
    } else if starts_with(s, path, pfx_i2c()) {
        spec_enum_peripheral(fdt, s, off, r, FdtDeviceType::I2C)
    } else if starts_with(s, path, pfx_spi()) {
        spec_enum_peripheral(fdt, s, off, r, FdtDeviceType::SPI)
    } else if starts_with(s, path, pfx_mailbox()) {
        spec_enum_peripheral(fdt, s, off, r, FdtDeviceType::MailBox)
    } else if starts_with(s, path, pfx_mmc()) {
        spec_enum_peripheral(fdt, s, off, r, FdtDeviceType::MMC)
    } else if starts_with(s, path, pfx_vec()) {
        spec_enum_peripheral(fdt, s, off, r, FdtDeviceType::VideoCore)
    } else if starts_with(s, path, pfx_vchiq()) {
        spec_enum_peripheral(fdt, s, off, r, FdtDeviceType::VCHIQ)
    } else {
        match prop(fdt, s, off, fdt.so_dev_type) {
            Some(p) => if str_is(s, str_of(p), cpu_str()) {
                spec_enum_cpu(fdt, s, off, r)
            } else {
                r
            },
            None => r,
        }
    }
}

fn visit_node(fdt: &Fdt, s: &[u8], off: u32, res: &mut FdtMachineResources, root: bool)
    requires
        s@.len() <= u32::MAX,
        off + 4 <= s@.len(),
    ensures
        final(res)@ == spec_visit(*fdt, s@, off, old(res)@, root),
{
    reveal(spec_visit);
    let node = FdtNode::from_offset(s, off);
    let path = node.path;
    let p_mem: [u8; 7] = [0x6d, 0x65, 0x6d, 0x6f, 0x72, 0x79, 0x40];
    let p_soc: [u8; 3] = [0x73, 0x6f, 0x63];
    let p_int: [u8; 21] = [0x69, 0x6e, 0x74, 0x65, 0x72, 0x72, 0x75, 0x70, 0x74, 0x2d, 0x63, 0x6f, 0x6e, 0x74, 0x72, 0x6f, 0x6c, 0x6c, 0x65, 0x72, 0x40];
    let p_ser: [u8; 7] = [0x73, 0x65, 0x72, 0x69, 0x61, 0x6c, 0x40];
    let p_i2c: [u8; 4] = [0x69, 0x32, 0x63, 0x40];
    let p_spi: [u8; 4] = [0x73, 0x70, 0x69, 0x40];
    let p_mbx: [u8; 8] = [0x6d, 0x61, 0x69, 0x6c, 0x62, 0x6f, 0x78, 0x40];
    let p_mmc: [u8; 4] = [0x6d, 0x6d, 0x63, 0x40];
    let p_vec: [u8; 4] = [0x76, 0x65, 0x63, 0x40];
    let p_vcq: [u8; 6] = [0x76, 0x63, 0x68, 0x69, 0x71, 0x40];
    let cpu: [u8; 3] = [0x63, 0x70, 0x75];
    assert(p_mem@ =~= pfx_memory());
    assert(p_soc@ =~= pfx_soc());
    assert(p_int@ =~= pfx_intctl());
    assert(p_ser@ =~= pfx_serial());
    assert(p_i2c@ =~= pfx_i2c());
    assert(p_spi@ =~= pfx_spi());
    assert(p_mbx@ =~= pfx_mailbox());
    assert(p_mmc@ =~= pfx_mmc());
    assert(p_vec@ =~= pfx_vec());
    assert(p_vcq@ =~= pfx_vchiq());
    assert(cpu@ =~= cpu_str());
    if root {
        enum_root_node(fdt, s, off, res);
    } else if name_starts_with(s, path, &p_mem) {
        enum_mem_device(fdt, s, off, res);
    } else if name_starts_with(s, path, &p_soc) {
        enum_soc_node(fdt, s, off, res);
    } else if name_starts_with(s, path, &p_int) {
        enum_peripheral(fdt, s, off, res, FdtDeviceType::IntCtrl);
    } else if name_starts_with(s, path, &p_ser) {
        enum_peripheral(fdt, s, off, res, FdtDeviceType::Serial);
    } else if name_starts_with(s, path, &p_i2c) {
        enum_peripheral(fdt, s, off, res, FdtDeviceType::I2C);
    } else if name_starts_with(s, path, &p_spi) {
        enum_peripheral(fdt, s, off, res, FdtDeviceType::SPI);
    } else if name_starts_with(s, path, &p_mbx) {
        enum_peripheral(fdt, s, off, res, FdtDeviceType::MailBox);
    } else if name_starts_with(s, path, &p_mmc) {
        enum_peripheral(fdt, s, off, res, FdtDeviceType::MMC);
    } else if name_starts_with(s, path, &p_vec) {
        enum_peripheral(fdt, s, off, res, FdtDeviceType::VideoCore);
    } else if name_starts_with(s, path, &p_vcq) {
        enum_peripheral(fdt, s, off, res, FdtDeviceType::VCHIQ);
    } else {
        if let Some(p) = find_property(fdt, s, off, fdt.so_dev_type) {
            let v = value_as_str(&p);
            if v.len == 3 && bytes_at(s, v.off, &cpu) {
                enum_cpu(fdt, s, off, res);
            }
        }
    }
}

/// Visiting the nodes from the one after `cur` on, at most `fuel` of them.
pub open spec fn spec_walk(fdt: Fdt, s: Seq<u8>, cur: u32, r: FdtResView, root: bool, fuel: nat) -> FdtResView
    decreases fuel,
{
    if fuel == 0 {
        r
    } else {
        match spec_find_next_node(fdt, s, cur) {
            Some(n) => spec_walk(fdt, s, n, spec_visit(fdt, s, n, r, root), false, (fuel - 1) as nat),
            None => r,
        }
    }
}

proof fn lemma_walk_step(fdt: Fdt, s: Seq<u8>, cur: u32, r: FdtResView, root: bool, fuel: nat)
    requires
        fuel > 0,
    ensures
        spec_find_next_node(fdt, s, cur) matches Some(n) ==> spec_walk(fdt, s, cur, r, root, fuel)
            == spec_walk(fdt, s, n, spec_visit(fdt, s, n, r, root), false, (fuel - 1) as nat),
        spec_find_next_node(fdt, s, cur) is None ==> spec_walk(fdt, s, cur, r, root, fuel) == r,
{
}

/// The reserved memory map from entry `i` on (16-byte entries of base and
/// length, ended by an all-zero entry, at most 32).
pub open spec fn spec_rsvd(s: Seq<u8>, off: int, r: FdtResView, i: nat) -> FdtResView
    decreases MAX_RSVD_COUNT - i,
{
    if i >= MAX_RSVD_COUNT {
        r
    } else {
        let b = u64_at(s, off + 16 * i);
        let l = u64_at(s, off + 16 * i + 8);
        if b == 0 && l == 0 {
            r
        } else {
            spec_rsvd(
                s,
                off,
                FdtResView {
                    mmap: r.mmap.push(PMMapElement { base: b as usize, len: l as usize, avail: false }),
                    ..r
                },
                i + 1,
            )
        }
    }
}

fn enum_rsvd_mem(fdt: &Fdt, s: &[u8], res: &mut FdtMachineResources)
    ensures
        final(res)@ == spec_rsvd(s@, fdt.mem_rsvmap_off as int, old(res)@, 0),
{
    let off = fdt.mem_rsvmap_off as u64;
    let mut i: u64 = 0;
    while i < 32
        invariant
            i <= 32,
            off == fdt.mem_rsvmap_off,
            spec_rsvd(s@, off as int, old(res)@, 0) == spec_rsvd(s@, off as int, res@, i as nat),
        decreases 32 - i,
    {
        let b = word64(s, off + 16 * i);
        let l = word64(s, off + 16 * i + 8);
        if b == 0 && l == 0 {
            return;
        }
        res.mmap.push(PMMapElement { base: b as usize, len: l as usize, avail: false });
        i = i + 1;
    }
}

/// The physical address of bus address `a`, by the first window (from `i`
/// on) that holds it.
pub open spec fn bus_lookup(map: Seq<BusToPhysMemMapping>, a: usize, i: int) -> Option<usize>
    decreases map.len() - i,
{
    if i < 0 || i >= map.len() {
        None
    } else if a >= map[i].bus_addr && a - map[i].bus_addr <= map[i].length {
        Some(vstd::wrapping::usize_specs::wrapping_add(map[i].mem_addr, (a - map[i].bus_addr) as usize))
    } else {
        bus_lookup(map, a, i + 1)
    }
}

/// Window `w` holds bus address `a`.
pub open spec fn window_holds(w: BusToPhysMemMapping, a: usize) -> bool {
    w.bus_addr <= a && a - w.bus_addr <= w.length
}

/// A bus address is translated by the first window that holds it, keeping
/// its offset into that window: the physical address is the window's
/// physical base plus how far the address is past the window's bus base.
/// So two bus addresses in that window translate to addresses as far apart
/// as they are. An address no window holds is not translated.
pub proof fn lemma_bus_lookup_keeps_offset(map: Seq<BusToPhysMemMapping>, a: usize, k: int)
    requires
        0 <= k < map.len(),
        window_holds(map[k], a),
        forall|j: int| 0 <= j < k ==> !window_holds(#[trigger] map[j], a),
        map[k].mem_addr + (a - map[k].bus_addr) <= usize::MAX,
    ensures
        bus_lookup(map, a, 0) == Some((map[k].mem_addr + (a - map[k].bus_addr)) as usize),
{
    lemma_bus_lookup_from(map, a, 0, k);
}

proof fn lemma_bus_lookup_from(map: Seq<BusToPhysMemMapping>, a: usize, i: int, k: int)
    requires
        0 <= i <= k < map.len(),
        window_holds(map[k], a),
        forall|j: int| 0 <= j < k ==> !window_holds(#[trigger] map[j], a),
        map[k].mem_addr + (a - map[k].bus_addr) <= usize::MAX,
    ensures
        bus_lookup(map, a, i) == Some((map[k].mem_addr + (a - map[k].bus_addr)) as usize),
    decreases k - i,
{
    if i < k {
        assert(!window_holds(map[i], a));
        lemma_bus_lookup_from(map, a, i + 1, k);
    }
}

/// No window holds the address: it has no physical address.
pub proof fn lemma_bus_lookup_outside(map: Seq<BusToPhysMemMapping>, a: usize, i: int)
    requires
        0 <= i,
        forall|j: int| 0 <= j < map.len() ==> !window_holds(#[trigger] map[j], a),
    ensures
        bus_lookup(map, a, i) is None,
    decreases map.len() - i,
{
    if i < map.len() {
        assert(!window_holds(map[i], a));
        lemma_bus_lookup_outside(map, a, i + 1);
    }
}

/// Translates a bus address to a physical address, if a window holds it.
pub fn bus_to_mem_addr(map: &Vec<BusToPhysMemMapping>, bus_addr: usize) -> (r: Option<usize>)
    ensures
        r == bus_lookup(map@, bus_addr, 0),
{
    let mut i: usize = 0;
    while i < map.len()
        invariant
            i <= map@.len(),
            bus_lookup(map@, bus_addr, 0) == bus_lookup(map@, bus_addr, i as int),
        decreases map@.len() - i,
    {
        let m = map[i];
        if bus_addr >= m.bus_addr && bus_addr - m.bus_addr <= m.length {
            return Some(m.mem_addr.wrapping_add(bus_addr - m.bus_addr));
        }
        i = i + 1;
    }
    None
}

/// The devices with their register windows moved from bus to physical
/// addresses.
pub open spec fn spec_translate(r: FdtResView) -> FdtResView {
    FdtResView {
        devices: Seq::new(
            r.devices.len(),
            |i: int| {
                let d = r.devices[i];
                match bus_lookup(r.bus_to_pmem_map, d.mmio_base, 0) {
                    Some(a) => FdtPeripheral { mmio_base: a, ..d },
                    None => d,
                }
            },
        ),
        ..r
    }
}

/// The header of a tree and the offsets of the names the parser uses;
/// `None` without the magic number or a whole header.
pub open spec fn spec_fdt_header(s: Seq<u8>) -> Option<Fdt> {
    if s.len() < 32 || u32_at(s, 0) != FDT_MAGIC {
        None
    } else {
        let total = u32_at(s, 4);
        let strs = u32_at(s, 12);
        Some(Fdt {
            total_size: total,
            struct_off: u32_at(s, 8),
            strings_off: strs,
            mem_rsvmap_off: u32_at(s, 16),
            version: u32_at(s, 20),
            so_name: str_scan(s, strs as int, total as int, name_name(), strs as int),
            so_compatible: str_scan(s, strs as int, total as int, name_compatible(), strs as int),
            so_model: str_scan(s, strs as int, total as int, name_model(), strs as int),
            so_addr_cells: str_scan(s, strs as int, total as int, name_addr_cells(), strs as int),
            so_size_cells: str_scan(s, strs as int, total as int, name_size_cells(), strs as int),
            so_dev_type: str_scan(s, strs as int, total as int, name_device_type(), strs as int),
            so_clock_freq: str_scan(s, strs as int, total as int, name_clock_freq(), strs as int),
            so_timer_freq: str_scan(s, strs as int, total as int, name_timebase_freq(), strs as int),
            so_status: str_scan(s, strs as int, total as int, name_status(), strs as int),
            so_spin_tbl_off: str_scan(s, strs as int, total as int, name_release_addr(), strs as int),
            so_reg: str_scan(s, strs as int, total as int, name_reg(), strs as int),
            so_ranges: str_scan(s, strs as int, total as int, name_ranges(), strs as int),
        })
    }
}

/// Property names.
pub open spec fn name_name() -> Seq<u8> { seq![0x6eu8, 0x61, 0x6d, 0x65] }
pub open spec fn name_compatible() -> Seq<u8> { seq![0x63u8, 0x6f, 0x6d, 0x70, 0x61, 0x74, 0x69, 0x62, 0x6c, 0x65] }
pub open spec fn name_model() -> Seq<u8> { seq![0x6du8, 0x6f, 0x64, 0x65, 0x6c] }
pub open spec fn name_addr_cells() -> Seq<u8> { seq![0x23u8, 0x61, 0x64, 0x64, 0x72, 0x65, 0x73, 0x73, 0x2d, 0x63, 0x65, 0x6c, 0x6c, 0x73] }
pub open spec fn name_size_cells() -> Seq<u8> { seq![0x23u8, 0x73, 0x69, 0x7a, 0x65, 0x2d, 0x63, 0x65, 0x6c, 0x6c, 0x73] }
pub open spec fn name_device_type() -> Seq<u8> { seq![0x64u8, 0x65, 0x76, 0x69, 0x63, 0x65, 0x5f, 0x74, 0x79, 0x70, 0x65] }
pub open spec fn name_clock_freq() -> Seq<u8> { seq![0x63u8, 0x6c, 0x6f, 0x63, 0x6b, 0x2d, 0x66, 0x72, 0x65, 0x71, 0x75, 0x65, 0x6e, 0x63, 0x79] }
pub open spec fn name_timebase_freq() -> Seq<u8> { seq![0x74u8, 0x69, 0x6d, 0x65, 0x62, 0x61, 0x73, 0x65, 0x2d, 0x66, 0x72, 0x65, 0x71, 0x75, 0x65, 0x6e, 0x63, 0x79] }
pub open spec fn name_status() -> Seq<u8> { seq![0x73u8, 0x74, 0x61, 0x74, 0x75, 0x73] }
pub open spec fn name_release_addr() -> Seq<u8> { seq![0x63u8, 0x70, 0x75, 0x2d, 0x72, 0x65, 0x6c, 0x65, 0x61, 0x73, 0x65, 0x2d, 0x61, 0x64, 0x64, 0x72] }
pub open spec fn name_reg() -> Seq<u8> { seq![0x72u8, 0x65, 0x67] }
pub open spec fn name_ranges() -> Seq<u8> { seq![0x72u8, 0x61, 0x6e, 0x67, 0x65, 0x73] }

impl Fdt {
    /// Reads the header of the tree in `s` and looks up the property names.
    pub fn from_blob(s: &[u8]) -> (r: Option<Fdt>)
        ensures
            r == spec_fdt_header(s@),
    {
        if s.len() < 32 || word32(s, 0) != FDT_MAGIC {
            return None;
        }
        let total = word32(s, 4);
        let strs = word32(s, 12);
        let n_name: [u8; 4] = [0x6e, 0x61, 0x6d, 0x65];
        let n_compat: [u8; 10] = [0x63, 0x6f, 0x6d, 0x70, 0x61, 0x74, 0x69, 0x62, 0x6c, 0x65];
        let n_model: [u8; 5] = [0x6d, 0x6f, 0x64, 0x65, 0x6c];
        let n_ac: [u8; 14] = [0x23, 0x61, 0x64, 0x64, 0x72, 0x65, 0x73, 0x73, 0x2d, 0x63, 0x65, 0x6c, 0x6c, 0x73];
        let n_sc: [u8; 11] = [0x23, 0x73, 0x69, 0x7a, 0x65, 0x2d, 0x63, 0x65, 0x6c, 0x6c, 0x73];
        let n_dt: [u8; 11] = [0x64, 0x65, 0x76, 0x69, 0x63, 0x65, 0x5f, 0x74, 0x79, 0x70, 0x65];
        let n_cf: [u8; 15] = [0x63, 0x6c, 0x6f, 0x63, 0x6b, 0x2d, 0x66, 0x72, 0x65, 0x71, 0x75, 0x65, 0x6e, 0x63, 0x79];
        let n_tf: [u8; 18] = [0x74, 0x69, 0x6d, 0x65, 0x62, 0x61, 0x73, 0x65, 0x2d, 0x66, 0x72, 0x65, 0x71, 0x75, 0x65, 0x6e, 0x63, 0x79];
        let n_st: [u8; 6] = [0x73, 0x74, 0x61, 0x74, 0x75, 0x73];
        let n_ra: [u8; 16] = [0x63, 0x70, 0x75, 0x2d, 0x72, 0x65, 0x6c, 0x65, 0x61, 0x73, 0x65, 0x2d, 0x61, 0x64, 0x64, 0x72];
        let n_reg: [u8; 3] = [0x72, 0x65, 0x67];
        let n_rng: [u8; 6] = [0x72, 0x61, 0x6e, 0x67, 0x65, 0x73];
        assert(n_name@ =~= name_name());
        assert(n_compat@ =~= name_compatible());
        assert(n_model@ =~= name_model());
        assert(n_ac@ =~= name_addr_cells());
        assert(n_sc@ =~= name_size_cells());
        assert(n_dt@ =~= name_device_type());
        assert(n_cf@ =~= name_clock_freq());
        assert(n_tf@ =~= name_timebase_freq());
        assert(n_st@ =~= name_status());
        assert(n_ra@ =~= name_release_addr());
        assert(n_reg@ =~= name_reg());
        assert(n_rng@ =~= name_ranges());
        Some(Fdt {
            total_size: total,
            struct_off: word32(s, 8),
            strings_off: strs,
            mem_rsvmap_off: word32(s, 16),
            version: word32(s, 20),
            so_name: find_str_off(s, strs, total, &n_name),
            so_compatible: find_str_off(s, strs, total, &n_compat),
            so_model: find_str_off(s, strs, total, &n_model),
            so_addr_cells: find_str_off(s, strs, total, &n_ac),
            so_size_cells: find_str_off(s, strs, total, &n_sc),
            so_dev_type: find_str_off(s, strs, total, &n_dt),
            so_clock_freq: find_str_off(s, strs, total, &n_cf),
            so_timer_freq: find_str_off(s, strs, total, &n_tf),
            so_status: find_str_off(s, strs, total, &n_st),
            so_spin_tbl_off: find_str_off(s, strs, total, &n_ra),
            so_reg: find_str_off(s, strs, total, &n_reg),
            so_ranges: find_str_off(s, strs, total, &n_rng),
        })
    }
}

/// What parsing the tree `s` gives, starting from `r`: the nodes in order
/// (the first as the root), then the reserved memory map, then the device
/// windows translated to physical addresses.
pub open spec fn spec_parse_tree(s: Seq<u8>, r: FdtResView) -> Option<FdtResView> {
    match spec_fdt_header(s) {
        None => None,
        Some(fdt) => Some(
            spec_translate(
                spec_rsvd(
                    s,
                    fdt.mem_rsvmap_off as int,
                    spec_walk(fdt, s, 0, r, true, s.len()),
                    0,
                ),
            ),
        ),
    }
}

/// Parses the device tree `s` into `sys_res`; false (and nothing changed)
/// when `s` is not a device tree.
pub fn fdt_parse_tree(s: &[u8], sys_res: &mut FdtMachineResources) -> (ok: bool)
    requires
        s@.len() <= u32::MAX,
    ensures
        ok == spec_parse_tree(s@, old(sys_res)@) is Some,
        spec_parse_tree(s@, old(sys_res)@) matches Some(v) ==> final(sys_res)@ == v,
        !ok ==> final(sys_res)@ == old(sys_res)@,
{
    let fdt = match Fdt::from_blob(s) {
        Some(f) => f,
        None => {
            return false;
        },
    };
    let ghost r0 = sys_res@;
    let mut cur: u32 = 0;
    let mut root = true;
    let mut fuel: usize = s.len();
    let mut done = false;
    while !done && fuel > 0
        invariant
            s@.len() <= u32::MAX,
            Some(fdt) == spec_fdt_header(s@),
            spec_walk(fdt, s@, 0, r0, true, s@.len()) == if done {
                sys_res@
            } else {
                spec_walk(fdt, s@, cur, sys_res@, root, fuel as nat)
            },
        decreases fuel + if done { 0int } else { 1int },
    {
        match find_next_node(&fdt, s, cur) {
            Some(n) => {
                proof {
                    lemma_walk_step(fdt, s@, cur, sys_res@, root, fuel as nat);
                }
                visit_node(&fdt, s, n, sys_res, root);
                cur = n;
                root = false;
                fuel = fuel - 1;
            },
            None => {
                proof {
                    lemma_walk_step(fdt, s@, cur, sys_res@, root, fuel as nat);
                }
                done = true;
            },
        }
    }
    enum_rsvd_mem(&fdt, s, sys_res);
    let ghost r2 = sys_res@;
    let mut i: usize = 0;
    while i < sys_res.devices.len()
        invariant
            i <= sys_res.devices@.len(),
            sys_res.devices@.len() == r2.devices.len(),
            sys_res.bus_to_pmem_map@ == r2.bus_to_pmem_map,
            forall|k: int| i <= k < r2.devices.len() ==> sys_res.devices@[k] == r2.devices[k],
            forall|k: int| 0 <= k < i ==> sys_res.devices@[k] == spec_translate(r2).devices[k],
            sys_res.machine_name == r2.machine_name,
            sys_res.machine_model == r2.machine_model,
            sys_res.machine_compat == r2.machine_compat,
            sys_res.root_addr_cells == r2.root_addr_cells,
            sys_res.root_size_cells == r2.root_size_cells,
            sys_res.cpus@ == r2.cpus,
            sys_res.mmap@ == r2.mmap,
        decreases sys_res.devices@.len() - i,
    {
        let d = sys_res.devices[i];
        match bus_to_mem_addr(&sys_res.bus_to_pmem_map, d.mmio_base) {
            Some(addr) => {
                let nd = FdtPeripheral { mmio_base: addr, ..d };
                sys_res.devices.set(i, nd);
            },
            None => {},
        }
        i = i + 1;
    }
    assert(sys_res.devices@ =~= spec_translate(r2).devices);
    true
}

} // verus!
