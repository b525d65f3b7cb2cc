//! FAT12/16/32: boot sector geometry, the allocation table, directory
//! records and where a file's bytes lie on the disk.
//!
//! The volume's data area is divided into clusters; FAT entry `i` (from 2
//! on) tells the state of cluster `i` and, for a cluster in use, the next
//! cluster of the same file.
use vstd::prelude::*;
use crate::drivers::storage::IOCompletion;
use crate::fs::{
    contains_byte, find_byte, first_index, lemma_first_index_unique,
    mount_map, mount_names, DirectoryEntry, MountPoint, MountTable, FLG_ARCHIVE, FLG_DIRECTORY, FLG_HIDDEN, FLG_PERM_EXEC, FLG_PERM_READ,
    FLG_PERM_WRITE, FLG_SYSTEM,
};
use crate::drivers::DRV_FAT;
use crate::util::{
    bytes_at, dec_text, le16, le32, push_dec, spec_bytes_at, spec_le16, spec_le32, sub_vec,
};

verus! {

/// The FAT variant of a volume.
#[derive(Clone, Copy, Debug, PartialEq, Eq, Structural)]
pub enum FATKind {
    FAT12,
    FAT16,
    FAT32,
    Unknown,
}

/// The state of a cluster as its FAT entry tells it.
#[derive(Clone, Copy, Debug, PartialEq, Eq, Structural)]
pub enum FATEntry {
    Free,
    Reserved,
    /// In use; the value is the next cluster of the chain
    InUse(u32),
    BadCluster,
    /// In use and the last cluster of its chain
    EndOfChain,
    Invalid,
}

/// The meaning of a raw FAT entry value on a volume of the given kind.
pub open spec fn spec_fat_entry(kind: FATKind, value: u32) -> FATEntry {
    match kind {
        FATKind::FAT12 => if value == 0 {
            FATEntry::Free
        } else if value == 1 {
            FATEntry::Reserved
        } else if value <= 0xFF6 {
            FATEntry::InUse(value)
        } else if value == 0xFF7 {
            FATEntry::BadCluster
        } else if value <= 0xFFF {
            FATEntry::EndOfChain
        } else {
            FATEntry::Invalid
        },
        FATKind::FAT16 => if value == 0 {
            FATEntry::Free
        } else if value == 1 {
            FATEntry::Reserved
        } else if value <= 0xFFF6 {
            FATEntry::InUse(value)
        } else if value == 0xFFF7 {
            FATEntry::BadCluster
        } else if value <= 0xFFFF {
            FATEntry::EndOfChain
        } else {
            FATEntry::Invalid
        },
        FATKind::FAT32 => if value == 0 {
            FATEntry::Free
        } else if value == 1 {
            FATEntry::Reserved
        } else if value <= 0x0FFFFFF6 {
            FATEntry::InUse(value)
        } else if value == 0x0FFFFFF7 {
            FATEntry::BadCluster
        } else if value == 0x0FFFFFF8 {
            FATEntry::EndOfChain
        } else {
            FATEntry::Invalid
        },
        FATKind::Unknown => FATEntry::Invalid,
    }
}

/// Classifies a raw FAT entry value.
pub fn fat_entry_from_value(kind: FATKind, value: u32) -> (e: FATEntry)
    ensures
        e == spec_fat_entry(kind, value),
{
    match kind {
        FATKind::FAT12 => if value == 0 {
            FATEntry::Free
        } else if value == 1 {
            FATEntry::Reserved
        } else if value <= 0xFF6 {
            FATEntry::InUse(value)
        } else if value == 0xFF7 {
            FATEntry::BadCluster
        } else if value <= 0xFFF {
            FATEntry::EndOfChain
        } else {
            FATEntry::Invalid
        },
        FATKind::FAT16 => if value == 0 {
            FATEntry::Free
        } else if value == 1 {
            FATEntry::Reserved
        } else if value <= 0xFFF6 {
            FATEntry::InUse(value)
        } else if value == 0xFFF7 {
            FATEntry::BadCluster
        } else if value <= 0xFFFF {
            FATEntry::EndOfChain
        } else {
            FATEntry::Invalid
        },
        FATKind::FAT32 => if value == 0 {
            FATEntry::Free
        } else if value == 1 {
            FATEntry::Reserved
        } else if value <= 0x0FFFFFF6 {
            FATEntry::InUse(value)
        } else if value == 0x0FFFFFF7 {
            FATEntry::BadCluster
        } else if value == 0x0FFFFFF8 {
            FATEntry::EndOfChain
        } else {
            FATEntry::Invalid
        },
        FATKind::Unknown => FATEntry::Invalid,
    }
}

// ---------------------------------------------------------------------------
// Directory records
// ---------------------------------------------------------------------------

pub const ATTR_READ_ONLY: u8 = 0x01;
pub const ATTR_HIDDEN: u8 = 0x02;
pub const ATTR_SYSTEM: u8 = 0x04;
pub const ATTR_VOLUME_ID: u8 = 0x08;
pub const ATTR_DIRECTORY: u8 = 0x10;
pub const ATTR_ARCHIVE: u8 = 0x20;
pub const ATTR_LONG_FILE_NAME: u8 = 0x0F;
/// Base name in lower case
pub const NT_RES_BODY: u8 = 0x08;
/// Extension in lower case
pub const NT_RES_EXT: u8 = 0x10;
/// `name[0]` of a free record
pub const NAME_0_FREE_ENTRY: u8 = 0xE5;
/// `name[0]` of the record that ends a directory
pub const NAME_0_LAST_ENTRY: u8 = 0x0;
/// Size of a directory record in bytes
pub const DIR_ENTRY_SIZE: usize = 32;

/// A 32-byte directory record with its 8.3 short name.
#[derive(Clone, Copy, Debug)]
pub struct DirEntry {
    pub name: [u8; 11],
    pub attr: u8,
    pub nt_res: u8,
    pub create_time_tenth: u8,
    pub create_time: u16,
    pub create_date: u16,
    pub access_date: u16,
    pub first_cluster_hi: u16,
    pub write_time: u16,
    pub write_date: u16,
    pub first_cluster_lo: u16,
    pub file_size: u32,
}

/// `e` is the record stored at `off` in `s`.
pub open spec fn dir_entry_at(e: DirEntry, s: Seq<u8>, off: int) -> bool {
    &&& e.name@ == s.subrange(off, off + 11)
    &&& e.attr == s[off + 11]
    &&& e.nt_res == s[off + 12]
    &&& e.create_time_tenth == s[off + 13]
    &&& e.create_time == spec_le16(s, off + 14)
    &&& e.create_date == spec_le16(s, off + 16)
    &&& e.access_date == spec_le16(s, off + 18)
    &&& e.first_cluster_hi == spec_le16(s, off + 20)
    &&& e.write_time == spec_le16(s, off + 22)
    &&& e.write_date == spec_le16(s, off + 24)
    &&& e.first_cluster_lo == spec_le16(s, off + 26)
    &&& e.file_size == spec_le32(s, off + 28)
}

/// ASCII upper case of a byte.
pub open spec fn upper(c: u8) -> u8 {
    if 97 <= c <= 122 {
        (c - 32) as u8
    } else {
        c
    }
}

fn to_upper(c: u8) -> (r: u8)
    ensures
        r == upper(c),
{
    if 97 <= c && c <= 122 {
        c - 32
    } else {
        c
    }
}

/// The length of `s` up to `k` without its trailing spaces.
pub open spec fn trimmed_len(s: Seq<u8>, k: int) -> int
    decreases k,
{
    if k <= 0 {
        0
    } else if s[k - 1] == 0x20 {
        trimmed_len(s, k - 1)
    } else {
        k
    }
}

/// The base name of a short name: its first 8 bytes without trailing spaces.
pub open spec fn sfn_base(name: Seq<u8>) -> Seq<u8> {
    name.subrange(0, trimmed_len(name, 8))
}

/// The extension of a short name: its last 3 bytes without trailing spaces.
pub open spec fn sfn_ext(name: Seq<u8>) -> Seq<u8> {
    name.subrange(8, 8 + trimmed_len(name.subrange(8, 11), 3))
}

/// Two byte strings are equal but for the case of their letters.
pub open spec fn eq_nocase(a: Seq<u8>, b: Seq<u8>) -> bool {
    a.len() == b.len() && forall|k: int| 0 <= k < a.len() ==> #[trigger] upper(a[k]) == upper(b[k])
}

/// `sfn` written as the 11-byte name itself, its missing tail counting as
/// spaces ("PROG    EXE", "SRC", "..").
pub open spec fn sfn_raw_match(name: Seq<u8>, sfn: Seq<u8>) -> bool {
    sfn.len() <= 11 && forall|k: int|
        0 <= k < 11 ==> #[trigger] upper(name[k]) == if k < sfn.len() {
            upper(sfn[k])
        } else {
            0x20u8
        }
}

/// `sfn` written as base name, dot, extension ("prog.exe").
pub open spec fn sfn_dot_match(name: Seq<u8>, sfn: Seq<u8>) -> bool {
    sfn_ext(name).len() > 0 && eq_nocase(sfn, sfn_base(name) + seq![0x2eu8] + sfn_ext(name))
}

/// The 11-byte short name `name` is the name `sfn`, case aside: `sfn` is
/// either the short name itself (its tail of spaces left out or not) or its
/// base name and extension joined by a dot.
pub open spec fn sfn_matches(name: Seq<u8>, sfn: Seq<u8>) -> bool {
    sfn_raw_match(name, sfn) || sfn_dot_match(name, sfn)
}

/// `trimmed_len` up to `k` depends only on the first `k` bytes.
proof fn lemma_trimmed_same(a: Seq<u8>, b: Seq<u8>, k: int)
    requires
        0 <= k <= a.len(),
        k <= b.len(),
        forall|t: int| 0 <= t < k ==> a[t] == b[t],
    ensures
        trimmed_len(a, k) == trimmed_len(b, k),
    decreases k,
{
    if k > 0 {
        lemma_trimmed_same(a, b, k - 1);
    }
}

fn trimmed_len_exec(s: &[u8], from: usize, k: usize) -> (r: usize)
    requires
        from + k <= s@.len(),
    ensures
        r == trimmed_len(s@.subrange(from as int, from + k), k as int),
        r <= k,
{
    let ghost t = s@.subrange(from as int, from + k);
    let slen = s.len();
    let mut n: usize = k;
    while n > 0 && s[from + n - 1] == 0x20
        invariant
            n <= k,
            slen == s@.len(),
            from + k <= s@.len(),
            t == s@.subrange(from as int, from + k),
            trimmed_len(t, k as int) == trimmed_len(t, n as int),
        decreases n,
    {
        assert(t[n - 1] == s@[from + n - 1]);
        n = n - 1;
    }
    if n > 0 {
        assert(t[n - 1] == s@[from + n - 1]);
    }
    n
}

/// The first cluster of a record.
pub open spec fn spec_first_cluster(e: DirEntry) -> u32 {
    (e.first_cluster_hi as u32 * 0x10000 + e.first_cluster_lo) as u32
}

impl DirEntry {
    /// Decodes the record stored at `off` in `b`.
    pub fn from_bytes(b: &[u8], off: usize) -> (e: Self)
        requires
            off + 32 <= b@.len(),
        ensures
            dir_entry_at(e, b@, off as int),
    {
        let _n = b.len();
        let name: [u8; 11] = [
            b[off],
            b[off + 1],
            b[off + 2],
            b[off + 3],
            b[off + 4],
            b[off + 5],
            b[off + 6],
            b[off + 7],
            b[off + 8],
            b[off + 9],
            b[off + 10],
        ];
        assert(name@ =~= b@.subrange(off as int, off + 11));
        DirEntry {
            name,
            attr: b[off + 11],
            nt_res: b[off + 12],
            create_time_tenth: b[off + 13],
            create_time: le16(b, off + 14),
            create_date: le16(b, off + 16),
            access_date: le16(b, off + 18),
            first_cluster_hi: le16(b, off + 20),
            write_time: le16(b, off + 22),
            write_date: le16(b, off + 24),
            first_cluster_lo: le16(b, off + 26),
            file_size: le32(b, off + 28),
        }
    }

    /// Whether the short name is the name `sfn`, case aside: "SRC        "
    /// is "src" or "SRC  ", "PROG    EXE" is "prog.exe", "PROG.EXE" or
    /// "PROG    EXE", ".." is "..".
    pub fn sfn_match(&self, sfn: &[u8]) -> (r: bool)
        ensures
            r == sfn_matches(self.name@, sfn@),
    {
        let name: &[u8] = &self.name;
        // the name itself, padded with spaces
        let mut raw = sfn.len() <= 11;
        let mut k: usize = 0;
        while raw && k < 11
            invariant
                k <= 11,
                name@ == self.name@,
                name@.len() == 11,
                raw ==> sfn@.len() <= 11,
                raw ==> forall|q: int|
                    0 <= q < k ==> #[trigger] upper(name@[q]) == if q < sfn@.len() {
                        upper(sfn@[q])
                    } else {
                        0x20u8
                    },
                !raw ==> !sfn_raw_match(self.name@, sfn@),
            decreases 11 - k + if raw { 1int } else { 0int },
        {
            let d: u8 = if k < sfn.len() {
                to_upper(sfn[k])
            } else {
                0x20
            };
            if to_upper(name[k]) != d {
                raw = false;
            } else {
                k = k + 1;
            }
        }
        if raw {
            return true;
        }
        // base name, dot, extension
        let bl = trimmed_len_exec(name, 0, 8);
        let el = trimmed_len_exec(name, 8, 3);
        proof {
            lemma_trimmed_same(name@.subrange(0, 8), name@, 8);
        }
        let ghost want = sfn_base(self.name@) + seq![0x2eu8] + sfn_ext(self.name@);
        assert(sfn_base(self.name@) =~= name@.subrange(0, bl as int));
        assert(sfn_ext(self.name@) =~= name@.subrange(8, 8 + el as int));
        if el == 0 || sfn.len() != bl + 1 + el {
            return false;
        }
        let mut q: usize = 0;
        while q < sfn.len()
            invariant
                q <= sfn@.len(),
                sfn@.len() == bl + 1 + el,
                bl <= 8,
                el <= 3,
                name@ == self.name@,
                name@.len() == 11,
                want.len() == sfn@.len(),
                want == sfn_base(self.name@) + seq![0x2eu8] + sfn_ext(self.name@),
                sfn_ext(self.name@).len() > 0,
                !sfn_raw_match(self.name@, sfn@),
                forall|t: int| 0 <= t < bl ==> #[trigger] want[t] == name@[t],
                want[bl as int] == 0x2eu8,
                forall|t: int| 0 <= t < el ==> #[trigger] want[bl + 1 + t] == name@[8 + t],
                forall|t: int| 0 <= t < q ==> #[trigger] upper(sfn@[t]) == upper(want[t]),
            decreases sfn@.len() - q,
        {
            let w: u8 = if q < bl {
                name[q]
            } else if q == bl {
                0x2e
            } else {
                assert(want[bl + 1 + (q - bl - 1)] == name@[8 + (q - bl - 1)]);
                name[8 + (q - bl - 1)]
            };
            assert(w == want[q as int]);
            if to_upper(sfn[q]) != to_upper(w) {
                proof {
                    assert(upper(sfn@[q as int]) != upper(want[q as int]));
                    assert(!eq_nocase(sfn@, want));
                }
                return false;
            }
            q = q + 1;
        }
        true
    }

    /// The 11 bytes of the short name.
    pub fn name(&self) -> (n: Vec<u8>)
        ensures
            n@ == self.name@,
    {
        let n = sub_vec(&self.name, 0, 11);
        assert(self.name@.subrange(0, 11) =~= self.name@);
        n
    }

    pub fn size_bytes(&self) -> (n: usize)
        ensures
            n == self.file_size,
    {
        self.file_size as usize
    }

    /// The first cluster of the file (0 for the FAT12/16 root directory).
    pub fn first_cluster(&self) -> (c: u32)
        ensures
            c == spec_first_cluster(*self),
    {
        assert(self.first_cluster_hi as u32 * 0x10000 + self.first_cluster_lo <= u32::MAX);
        self.first_cluster_hi as u32 * 0x10000 + self.first_cluster_lo as u32
    }
}

/// The VFS flags a FAT directory record is listed with.
pub open spec fn spec_fat_flags(attr: u8) -> usize {
    (if attr & ATTR_DIRECTORY != 0 { FLG_DIRECTORY } else { 0 })
        | (if attr & ATTR_ARCHIVE != 0 { FLG_ARCHIVE } else { 0 })
        | (if attr & ATTR_HIDDEN != 0 { FLG_HIDDEN } else { 0 })
        | (if attr & ATTR_SYSTEM != 0 { FLG_SYSTEM } else { 0 })
        | (if attr & ATTR_READ_ONLY != 0 {
        FLG_PERM_READ | FLG_PERM_EXEC
    } else {
        FLG_PERM_READ | FLG_PERM_WRITE | FLG_PERM_EXEC
    })
}

/// Maps the attributes of a record to VFS flags: read-only records lose the
/// write permission.
pub fn fat_flags(attr: u8) -> (f: usize)
    ensures
        f == spec_fat_flags(attr),
{
    let d: usize = if attr & ATTR_DIRECTORY != 0 { FLG_DIRECTORY } else { 0 };
    let a: usize = if attr & ATTR_ARCHIVE != 0 { FLG_ARCHIVE } else { 0 };
    let h: usize = if attr & ATTR_HIDDEN != 0 { FLG_HIDDEN } else { 0 };
    let s: usize = if attr & ATTR_SYSTEM != 0 { FLG_SYSTEM } else { 0 };
    let p: usize = if attr & ATTR_READ_ONLY != 0 {
        FLG_PERM_READ | FLG_PERM_EXEC
    } else {
        FLG_PERM_READ | FLG_PERM_WRITE | FLG_PERM_EXEC
    };
    d | a | h | s | p
}

/// The VFS entries for FAT directory records, as the Enum call lists them.
pub fn fat_dir_listing(children: &Vec<DirEntry>) -> (out: Vec<DirectoryEntry>)
    ensures
        out@.len() == children@.len(),
        forall|i: int|
            0 <= i < children@.len() ==> {
                let d = #[trigger] out@[i];
                &&& d.name@ == children@[i].name@
                &&& d.size == children@[i].file_size
                &&& d.flags == spec_fat_flags(children@[i].attr)
            },
{
    let mut out: Vec<DirectoryEntry> = Vec::new();
    let mut i: usize = 0;
    while i < children.len()
        invariant
            i <= children@.len(),
            out@.len() == i,
            forall|k: int|
                0 <= k < i ==> {
                    let d = #[trigger] out@[k];
                    &&& d.name@ == children@[k].name@
                    &&& d.size == children@[k].file_size
                    &&& d.flags == spec_fat_flags(children@[k].attr)
                },
        decreases children@.len() - i,
    {
        let c = &children[i];
        let name = c.name();
        out.push(DirectoryEntry { name, size: c.size_bytes(), flags: fat_flags(c.attr) });
        i = i + 1;
    }
    out
}

// ---------------------------------------------------------------------------
// Volumes
// ---------------------------------------------------------------------------

/// A mounted FAT volume and its geometry. Sector numbers are relative to
/// the start of the volume, except `first_lba` and `last_lba`.
pub struct FATVolume {
    pub kind: FATKind,
    pub label: Vec<u8>,
    pub first_lba: u64,
    pub last_lba: u64,
    pub disk_index: usize,
    /// Bytes per sector
    pub sector_size: u16,
    /// Sectors per cluster
    pub cluster_sectors: u8,
    /// Bytes per cluster
    pub cluster_size: u32,
    pub volume_sectors: u32,
    pub fat_count: u8,
    pub fat_start_sector: u32,
    /// Sectors of all FAT copies
    pub fat_sectors: u32,
    pub root_start_sector: u32,
    pub root_entry_count: u16,
    pub root_sectors: u16,
    /// First cluster of the FAT32 root directory (0 for FAT12/16)
    pub root32_cluster0: u32,
    pub data_start_sector: u32,
    pub data_sectors: u32,
    pub data_clusters: u32,
}

/// Boot sector fields (FAT12/16 layout, shared by FAT32 up to byte 36).
pub open spec fn bs_bytes_per_sector(bs: Seq<u8>) -> int { spec_le16(bs, 11) }
pub open spec fn bs_sectors_per_cluster(bs: Seq<u8>) -> int { bs[13] as int }
pub open spec fn bs_rsvd_sectors(bs: Seq<u8>) -> int { spec_le16(bs, 14) }
pub open spec fn bs_num_fats(bs: Seq<u8>) -> int { bs[16] as int }
pub open spec fn bs_root_entries(bs: Seq<u8>) -> int { spec_le16(bs, 17) }
pub open spec fn bs_total16(bs: Seq<u8>) -> int { spec_le16(bs, 19) }
pub open spec fn bs_fat16_size(bs: Seq<u8>) -> int { spec_le16(bs, 22) }
pub open spec fn bs_total32(bs: Seq<u8>) -> int { spec_le32(bs, 32) }
pub open spec fn bs_fat32_size(bs: Seq<u8>) -> int { spec_le32(bs, 36) }
pub open spec fn bs_root_cluster(bs: Seq<u8>) -> int { spec_le32(bs, 44) }

/// "FAT12   ", "FAT16   " and "FAT32   ".
pub open spec fn fat12_sig() -> Seq<u8> { seq![0x46u8, 0x41, 0x54, 0x31, 0x32, 0x20, 0x20, 0x20] }
pub open spec fn fat16_sig() -> Seq<u8> { seq![0x46u8, 0x41, 0x54, 0x31, 0x36, 0x20, 0x20, 0x20] }
pub open spec fn fat32_sig() -> Seq<u8> { seq![0x46u8, 0x41, 0x54, 0x33, 0x32, 0x20, 0x20, 0x20] }

/// The boot sector describes a FAT12 or FAT16 volume.
pub open spec fn is_fat1216_bs(bs: Seq<u8>) -> bool {
    bs[38] == 0x29 && (spec_bytes_at(bs, 54, fat12_sig()) || spec_bytes_at(bs, 54, fat16_sig()))
}

/// The boot sector describes a FAT32 volume (and not a FAT12/16 one).
pub open spec fn is_fat32_bs(bs: Seq<u8>) -> bool {
    !is_fat1216_bs(bs) && bs[66] == 0x29 && spec_bytes_at(bs, 82, fat32_sig())
}

/// Sectors of all FAT copies.
pub open spec fn bs_fat_sectors(bs: Seq<u8>) -> int {
    if is_fat1216_bs(bs) {
        bs_fat16_size(bs) * bs_num_fats(bs)
    } else {
        bs_fat32_size(bs) * bs_num_fats(bs)
    }
}

/// Sectors of the FAT12/16 root directory.
pub open spec fn bs_root_sectors(bs: Seq<u8>) -> int {
    (32 * bs_root_entries(bs) + bs_bytes_per_sector(bs) - 1) / bs_bytes_per_sector(bs)
}

pub open spec fn bs_data_start(bs: Seq<u8>) -> int {
    bs_rsvd_sectors(bs) + bs_fat_sectors(bs) + bs_root_sectors(bs)
}

pub open spec fn bs_total(bs: Seq<u8>) -> int {
    if is_fat1216_bs(bs) {
        bs_total16(bs)
    } else {
        bs_total32(bs)
    }
}

/// A recognised boot sector whose geometry computes without overflow or
/// division by zero.
pub open spec fn boot_sector_sound(bs: Seq<u8>) -> bool {
    &&& bs_bytes_per_sector(bs) > 0
    &&& bs_sectors_per_cluster(bs) > 0
    &&& 32 * bs_root_entries(bs) + bs_bytes_per_sector(bs) <= 0xFFFF
    &&& bs_data_start(bs) <= 0xFFFF_FFFF
    &&& bs_data_start(bs) <= bs_total(bs)
}

/// Whether a boot sector can be mounted without its geometry overflowing.
pub fn boot_sector_sound_check(bs: &[u8]) -> (r: bool)
    requires
        bs@.len() >= 90,
    ensures
        r == boot_sector_sound(bs@),
{
    let bps = le16(bs, 11) as u64;
    let spc = bs[13] as u64;
    let rsvd = le16(bs, 14) as u64;
    let nf = bs[16] as u64;
    let rec = le16(bs, 17) as u64;
    let fat1216 = is_fat1216(bs);
    let fat_size: u64 = if fat1216 { le16(bs, 22) as u64 } else { le32(bs, 36) as u64 };
    let total: u64 = if fat1216 { le16(bs, 19) as u64 } else { le32(bs, 32) as u64 };
    if bps == 0 || spc == 0 || 32 * rec + bps > 0xFFFF {
        return false;
    }
    assert(fat_size * nf <= 0xFFFF_FFFF * 0xFF) by (nonlinear_arith)
        requires
            fat_size <= 0xFFFF_FFFF,
            nf <= 0xFF,
    ;
    let data_start = rsvd + fat_size * nf + (32 * rec + bps - 1) / bps;
    data_start <= 0xFFFF_FFFF && data_start <= total
}

fn is_fat1216(bs: &[u8]) -> (r: bool)
    requires
        bs@.len() >= 90,
    ensures
        r == is_fat1216_bs(bs@),
{
    let s12: [u8; 8] = [0x46, 0x41, 0x54, 0x31, 0x32, 0x20, 0x20, 0x20];
    let s16: [u8; 8] = [0x46, 0x41, 0x54, 0x31, 0x36, 0x20, 0x20, 0x20];
    assert(s12@ =~= fat12_sig());
    assert(s16@ =~= fat16_sig());
    bs[38] == 0x29 && (bytes_at(bs, 54, &s12) || bytes_at(bs, 54, &s16))
}

/// The mount-point name of partition `part_index` of disk `disk_index`.
pub open spec fn spec_fat_mount_name(disk_index: nat, part_index: nat) -> Seq<u8> {
    seq![0x64u8, 0x69, 0x73, 0x6b] + dec_text(disk_index) + seq![0x2eu8] + dec_text(part_index)
}

/// `disk<d>.<p>`, the name under which a FAT volume is mounted.
pub fn fat_mount_name(disk_index: usize, part_index: usize) -> (n: Vec<u8>)
    ensures
        n@ == spec_fat_mount_name(disk_index as nat, part_index as nat),
{
    let mut n: Vec<u8> = Vec::new();
    n.push(0x64);
    n.push(0x69);
    n.push(0x73);
    n.push(0x6b);
    push_dec(&mut n, disk_index as u64);
    n.push(0x2e);
    push_dec(&mut n, part_index as u64);
    assert(n@ =~= spec_fat_mount_name(disk_index as nat, part_index as nat));
    n
}

/// `v` is the volume spanning `start_lba..=end_lba` of disk `disk_index`
/// that the boot sector `bs` describes.
pub open spec fn volume_of_boot_sector(v: FATVolume, bs: Seq<u8>, disk_index: usize, start_lba: u64, end_lba: u64) -> bool {
    &&& v.kind == if is_fat32_bs(bs) {
        FATKind::FAT32
    } else if spec_bytes_at(bs, 54, fat12_sig()) {
        FATKind::FAT12
    } else {
        FATKind::FAT16
    }
    &&& v.label@ == if is_fat32_bs(bs) {
        bs.subrange(71, 82)
    } else {
        bs.subrange(43, 54)
    }
    &&& v.first_lba == start_lba && v.last_lba == end_lba
    &&& v.disk_index == disk_index
    &&& v.sector_size == bs_bytes_per_sector(bs)
    &&& v.cluster_sectors == bs_sectors_per_cluster(bs)
    &&& v.cluster_size == bs_sectors_per_cluster(bs) * bs_bytes_per_sector(bs)
    &&& v.volume_sectors == bs_total(bs)
    &&& v.fat_count == bs_num_fats(bs)
    &&& v.fat_start_sector == bs_rsvd_sectors(bs)
    &&& v.fat_sectors == bs_fat_sectors(bs)
    &&& v.root_start_sector == bs_rsvd_sectors(bs) + bs_fat_sectors(bs)
    &&& v.root_entry_count == bs_root_entries(bs)
    &&& v.root_sectors == bs_root_sectors(bs)
    &&& v.root32_cluster0 == if is_fat32_bs(bs) { bs_root_cluster(bs) } else { 0 }
    &&& v.data_start_sector == bs_data_start(bs)
    &&& v.data_sectors == bs_total(bs) - bs_data_start(bs)
    &&& v.data_clusters == (bs_total(bs) - bs_data_start(bs)) / bs_sectors_per_cluster(bs)
}

impl FATVolume {
    /// Reads the geometry of the volume spanning `start_lba..=end_lba` from
    /// its boot sector. `None` when the partition is too small or not FAT.
    pub fn from_boot_sector(bs: &[u8], disk_index: usize, start_lba: u64, end_lba: u64) -> (r: Option<FATVolume>)
        requires
            bs@.len() >= 90,
            is_fat1216_bs(bs@) || is_fat32_bs(bs@) ==> boot_sector_sound(bs@),
        ensures
            !(end_lba > start_lba && end_lba - start_lba > 2) ==> r is None,
            end_lba > start_lba && end_lba - start_lba > 2 ==> {
                &&& r is Some <==> (is_fat1216_bs(bs@) || is_fat32_bs(bs@))
                &&& r matches Some(v) ==> volume_of_boot_sector(v, bs@, disk_index, start_lba, end_lba)
            },
    {
        if !(end_lba > start_lba && end_lba - start_lba > 2) {
            return None;
        }
        let fat1216 = is_fat1216(bs);
        let s32: [u8; 8] = [0x46, 0x41, 0x54, 0x33, 0x32, 0x20, 0x20, 0x20];
        assert(s32@ =~= fat32_sig());
        let fat32 = !fat1216 && bs[66] == 0x29 && bytes_at(bs, 82, &s32);
        if !fat1216 && !fat32 {
            return None;
        }
        let s12: [u8; 8] = [0x46, 0x41, 0x54, 0x31, 0x32, 0x20, 0x20, 0x20];
        assert(s12@ =~= fat12_sig());
        let kind = if fat32 {
            FATKind::FAT32
        } else if bytes_at(bs, 54, &s12) {
            FATKind::FAT12
        } else {
            FATKind::FAT16
        };
        let bps = le16(bs, 11);
        let spc = bs[13];
        let nf = bs[16];
        let rec = le16(bs, 17);
        let fat_start_sector: u32 = le16(bs, 14) as u32;
        let fat_size: u32 = if fat1216 { le16(bs, 22) as u32 } else { le32(bs, 36) };
        let total: u32 = if fat1216 { le16(bs, 19) as u32 } else { le32(bs, 32) };
        assert(fat_size as int * nf as int == bs_fat_sectors(bs@));
        assert(bs_fat_sectors(bs@) <= 0xFFFF_FFFF);
        let fat_sectors: u32 = fat_size * nf as u32;
        let root_start_sector: u32 = fat_start_sector + fat_sectors;
        let root_sectors: u16 = (32 * rec + bps - 1) / bps;
        let data_start_sector: u32 = root_start_sector + root_sectors as u32;
        let data_sectors: u32 = total - data_start_sector;
        let cluster_count: u32 = data_sectors / spc as u32;
        assert(spc as int * bps as int <= 0xFF * 0xFFFF) by (nonlinear_arith)
            requires
                spc <= 0xFF,
                bps <= 0xFFFF,
        ;
        let label = if fat32 { sub_vec(bs, 71, 11) } else { sub_vec(bs, 43, 11) };
        Some(FATVolume {
            kind,
            label,
            first_lba: start_lba,
            last_lba: end_lba,
            disk_index,
            sector_size: bps,
            cluster_sectors: spc,
            cluster_size: spc as u32 * bps as u32,
            volume_sectors: total,
            fat_count: nf,
            fat_start_sector,
            fat_sectors,
            root_start_sector,
            root_entry_count: rec,
            root_sectors,
            root32_cluster0: if fat32 { le32(bs, 44) } else { 0 },
            data_start_sector,
            data_sectors,
            data_clusters: cluster_count,
        })
    }

    /// Mounts the FAT volume whose boot sector is `bs`, on partition
    /// `part_index` (sectors `start_lba..=end_lba`) of disk `disk_index`, as
    /// `disk<d>.<p>`, and registers it in `vols`. Returns whether it did: the
    /// partition must span more than 2 sectors, the sector must describe a
    /// FAT12/16/32 volume whose geometry computes, and the name must be free.
    pub fn mount(
        table: &mut MountTable,
        vols: &mut Vec<FATVolume>,
        bs: &[u8],
        disk_index: usize,
        part_index: usize,
        start_lba: u64,
        end_lba: u64,
    ) -> (ok: bool)
        requires
            old(table).wf(),
            bs@.len() >= 90,
        ensures
            final(table).wf(),
            ({
                let name = spec_fat_mount_name(disk_index as nat, part_index as nat);
                &&& ok == (end_lba > start_lba && end_lba - start_lba > 2 && (is_fat1216_bs(bs@)
                    || is_fat32_bs(bs@)) && boot_sector_sound(bs@) && !mount_names(
                    old(table).entries(),
                ).contains(name))
                &&& ok ==> mount_map(final(table).entries()) == mount_map(old(table).entries()).insert(
                    name,
                    DRV_FAT,
                )
            }),
            ok ==> final(vols)@.len() == old(vols)@.len() + 1 && final(vols)@.drop_last()
                == old(vols)@ && volume_of_boot_sector(final(vols)@.last(), bs@, disk_index, start_lba, end_lba),
            !ok ==> final(table).entries() == old(table).entries() && final(vols)@ == old(vols)@,
    {
        if !(end_lba > start_lba && end_lba - start_lba > 2) {
            return false;
        }
        if !boot_sector_sound_check(bs) {
            return false;
        }
        let vol = match FATVolume::from_boot_sector(bs, disk_index, start_lba, end_lba) {
            Some(v) => v,
            None => return false,
        };
        let name = fat_mount_name(disk_index, part_index);
        if !MountPoint::mount(table, MountPoint::new(name.as_slice(), DRV_FAT)) {
            return false;
        }
        vols.push(vol);
        assert(vols@.drop_last() =~= old(vols)@);
        true
    }

    /// Classifies a raw FAT entry value of this volume.
    pub fn fat_entry_from_value(&self, value: u32) -> (e: FATEntry)
        ensures
            e == spec_fat_entry(self.kind, value),
    {
        fat_entry_from_value(self.kind, value)
    }
}

// ---------------------------------------------------------------------------
// The allocation table
// ---------------------------------------------------------------------------

/// Byte offset of entry `i` in the FAT.
pub open spec fn fat_entry_offset(kind: FATKind, i: int) -> int {
    match kind {
        FATKind::FAT12 => i + i / 2,
        FATKind::FAT16 => 2 * i,
        _ => 4 * i,
    }
}

/// Bytes read to get one entry.
pub open spec fn fat_entry_len(kind: FATKind) -> int {
    if kind == FATKind::FAT12 || kind == FATKind::FAT16 {
        2
    } else {
        4
    }
}

/// The raw value of entry `i`, from the entry's bytes at `off` in `s`:
/// FAT12 packs two 12-bit entries in three bytes.
pub open spec fn spec_fat_value(kind: FATKind, s: Seq<u8>, off: int, i: int) -> u32 {
    match kind {
        FATKind::FAT12 => if i % 2 == 0 {
            (s[off] as u32) | (((s[off + 1] as u32) & 0x0F) << 8u32)
        } else {
            ((s[off] as u32) >> 4u32) | ((s[off + 1] as u32) << 4u32)
        },
        FATKind::FAT16 => spec_le16(s, off) as u32,
        _ => (spec_le32(s, off) as u32) & 0x0FFF_FFFF,
    }
}

fn fat_value(kind: FATKind, s: &[u8], off: usize, i: u64) -> (v: u32)
    requires
        off + fat_entry_len(kind) <= s@.len(),
    ensures
        v == spec_fat_value(kind, s@, off as int, i as int),
{
    let _n = s.len();
    match kind {
        FATKind::FAT12 => if i % 2 == 0 {
            (s[off] as u32) | (((s[off + 1] as u32) & 0x0F) << 8u32)
        } else {
            ((s[off] as u32) >> 4u32) | ((s[off + 1] as u32) << 4u32)
        },
        FATKind::FAT16 => le16(s, off) as u32,
        _ => le32(s, off) & 0x0FFF_FFFF,
    }
}

/// Entry `i` of the table `fat` (the first FAT copy); an entry beyond the
/// table reads as invalid.
pub open spec fn table_entry(kind: FATKind, fat: Seq<u8>, i: int) -> FATEntry {
    if fat_entry_offset(kind, i) + fat_entry_len(kind) <= fat.len() {
        spec_fat_entry(kind, spec_fat_value(kind, fat, fat_entry_offset(kind, i), i))
    } else {
        FATEntry::Invalid
    }
}

/// Looks up entry `i` of the table `fat`.
pub fn fat_table_entry(kind: FATKind, fat: &[u8], i: u32) -> (e: FATEntry)
    ensures
        e == table_entry(kind, fat@, i as int),
{
    let i64v = i as u64;
    let off: u64 = match kind {
        FATKind::FAT12 => i64v + i64v / 2,
        FATKind::FAT16 => 2 * i64v,
        _ => 4 * i64v,
    };
    let len: u64 = if kind == FATKind::FAT12 || kind == FATKind::FAT16 { 2 } else { 4 };
    if off + len > fat.len() as u64 {
        return FATEntry::Invalid;
    }
    fat_entry_from_value(kind, fat_value(kind, fat, off as usize, i64v))
}

/// The clusters of the chain starting at `cur`, following at most `fuel`
/// links.
pub open spec fn cluster_chain(kind: FATKind, fat: Seq<u8>, cur: u32, fuel: nat) -> Seq<u32>
    decreases fuel,
{
    seq![cur] + if fuel > 0 {
        match table_entry(kind, fat, cur as int) {
            FATEntry::InUse(next) => cluster_chain(kind, fat, next, (fuel - 1) as nat),
            _ => Seq::empty(),
        }
    } else {
        Seq::empty()
    }
}

/// A chain follows the table: it starts at `cur`, each cluster's entry
/// links to the next one, and, unless the links to follow ran out, the
/// last cluster's entry is not a link.
pub proof fn lemma_cluster_chain_links(kind: FATKind, fat: Seq<u8>, cur: u32, fuel: nat)
    ensures
        ({
            let c = cluster_chain(kind, fat, cur, fuel);
            &&& 1 <= c.len() <= fuel + 1
            &&& c[0] == cur
            &&& forall|i: int|
                0 <= i < c.len() - 1 ==> table_entry(kind, fat, #[trigger] c[i] as int) == FATEntry::InUse(
                    c[i + 1],
                )
            &&& c.len() <= fuel ==> !(table_entry(kind, fat, c.last() as int) is InUse)
        }),
    decreases fuel,
{
    let c = cluster_chain(kind, fat, cur, fuel);
    if fuel > 0 {
        match table_entry(kind, fat, cur as int) {
            FATEntry::InUse(next) => {
                lemma_cluster_chain_links(kind, fat, next, (fuel - 1) as nat);
                let t = cluster_chain(kind, fat, next, (fuel - 1) as nat);
                assert(c == seq![cur] + t);
                assert forall|i: int| 0 <= i < c.len() - 1 implies table_entry(
                    kind,
                    fat,
                    #[trigger] c[i] as int,
                ) == FATEntry::InUse(c[i + 1]) by {
                    if i > 0 {
                        assert(c[i] == t[i - 1] && c[i + 1] == t[i]);
                    }
                }
                assert(c.last() == t.last());
            },
            _ => {
                assert(c =~= seq![cur]);
            },
        }
    } else {
        assert(c =~= seq![cur]);
    }
}

/// The cluster chain from `start` in the table `fat`. A chain cannot have
/// more links than the table has bytes; following stops there.
pub fn chain_from_table(kind: FATKind, fat: &[u8], start: u32) -> (clst: Vec<u32>)
    ensures
        clst@ == cluster_chain(kind, fat@, start, fat@.len()),
{
    let mut clst: Vec<u32> = Vec::new();
    let mut cur = start;
    let mut fuel: usize = fat.len();
    let mut done = false;
    while !done
        invariant
            !done ==> cluster_chain(kind, fat@, start, fat@.len()) == clst@ + cluster_chain(
                kind,
                fat@,
                cur,
                fuel as nat,
            ),
            done ==> cluster_chain(kind, fat@, start, fat@.len()) == clst@,
        decreases fuel + if done { 0int } else { 1int },
    {
        let ghost before = clst@;
        let ghost f = fuel as nat;
        let ghost c = cur;
        clst.push(cur);
        if fuel == 0 {
            done = true;
            assert(cluster_chain(kind, fat@, c, f) =~= seq![c]);
            assert(before + seq![c] =~= clst@);
        } else {
            match fat_table_entry(kind, fat, cur) {
                FATEntry::InUse(next) => {
                    cur = next;
                    fuel = fuel - 1;
                    assert(before + cluster_chain(kind, fat@, c, f) =~= clst@ + cluster_chain(
                        kind,
                        fat@,
                        cur,
                        fuel as nat,
                    ));
                },
                _ => {
                    done = true;
                    assert(cluster_chain(kind, fat@, c, f) =~= seq![c]);
                    assert(before + seq![c] =~= clst@);
                },
            }
        }
    }
    clst
}

impl FATVolume {
    /// Where entry `i` of the first FAT lies: the sector and the byte in it.
    pub fn fat_entry_position(&self, i: usize) -> (p: (u64, u32))
        requires
            self.kind != FATKind::Unknown,
            self.sector_size > 0,
            4 * i <= usize::MAX,
            self.first_lba + self.fat_start_sector + fat_entry_offset(self.kind, i as int)
                <= u64::MAX,
        ensures
            p.0 == self.first_lba + self.fat_start_sector + fat_entry_offset(self.kind, i as int)
                / self.sector_size as int,
            p.1 == fat_entry_offset(self.kind, i as int) % self.sector_size as int,
    {
        let off: usize = match self.kind {
            FATKind::FAT12 => i + i / 2,
            FATKind::FAT16 => i * 2,
            _ => i * 4,
        };
        let ss = self.sector_size as usize;
        let q = off / ss;
        assert(q <= off) by (nonlinear_arith)
            requires
                q == off / ss,
                ss > 0,
        ;
        (self.first_lba + self.fat_start_sector as u64 + q as u64, (off % ss) as u32)
    }

    /// The entry of cluster `i`, from the bytes read at its position.
    pub fn load_fat_entry(&self, i: usize, bytes: &[u8]) -> (e: FATEntry)
        requires
            self.kind != FATKind::Unknown,
            bytes@.len() >= fat_entry_len(self.kind),
        ensures
            e == spec_fat_entry(self.kind, spec_fat_value(self.kind, bytes@, 0, i as int)),
    {
        fat_entry_from_value(self.kind, fat_value(self.kind, bytes, 0, i as u64))
    }
}

// ---------------------------------------------------------------------------
// Files
// ---------------------------------------------------------------------------

/// Where a file's content is: the fixed root directory area of FAT12/16,
/// or a list of clusters.
pub enum AUMap {
    FAT1216Root { start_sec: u32, entry_count: u16 },
    FATFile { cluster_list: Vec<u32> },
}

/// An open FAT file or directory with the geometry needed to find its bytes.
pub struct FATFile {
    pub dir_entry: DirEntry,
    pub au_map: AUMap,
    pub disk_index: usize,
    pub first_lba: u64,
    pub sector_size: u16,
    pub cluster_sectors: u8,
    pub cluster_size: u32,
    pub data_start_sector: u32,
}

/// "<ROOT_DIRE>", the name given to the root directory.
pub open spec fn root_dir_name() -> Seq<u8> {
    seq![0x3cu8, 0x52, 0x4f, 0x4f, 0x54, 0x5f, 0x44, 0x49, 0x52, 0x45, 0x3e]
}

/// The capacity of a file: root-area sectors, or bytes of its clusters.
pub open spec fn spec_capacity(f: FATFile) -> int {
    match f.au_map {
        AUMap::FAT1216Root { start_sec, entry_count } => (32 * entry_count + f.sector_size - 1)
            / (f.sector_size as int),
        AUMap::FATFile { cluster_list } => cluster_list@.len() * f.cluster_size,
    }
}

/// The capacity computes without overflow or division by zero.
pub open spec fn capacity_ok(f: FATFile) -> bool {
    match f.au_map {
        AUMap::FAT1216Root { start_sec, entry_count } => f.sector_size > 0 && 32 * entry_count
            + f.sector_size <= 0xFFFF,
        AUMap::FATFile { cluster_list } => cluster_list@.len() * f.cluster_size <= usize::MAX,
    }
}

pub open spec fn spec_is_directory(f: FATFile) -> bool {
    f.dir_entry.attr & ATTR_DIRECTORY > 0
}

/// Bytes a read of `n` bytes at `off` gets: cut at the end of a file.
pub open spec fn spec_read_len(f: FATFile, off: int, n: int) -> int {
    if !spec_is_directory(f) && off + n > f.dir_entry.file_size {
        f.dir_entry.file_size - off
    } else {
        n
    }
}

/// A read of a regular file never gets bytes past its end: at an offset
/// within the file it gets the bytes asked for, or, when fewer are left,
/// the bytes up to the end.
pub proof fn lemma_read_stops_at_end_of_file(f: FATFile, off: int, n: int)
    requires
        !spec_is_directory(f),
        0 <= off <= f.dir_entry.file_size,
        0 <= n,
    ensures
        spec_read_len(f, off, n) == vstd::math::min(n, f.dir_entry.file_size - off),
        0 <= spec_read_len(f, off, n) <= n,
        off + spec_read_len(f, off, n) <= f.dir_entry.file_size,
{
}

/// The first sector (relative to the volume) of the cluster holding `off`.
pub open spec fn spec_first_sector_index(f: FATFile, off: int) -> int {
    match f.au_map {
        AUMap::FAT1216Root { start_sec, entry_count } => start_sec as int,
        AUMap::FATFile { cluster_list } => f.data_start_sector + (cluster_list@[off
            / (f.cluster_size as int)] - 2) * f.cluster_sectors,
    }
}

/// The disk byte address of file offset `off`.
pub open spec fn spec_disk_offset(f: FATFile, off: int) -> int {
    (f.first_lba + spec_first_sector_index(f, off)) * f.sector_size + off % (f.cluster_size as int)
}

/// A read of `n` bytes at `off` that the file can serve: it stays inside one
/// cluster, does not start past the end of a file, and its address fits.
pub open spec fn read_ok(f: FATFile, off: int, n: int) -> bool {
    &&& capacity_ok(f)
    &&& f.cluster_size > 0
    &&& off < spec_capacity(f) ==> {
        &&& spec_is_directory(f) || off <= f.dir_entry.file_size
        &&& off % (f.cluster_size as int) + spec_read_len(f, off, n) <= f.cluster_size
        &&& (f.au_map matches AUMap::FATFile { cluster_list } ==> cluster_list@[off
            / (f.cluster_size as int)] >= 2)
        &&& 0 <= spec_first_sector_index(f, off) <= u64::MAX
        &&& f.first_lba + spec_first_sector_index(f, off) <= u64::MAX
        &&& 0 <= spec_disk_offset(f, off) <= u64::MAX
    }
}

impl FATFile {
    /// The file a directory record describes; its cluster chain comes from
    /// the first FAT (`fat`). A record with cluster 0 is the FAT12/16 root.
    pub fn from_dir_entry(vol: &FATVolume, dir: DirEntry, fat: &[u8]) -> (f: FATFile)
        ensures
            f.dir_entry == dir,
            spec_first_cluster(dir) == 0 ==> f.au_map == (AUMap::FAT1216Root {
                start_sec: vol.root_start_sector,
                entry_count: vol.root_entry_count,
            }),
            spec_first_cluster(dir) != 0 ==> (f.au_map matches AUMap::FATFile { cluster_list }
                && cluster_list@ == cluster_chain(vol.kind, fat@, spec_first_cluster(dir), fat@.len())),
            f.disk_index == vol.disk_index && f.first_lba == vol.first_lba,
            f.sector_size == vol.sector_size && f.cluster_sectors == vol.cluster_sectors,
            f.cluster_size == vol.cluster_size && f.data_start_sector == vol.data_start_sector,
    {
        let cur = dir.first_cluster();
        let au_map = if cur == 0 {
            AUMap::FAT1216Root { start_sec: vol.root_start_sector, entry_count: vol.root_entry_count }
        } else {
            AUMap::FATFile { cluster_list: chain_from_table(vol.kind, fat, cur) }
        };
        FATFile {
            dir_entry: dir,
            au_map,
            disk_index: vol.disk_index,
            first_lba: vol.first_lba,
            sector_size: vol.sector_size,
            cluster_sectors: vol.cluster_sectors,
            cluster_size: vol.cluster_size,
            data_start_sector: vol.data_start_sector,
        }
    }

    /// The root directory of the volume.
    pub fn from_root(vol: &FATVolume, fat: &[u8]) -> (f: FATFile)
        ensures
            f.dir_entry.attr == ATTR_DIRECTORY,
            f.dir_entry.name@ == root_dir_name(),
            f.dir_entry.file_size == 0,
            spec_first_cluster(f.dir_entry) == vol.root32_cluster0,
            vol.root32_cluster0 == 0 ==> f.au_map == (AUMap::FAT1216Root {
                start_sec: vol.root_start_sector,
                entry_count: vol.root_entry_count,
            }),
            vol.root32_cluster0 != 0 ==> (f.au_map matches AUMap::FATFile { cluster_list }
                && cluster_list@ == cluster_chain(vol.kind, fat@, vol.root32_cluster0, fat@.len())),
    {
        let c = vol.root32_cluster0;
        let hi = (c / 0x10000) as u16;
        let lo = (c % 0x10000) as u16;
        let name: [u8; 11] = [0x3c, 0x52, 0x4f, 0x4f, 0x54, 0x5f, 0x44, 0x49, 0x52, 0x45, 0x3e];
        assert(name@ =~= root_dir_name());
        let dir_entry = DirEntry {
            name,
            attr: ATTR_DIRECTORY,
            nt_res: 0,
            create_time_tenth: 0,
            create_time: 0,
            create_date: 0,
            access_date: 0,
            first_cluster_hi: hi,
            write_time: 0,
            write_date: 0,
            first_cluster_lo: lo,
            file_size: 0,
        };
        FATFile::from_dir_entry(vol, dir_entry, fat)
    }

    /// Root-area sectors for the FAT12/16 root, else bytes of the clusters.
    pub fn capacity(&self) -> (c: usize)
        requires
            capacity_ok(*self),
        ensures
            c == spec_capacity(*self),
    {
        match &self.au_map {
            AUMap::FAT1216Root { start_sec: _, entry_count } => {
                ((32 * *entry_count + self.sector_size - 1) / self.sector_size) as usize
            },
            AUMap::FATFile { cluster_list } => {
                assert(cluster_list@.len() * self.cluster_size <= usize::MAX);
                cluster_list.len() * self.cluster_size as usize
            },
        }
    }

    pub fn size_bytes(&self) -> (n: usize)
        ensures
            n == self.dir_entry.file_size,
    {
        self.dir_entry.size_bytes()
    }

    pub fn is_directory(&self) -> (r: bool)
        ensures
            r == spec_is_directory(*self),
    {
        self.dir_entry.attr & ATTR_DIRECTORY > 0
    }

    /// The first sector (relative to the volume) of a data cluster.
    pub fn first_sector_of_cluster(&self, cluster: u32) -> (s: u64)
        requires
            cluster >= 2,
        ensures
            s == self.data_start_sector + (cluster - 2) * self.cluster_sectors,
    {
        let c2 = (cluster - 2) as u64;
        let cs = self.cluster_sectors as u64;
        assert(c2 * cs <= 0xFFFF_FFFF * 0xFF) by (nonlinear_arith)
            requires
                c2 <= 0xFFFF_FFFF,
                cs <= 0xFF,
        ;
        self.data_start_sector as u64 + (cluster - 2) as u64 * self.cluster_sectors as u64
    }

    /// Where a read of `num_bytes` at `file_offset` is served from: the disk
    /// byte address and the byte count (cut at the end of a file).
    /// `OutOfBoundIO` past the capacity.
    pub fn read(&self, file_offset: usize, num_bytes: usize) -> (r: Result<(u64, usize), IOCompletion>)
        requires
            read_ok(*self, file_offset as int, num_bytes as int),
        ensures
            file_offset >= spec_capacity(*self) ==> r == Err::<(u64, usize), IOCompletion>(
                IOCompletion::OutOfBoundIO,
            ),
            file_offset < spec_capacity(*self) ==> r == Ok::<(u64, usize), IOCompletion>(
                (
                    spec_disk_offset(*self, file_offset as int) as u64,
                    spec_read_len(*self, file_offset as int, num_bytes as int) as usize,
                ),
            ),
    {
        if file_offset >= self.capacity() {
            return Err(IOCompletion::OutOfBoundIO);
        }
        let len: usize = if !self.is_directory() && file_offset > self.size_bytes() {
            0
        } else if !self.is_directory() && num_bytes > self.size_bytes() - file_offset {
            self.size_bytes() - file_offset
        } else {
            num_bytes
        };
        let cs = self.cluster_size as usize;
        let cluster_index = file_offset / cs;
        let cluster_offset = file_offset % cs;
        let first_sector_index: u64 = match &self.au_map {
            AUMap::FAT1216Root { start_sec, entry_count: _ } => *start_sec as u64,
            AUMap::FATFile { cluster_list } => {
                assert(cluster_index < cluster_list@.len()) by (nonlinear_arith)
                    requires
                        cluster_index == file_offset / cs,
                        file_offset < cluster_list@.len() * cs,
                        cs > 0,
                ;
                self.first_sector_of_cluster(cluster_list[cluster_index])
            },
        };
        let disk_off = (self.first_lba + first_sector_index) * self.sector_size as u64
            + cluster_offset as u64;
        Ok((disk_off, len))
    }
}

// ---------------------------------------------------------------------------
// Directory content
// ---------------------------------------------------------------------------

/// The record at `off` is listed: neither free nor the end marker, and
/// without the low attribute bits that long-name records carry.
pub open spec fn record_listed(s: Seq<u8>, off: int) -> bool {
    s[off] != NAME_0_FREE_ENTRY && s[off] != NAME_0_LAST_ENTRY && s[off + 11]
        & ATTR_LONG_FILE_NAME == 0
}

/// Offsets of the listed records of a directory's content from `off` on,
/// up to the end marker.
pub open spec fn listed_offsets(s: Seq<u8>, off: int) -> Seq<int>
    decreases s.len() - off,
{
    if off < 0 || off + 32 > s.len() || s[off] == NAME_0_LAST_ENTRY {
        Seq::empty()
    } else if record_listed(s, off) {
        seq![off] + listed_offsets(s, off + 32)
    } else {
        listed_offsets(s, off + 32)
    }
}

/// Offset of the first listed record from `off` on whose short name matches
/// `sfn`, before the end marker.
pub open spec fn child_offset(s: Seq<u8>, off: int, sfn: Seq<u8>) -> Option<int>
    decreases s.len() - off,
{
    if off < 0 || off + 32 > s.len() {
        None
    } else if record_listed(s, off) && sfn_matches(s.subrange(off, off + 11), sfn) {
        Some(off)
    } else if s[off] == NAME_0_LAST_ENTRY {
        None
    } else {
        child_offset(s, off + 32, sfn)
    }
}

impl FATFile {
    /// The listed records of this directory, given its content; `None`
    /// for a file.
    pub fn dir_entries(&self, content: &[u8]) -> (r: Option<Vec<DirEntry>>)
        ensures
            !spec_is_directory(*self) ==> r is None,
            spec_is_directory(*self) ==> (r matches Some(v) && v@.len() == listed_offsets(
                content@,
                0,
            ).len() && forall|k: int|
                0 <= k < v@.len() ==> dir_entry_at(
                    #[trigger] v@[k],
                    content@,
                    listed_offsets(content@, 0)[k],
                )),
    {
        if !self.is_directory() {
            return None;
        }
        let n = content.len();
        let mut v: Vec<DirEntry> = Vec::new();
        let ghost mut offs: Seq<int> = Seq::empty();
        let mut off: usize = 0;
        let mut done = false;
        while !done && off <= n && n - off >= 32
            invariant
                n == content@.len(),
                v@.len() == offs.len(),
                forall|k: int| 0 <= k < v@.len() ==> dir_entry_at(#[trigger] v@[k], content@, offs[k]),
                !done ==> listed_offsets(content@, 0) == offs + listed_offsets(content@, off as int),
                done ==> listed_offsets(content@, 0) == offs,
            decreases n - off + if done { 0int } else { 1int },
        {
            let first = content[off];
            if first == NAME_0_LAST_ENTRY {
                done = true;
                assert(offs + listed_offsets(content@, off as int) =~= offs);
            } else {
                let ghost rest = listed_offsets(content@, off + 32);
                if first != NAME_0_FREE_ENTRY && content[off + 11] & ATTR_LONG_FILE_NAME == 0 {
                    let e = DirEntry::from_bytes(content, off);
                    v.push(e);
                    proof {
                        assert(offs.push(off as int) + rest =~= offs + (seq![off as int] + rest));
                        offs = offs.push(off as int);
                    }
                }
                off = off + 32;
            }
        }
        proof {
            if !done {
                assert(listed_offsets(content@, off as int) =~= Seq::<int>::empty());
                assert(offs + Seq::<int>::empty() =~= offs);
            }
        }
        Some(v)
    }

    /// The first listed record of this directory whose short name matches
    /// `sfn`, given the directory's content; `None` for a file.
    pub fn find_child_by_name(&self, content: &[u8], sfn: &[u8]) -> (r: Option<DirEntry>)
        ensures
            !spec_is_directory(*self) ==> r is None,
            spec_is_directory(*self) ==> match child_offset(content@, 0, sfn@) {
                Some(o) => r matches Some(e) && dir_entry_at(e, content@, o),
                None => r is None,
            },
    {
        if !self.is_directory() {
            return None;
        }
        let n = content.len();
        let mut off: usize = 0;
        while off <= n && n - off >= 32
            invariant
                n == content@.len(),
                spec_is_directory(*self),
                child_offset(content@, 0, sfn@) == child_offset(content@, off as int, sfn@),
            decreases n - off,
        {
            let e = DirEntry::from_bytes(content, off);
            let listed = e.name[0] != NAME_0_FREE_ENTRY && e.name[0] != NAME_0_LAST_ENTRY
                && e.attr & ATTR_LONG_FILE_NAME == 0;
            assert(e.name@[0] == content@[off as int]);
            if listed && e.sfn_match(sfn) {
                return Some(e);
            } else if e.name[0] == NAME_0_LAST_ENTRY {
                return None;
            }
            off = off + 32;
        }
        None
    }
}

// ---------------------------------------------------------------------------
// Walking a path
// ---------------------------------------------------------------------------

/// `f` is the file the directory record `dir` describes on `vol` (its chain
/// from the FAT `fat`), as `FATFile::from_dir_entry` makes it.
pub open spec fn spec_file_of(f: FATFile, vol: FATVolume, dir: DirEntry, fat: Seq<u8>) -> bool {
    &&& f.dir_entry == dir
    &&& spec_first_cluster(dir) == 0 ==> f.au_map == (AUMap::FAT1216Root {
        start_sec: vol.root_start_sector,
        entry_count: vol.root_entry_count,
    })
    &&& spec_first_cluster(dir) != 0 ==> (f.au_map matches AUMap::FATFile { cluster_list }
        && cluster_list@ == cluster_chain(vol.kind, fat, spec_first_cluster(dir), fat.len()))
    &&& f.disk_index == vol.disk_index && f.first_lba == vol.first_lba
    &&& f.sector_size == vol.sector_size && f.cluster_sectors == vol.cluster_sectors
    &&& f.cluster_size == vol.cluster_size && f.data_start_sector == vol.data_start_sector
}

/// The first component of a path (up to its first `/`).
pub open spec fn next_component(r: Seq<u8>) -> Seq<u8> {
    if contains_byte(r, 0x2f) {
        r.subrange(0, first_index(r, 0x2f))
    } else {
        r
    }
}

/// What follows the first component: the rest after its `/`, or nothing
/// when it was the last.
pub open spec fn after_component(r: Seq<u8>) -> Option<Seq<u8>> {
    if contains_byte(r, 0x2f) {
        Some(r.subrange(first_index(r, 0x2f) + 1, r.len() as int))
    } else {
        None
    }
}

/// A path without its leading `/`.
pub open spec fn spec_strip_slash(p: Seq<u8>) -> Seq<u8> {
    if p.len() > 0 && p[0] == 0x2f {
        p.subrange(1, p.len() as int)
    } else {
        p
    }
}

/// Where the walk of a path is.
#[derive(Clone, Copy, Debug, PartialEq, Eq, Structural)]
pub enum PathWalkState {
    Walking,
    Found,
    NotFound,
}

/// The walk of a path from the root directory: the file reached so far,
/// the components left (`None` once the last was taken), and the outcome.
pub struct FatPathWalk {
    pub cur: FATFile,
    pub rest: Option<Vec<u8>>,
    pub state: PathWalkState,
}

impl FatPathWalk {
    /// The walk needs the content of the current directory for its next
    /// component.
    pub open spec fn spec_needs_content(&self) -> bool {
        &&& self.state == PathWalkState::Walking
        &&& self.rest matches Some(r) && next_component(r@).len() > 0
        &&& spec_is_directory(self.cur)
    }

    /// Whether the next step needs the content of the current directory.
    pub fn needs_content(&self) -> (b: bool)
        ensures
            b == self.spec_needs_content(),
    {
        if self.state != PathWalkState::Walking {
            return false;
        }
        match &self.rest {
            None => false,
            Some(r) => {
                let first = match find_byte(r.as_slice(), 0x2f) {
                    Some(k) => k,
                    None => r.len(),
                };
                proof {
                    if contains_byte(r@, 0x2f) {
                        lemma_first_index_unique(r@, 0x2f, first as int);
                    }
                }
                first > 0 && self.cur.is_directory()
            },
        }
    }

    /// Takes the next component of the path. An empty one ends the walk at
    /// the current file; in a directory the component names the child to go
    /// to (from the directory's content, `content`), and the walk fails
    /// when there is none; under a file the component changes nothing. The
    /// walk ends at the file reached once the last component is taken.
    pub fn step(&mut self, vol: &FATVolume, fat: &[u8], content: &[u8])
        requires
            old(self).state == PathWalkState::Walking,
            old(self).rest is Some,
        ensures
            ({
                let r = old(self).rest->0@;
                let comp = next_component(r);
                if comp.len() == 0 {
                    &&& final(self).state == PathWalkState::Found
                    &&& final(self).cur == old(self).cur
                } else {
                    &&& final(self).rest.is_some() == after_component(r).is_some()
                    &&& (final(self).rest matches Some(v) ==> after_component(r) == Some(v@))
                    &&& if spec_is_directory(old(self).cur) {
                        match child_offset(content@, 0, comp) {
                            Some(o) => {
                                &&& spec_file_of(final(self).cur, *vol, final(self).cur.dir_entry, fat@)
                                &&& dir_entry_at(final(self).cur.dir_entry, content@, o)
                                &&& final(self).state == if after_component(r) is Some {
                                    PathWalkState::Walking
                                } else {
                                    PathWalkState::Found
                                }
                            },
                            None => final(self).state == PathWalkState::NotFound,
                        }
                    } else {
                        &&& final(self).cur == old(self).cur
                        &&& final(self).state == if after_component(r) is Some {
                            PathWalkState::Walking
                        } else {
                            PathWalkState::Found
                        }
                    }
                }
            }),
    {
        let mut rest: Option<Vec<u8>> = None;
        std::mem::swap(&mut rest, &mut self.rest);
        let r = match rest {
            Some(r) => r,
            None => {
                return;
            },
        };
        let n = r.len();
        let slash = find_byte(r.as_slice(), 0x2f);
        let after: Option<usize> = match slash {
            Some(k) => {
                assert(k < n);
                Some(k + 1)
            },
            None => None,
        };
        let first = match slash {
            Some(k) => k,
            None => r.len(),
        };
        proof {
            if contains_byte(r@, 0x2f) {
                lemma_first_index_unique(r@, 0x2f, first as int);
            }
        }
        let comp = vstd::slice::slice_subrange(r.as_slice(), 0, first);
        assert(comp@ =~= next_component(r@));
        if first == 0 {
            self.rest = Some(r);
            self.state = PathWalkState::Found;
            return;
        }
        if self.cur.is_directory() {
            match self.cur.find_child_by_name(content, comp) {
                Some(e) => {
                    self.cur = FATFile::from_dir_entry(vol, e, fat);
                },
                None => {
                    self.state = PathWalkState::NotFound;
                    self.rest = match after {
                        Some(a) => Some(crate::fs::bytes_to_vec(vstd::slice::slice_subrange(r.as_slice(), a, n))),
                        None => None,
                    };
                    assert(self.rest matches Some(v) ==> after_component(r@) == Some(v@));
                    return;
                },
            }
        }
        self.rest = match after {
            Some(a) => Some(crate::fs::bytes_to_vec(vstd::slice::slice_subrange(r.as_slice(), a, n))),
            None => None,
        };
        if slash.is_none() {
            self.state = PathWalkState::Found;
        }
        assert(self.rest matches Some(v) ==> after_component(r@) == Some(v@));
    }

    /// The file the path names, once the walk found it.
    pub fn result(&self) -> (f: Option<&FATFile>)
        ensures
            self.state == PathWalkState::Found ==> f == Some(&self.cur),
            self.state != PathWalkState::Found ==> f is None,
    {
        if self.state == PathWalkState::Found {
            Some(&self.cur)
        } else {
            None
        }
    }
}

impl FATFile {
    /// Starts the walk of `in_path` (a leading `/` is skipped) from the root
    /// directory of `vol`; the walk then takes the path's components one by
    /// one, given the content of each directory it goes through.
    pub fn from_path(vol: &FATVolume, in_path: &[u8], fat: &[u8]) -> (w: FatPathWalk)
        ensures
            w.state == PathWalkState::Walking,
            w.rest matches Some(r) && r@ == spec_strip_slash(in_path@),
            w.cur.dir_entry.attr == ATTR_DIRECTORY && w.cur.dir_entry.name@ == root_dir_name(),
            vol.root32_cluster0 == 0 ==> w.cur.au_map == (AUMap::FAT1216Root {
                start_sec: vol.root_start_sector,
                entry_count: vol.root_entry_count,
            }),
            vol.root32_cluster0 != 0 ==> (w.cur.au_map matches AUMap::FATFile { cluster_list }
                && cluster_list@ == cluster_chain(vol.kind, fat@, vol.root32_cluster0, fat@.len())),
    {
        let path: &[u8] = if in_path.len() > 0 && in_path[0] == 0x2f {
            vstd::slice::slice_subrange(in_path, 1, in_path.len())
        } else {
            in_path
        };
        assert(path@ =~= spec_strip_slash(in_path@));
        FatPathWalk {
            cur: FATFile::from_root(vol, fat),
            rest: Some(crate::fs::bytes_to_vec(path)),
            state: PathWalkState::Walking,
        }
    }
}

} // verus!
