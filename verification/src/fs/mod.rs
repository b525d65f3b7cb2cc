//! Virtual file system interface.
//!
//! Drivers register mount points; a full path has the form
//! `mount-point-name:/absolute/path`, e.g. `disk0.0:/dir1/file.txt`.
use vstd::prelude::*;
use crate::{Error, ErrorCode, is_err_code};

pub mod fat;
pub mod gpt;

verus! {

// ---------------------------------------------------------------------------
// Byte-string helpers
// ---------------------------------------------------------------------------

/// `k` is the index of the first occurrence of `c` in `s`.
pub open spec fn is_first_index(s: Seq<u8>, c: u8, k: int) -> bool {
    &&& 0 <= k < s.len()
    &&& s[k] == c
    &&& forall|j: int| 0 <= j < k ==> s[j] != c
}

/// `s` contains the byte `c`.
pub open spec fn contains_byte(s: Seq<u8>, c: u8) -> bool {
    exists|k: int| 0 <= k < s.len() && s[k] == c
}

/// Index of the first occurrence of `c` (only meaningful when there is one).
pub open spec fn first_index(s: Seq<u8>, c: u8) -> int {
    choose|k: int| is_first_index(s, c, k)
}

pub proof fn lemma_first_index_unique(s: Seq<u8>, c: u8, k: int)
    requires
        is_first_index(s, c, k),
    ensures
        first_index(s, c) == k,
{
    let k2 = first_index(s, c);
    assert(is_first_index(s, c, k2));
    if k2 < k {
        assert(s[k2] != c);
    } else if k < k2 {
        assert(s[k] != c);
    }
}

/// Finds the first occurrence of `c` in `s`.
pub fn find_byte(s: &[u8], c: u8) -> (r: Option<usize>)
    ensures
        match r {
            Some(k) => is_first_index(s@, c, k as int),
            None => !contains_byte(s@, c),
        },
{
    let mut i: usize = 0;
    while i < s.len()
        invariant
            i <= s@.len(),
            forall|j: int| 0 <= j < i ==> s@[j] != c,
        decreases s@.len() - i,
    {
        if s[i] == c {
            return Some(i);
        }
        i = i + 1;
    }
    None
}

/// Byte-wise equality of two byte strings.
pub fn bytes_eq(a: &[u8], b: &[u8]) -> (r: bool)
    ensures
        r == (a@ == b@),
{
    if a.len() != b.len() {
        return false;
    }
    let mut i: usize = 0;
    while i < a.len()
        invariant
            a@.len() == b@.len(),
            i <= a@.len(),
            forall|j: int| 0 <= j < i ==> a@[j] == b@[j],
        decreases a@.len() - i,
    {
        if a[i] != b[i] {
            return false;
        }
        i = i + 1;
    }
    assert(a@ =~= b@);
    true
}

/// Lexicographic order on byte strings from position `i` on.
pub open spec fn lex_lt_at(a: Seq<u8>, b: Seq<u8>, i: nat) -> bool
    decreases a.len() - i,
{
    if i >= a.len() {
        i < b.len()
    } else if i >= b.len() {
        false
    } else if a[i as int] != b[i as int] {
        a[i as int] < b[i as int]
    } else {
        lex_lt_at(a, b, i + 1)
    }
}

/// Lexicographic order on byte strings (the order of `String` keys).
pub open spec fn lex_lt(a: Seq<u8>, b: Seq<u8>) -> bool {
    lex_lt_at(a, b, 0)
}

proof fn lemma_lex_total_at(a: Seq<u8>, b: Seq<u8>, i: nat)
    requires
        i <= a.len(),
        i <= b.len(),
        a.subrange(i as int, a.len() as int) != b.subrange(i as int, b.len() as int),
    ensures
        lex_lt_at(a, b, i) || lex_lt_at(b, a, i),
    decreases a.len() - i,
{
    if i >= a.len() {
        if i >= b.len() {
            assert(a.subrange(i as int, a.len() as int) =~= b.subrange(i as int, b.len() as int));
        }
    } else if i >= b.len() {
    } else if a[i as int] != b[i as int] {
    } else {
        let sa = a.subrange(i as int, a.len() as int);
        let sb = b.subrange(i as int, b.len() as int);
        if a.subrange((i + 1) as int, a.len() as int) == b.subrange((i + 1) as int, b.len() as int) {
            assert(sa =~= seq![a[i as int]] + a.subrange((i + 1) as int, a.len() as int));
            assert(sb =~= seq![b[i as int]] + b.subrange((i + 1) as int, b.len() as int));
        }
        lemma_lex_total_at(a, b, i + 1);
    }
}

/// Two different byte strings are ordered one way or the other.
pub proof fn lemma_lex_total(a: Seq<u8>, b: Seq<u8>)
    requires
        a != b,
    ensures
        lex_lt(a, b) || lex_lt(b, a),
{
    assert(a.subrange(0, a.len() as int) =~= a);
    assert(b.subrange(0, b.len() as int) =~= b);
    lemma_lex_total_at(a, b, 0);
}

/// `a` sorts strictly before `b`.
pub fn bytes_lt(a: &[u8], b: &[u8]) -> (r: bool)
    ensures
        r == lex_lt(a@, b@),
{
    let mut i: usize = 0;
    while i < a.len() && i < b.len() && a[i] == b[i]
        invariant
            i <= a@.len(),
            i <= b@.len(),
            lex_lt_at(a@, b@, 0) == lex_lt_at(a@, b@, i as nat),
        decreases a@.len() - i,
    {
        i = i + 1;
    }
    if i >= a.len() {
        i < b.len()
    } else if i >= b.len() {
        false
    } else {
        a[i] < b[i]
    }
}

/// Copies a byte string into a new vector.
pub fn bytes_to_vec(s: &[u8]) -> (v: Vec<u8>)
    ensures
        v@ == s@,
{
    let mut v: Vec<u8> = Vec::new();
    let mut i: usize = 0;
    while i < s.len()
        invariant
            i <= s@.len(),
            v@ == s@.subrange(0, i as int),
        decreases s@.len() - i,
    {
        v.push(s[i]);
        i = i + 1;
    }
    assert(v@ =~= s@);
    v
}

// ---------------------------------------------------------------------------
// Directory entries
// ---------------------------------------------------------------------------

/// Information about a file, directory or device node.
pub struct DirectoryEntry {
    /// File/Directory name (not full path)
    pub name: Vec<u8>,
    pub flags: usize,
    /// Size in bytes
    pub size: usize,
}

pub const FLG_DIRECTORY: usize = 0x1;
pub const FLG_DEVICE: usize = 0x8;
pub const FLG_HIDDEN: usize = 0x10;
pub const FLG_ARCHIVE: usize = 0x20;
pub const FLG_SYSTEM: usize = 0x40;
pub const FLG_PERM_READ: usize = 0x100;
pub const FLG_PERM_WRITE: usize = 0x200;
pub const FLG_PERM_EXEC: usize = 0x400;

pub const DEV_R_DIR_FLAGS: usize = 0x149;
pub const DEV_RX_DIR_FLAGS: usize = 0x549;
pub const DEV_RW_DIR_FLAGS: usize = 0x349;
pub const DEV_RWX_DIR_FLAGS: usize = 0x749;
pub const DEV_R_FILE_FLAGS: usize = 0x148;
pub const DEV_RX_FILE_FLAGS: usize = 0x548;
pub const DEV_W_FILE_FLAGS: usize = 0x248;
pub const DEV_WX_FILE_FLAGS: usize = 0x648;
pub const DEV_RW_FILE_FLAGS: usize = 0x348;
pub const DEV_RWX_FILE_FLAGS: usize = 0x748;

/// The device flag combinations are the unions of the single flags they name.
pub proof fn lemma_flag_combinations()
    ensures
        DEV_R_DIR_FLAGS == FLG_SYSTEM | FLG_DEVICE | FLG_DIRECTORY | FLG_PERM_READ,
        DEV_RX_DIR_FLAGS == FLG_SYSTEM | FLG_DEVICE | FLG_DIRECTORY | FLG_PERM_READ | FLG_PERM_EXEC,
        DEV_RW_DIR_FLAGS == FLG_SYSTEM | FLG_DEVICE | FLG_DIRECTORY | FLG_PERM_READ | FLG_PERM_WRITE,
        DEV_RWX_DIR_FLAGS == FLG_SYSTEM | FLG_DEVICE | FLG_DIRECTORY | FLG_PERM_READ
            | FLG_PERM_WRITE | FLG_PERM_EXEC,
        DEV_R_FILE_FLAGS == FLG_SYSTEM | FLG_DEVICE | FLG_PERM_READ,
        DEV_RX_FILE_FLAGS == FLG_SYSTEM | FLG_DEVICE | FLG_PERM_READ | FLG_PERM_EXEC,
        DEV_W_FILE_FLAGS == FLG_SYSTEM | FLG_DEVICE | FLG_PERM_WRITE,
        DEV_WX_FILE_FLAGS == FLG_SYSTEM | FLG_DEVICE | FLG_PERM_WRITE | FLG_PERM_EXEC,
        DEV_RW_FILE_FLAGS == FLG_SYSTEM | FLG_DEVICE | FLG_PERM_READ | FLG_PERM_WRITE,
        DEV_RWX_FILE_FLAGS == FLG_SYSTEM | FLG_DEVICE | FLG_PERM_READ | FLG_PERM_WRITE
            | FLG_PERM_EXEC,
{
    assert((0x149usize == 0x40usize | 0x8usize | 0x1usize | 0x100usize) && (0x549usize == 0x40usize | 0x8usize | 0x1usize | 0x100usize | 0x400usize) && (0x349usize == 0x40usize | 0x8usize | 0x1usize | 0x100usize | 0x200usize) && (0x749usize == 0x40usize | 0x8usize | 0x1usize | 0x100usize | 0x200usize | 0x400usize) && (0x148usize == 0x40usize | 0x8usize | 0x100usize) && (0x548usize == 0x40usize | 0x8usize | 0x100usize | 0x400usize) && (0x248usize == 0x40usize | 0x8usize | 0x200usize) && (0x648usize == 0x40usize | 0x8usize | 0x200usize | 0x400usize) && (0x348usize == 0x40usize | 0x8usize | 0x100usize | 0x200usize) && (0x748usize == 0x40usize | 0x8usize | 0x100usize | 0x200usize | 0x400usize)) by (bit_vector);
}

impl DirectoryEntry {
    /// An empty entry: no name, no flags, size 0.
    pub fn new() -> (d: Self)
        ensures
            d.name@ == Seq::<u8>::empty(),
            d.flags == 0,
            d.size == 0,
    {
        DirectoryEntry { name: Vec::new(), flags: 0, size: 0 }
    }

    /// An entry with the given name, size and flags.
    pub fn from_parts(name: &[u8], size: usize, flags: usize) -> (d: Self)
        ensures
            d.name@ == name@,
            d.flags == flags,
            d.size == size,
    {
        DirectoryEntry { name: bytes_to_vec(name), flags, size }
    }

    /// A copy of this entry.
    pub fn duplicate(&self) -> (d: Self)
        ensures
            d.name@ == self.name@,
            d.flags == self.flags,
            d.size == self.size,
    {
        DirectoryEntry { name: bytes_to_vec(self.name.as_slice()), flags: self.flags, size: self.size }
    }
}

// ---------------------------------------------------------------------------
// File operations implemented by drivers
// ---------------------------------------------------------------------------

/// The operations a driver performs for the files under its mount point.
///
/// `hnd` is a driver-specific handle obtained from `fop_open`.
pub trait FileOps: Sized {
    /// What opening `path` in `mode` does, from this driver with the entry
    /// `dent`: the answer `r`, the entry `nd` and the driver `ns` after it.
    spec fn open_spec(
        &self,
        path: Seq<u8>,
        mode: usize,
        dent: DirectoryEntry,
        r: Result<usize, Error>,
        nd: DirectoryEntry,
        ns: Self,
    ) -> bool;

    /// What reading `hnd` at `off` into `buff` does: the answer `r`, the
    /// buffer `nb` and the driver `ns` after it.
    spec fn read_spec(
        &self,
        hnd: usize,
        off: usize,
        buff: Seq<u8>,
        r: Result<usize, Error>,
        nb: Seq<u8>,
        ns: Self,
    ) -> bool;

    /// What writing `buff` to `hnd` at `off` does: the answer `r` and the
    /// driver `ns` after it.
    spec fn write_spec(&self, hnd: usize, off: usize, buff: Seq<u8>, r: Result<usize, Error>, ns: Self) -> bool;

    /// What listing the directory `hnd` into `out` does: the answer `r`,
    /// the list `nout` and the driver `ns` after it.
    spec fn enum_spec(
        &self,
        hnd: usize,
        out: Seq<DirectoryEntry>,
        r: Result<usize, Error>,
        nout: Seq<DirectoryEntry>,
        ns: Self,
    ) -> bool;

    /// What running the function `func` of `hnd` with `buff` does: the
    /// answer `r`, the buffer `nb` and the driver `ns` after it.
    spec fn exec_spec(
        &self,
        hnd: usize,
        func: usize,
        buff: Seq<u8>,
        r: Result<usize, Error>,
        nb: Seq<u8>,
        ns: Self,
    ) -> bool;

    /// What closing `hnd` does: the answer `r` and the driver `ns` after it.
    spec fn close_spec(&self, hnd: usize, r: Result<usize, Error>, ns: Self) -> bool;

    /// Opens the resource named by the full path (`mount-name:/path`),
    /// fills `dent` with its directory entry and returns its handle.
    fn fop_open(&mut self, full_path: &[u8], mode: usize, dent: &mut DirectoryEntry) -> (r: Result<
        usize,
        Error,
    >)
        ensures
            old(self).open_spec(full_path@, mode, *old(dent), r, *final(dent), *final(self)),
    ;

    /// Appends the entries of a directory to `out`; returns `out`'s length.
    fn fop_enum(&mut self, hnd: usize, out: &mut Vec<DirectoryEntry>) -> (r: Result<usize, Error>)
        ensures
            old(self).enum_spec(hnd, old(out)@, r, final(out)@, *final(self)),
    ;

    /// Reads at most `buff.len()` bytes from offset `off` and returns how many.
    fn fop_read(&mut self, hnd: usize, off: usize, buff: &mut [u8]) -> (r: Result<usize, Error>)
        ensures
            final(buff)@.len() == old(buff)@.len(),
            r matches Ok(n) ==> n <= old(buff)@.len(),
            old(self).read_spec(hnd, off, old(buff)@, r, final(buff)@, *final(self)),
    ;

    /// Writes at most `buff.len()` bytes at offset `off` and returns how many.
    fn fop_write(&mut self, hnd: usize, off: usize, buff: &[u8]) -> (r: Result<usize, Error>)
        ensures
            r matches Ok(n) ==> n <= buff@.len(),
            old(self).write_spec(hnd, off, buff@, r, *final(self)),
    ;

    /// Executes the resource-specific function `func`.
    fn fop_exec(&mut self, hnd: usize, func: usize, buff: &mut [u8]) -> (r: Result<usize, Error>)
        ensures
            final(buff)@.len() == old(buff)@.len(),
            old(self).exec_spec(hnd, func, old(buff)@, r, final(buff)@, *final(self)),
    ;

    /// Closes the handle.
    fn fop_close(&mut self, hnd: usize) -> (r: Result<usize, Error>)
        ensures
            old(self).close_spec(hnd, r, *final(self)),
    ;
}

// ---------------------------------------------------------------------------
// Mount points
// ---------------------------------------------------------------------------

/// A registered mount point: its name and the tag of the driver serving it.
pub struct MountPoint {
    pub name: Vec<u8>,
    pub fops: usize,
}

impl MountPoint {
    pub fn new(name: &[u8], fops: usize) -> (m: Self)
        ensures
            m.name@ == name@,
            m.fops == fops,
    {
        MountPoint { name: bytes_to_vec(name), fops }
    }

    pub fn duplicate(&self) -> (m: Self)
        ensures
            m.name@ == self.name@,
            m.fops == self.fops,
    {
        MountPoint { name: bytes_to_vec(self.name.as_slice()), fops: self.fops }
    }

    /// Strips the mount-point name and the colon from a full path.
    pub fn device_relative_path<'a>(path: &'a [u8]) -> (r: &'a [u8])
        ensures
            contains_byte(path@, 0x3a) ==> r@ == path@.subrange(
                first_index(path@, 0x3a) + 1,
                path@.len() as int,
            ),
            !contains_byte(path@, 0x3a) ==> r@ == path@,
    {
        match find_byte(path, 0x3a) {
            Some(c) => {
                proof { lemma_first_index_unique(path@, 0x3a, c as int); }
                let n = path.len();
                assert(c < n);
                vstd::slice::slice_subrange(path, c + 1, n)
            },
            None => path,
        }
    }

    /// The mount-point name of a full path (the whole path if it has no colon).
    pub fn mount_name_in_path<'a>(path: &'a [u8]) -> (r: &'a [u8])
        ensures
            contains_byte(path@, 0x3a) ==> r@ == path@.subrange(0, first_index(path@, 0x3a)),
            !contains_byte(path@, 0x3a) ==> r@ == path@,
    {
        match find_byte(path, 0x3a) {
            Some(c) => {
                proof { lemma_first_index_unique(path@, 0x3a, c as int); }
                vstd::slice::slice_subrange(path, 0, c)
            },
            None => path,
        }
    }

    /// Splits a full path into the mount-point name and the device path.
    pub fn get_mntname_devpath<'a>(path: &'a [u8]) -> (r: Option<(&'a [u8], &'a [u8])>)
        ensures
            r is Some <==> contains_byte(path@, 0x3a),
            r matches Some(p) ==> p.0@ == path@.subrange(0, first_index(path@, 0x3a)) && p.1@
                == path@.subrange(first_index(path@, 0x3a) + 1, path@.len() as int),
    {
        match find_byte(path, 0x3a) {
            Some(c) => {
                proof { lemma_first_index_unique(path@, 0x3a, c as int); }
                let n = path.len();
                assert(c < n);
                Some(
                    (
                        vstd::slice::slice_subrange(path, 0, c),
                        vstd::slice::slice_subrange(path, c + 1, n),
                    ),
                )
            },
            None => None,
        }
    }
}

/// The names of a list of mount points.
pub open spec fn mount_names(v: Seq<MountPoint>) -> Seq<Seq<u8>> {
    v.map_values(|m: MountPoint| m.name@)
}

/// The mount points as a map from name to driver tag.
pub open spec fn mount_map(v: Seq<MountPoint>) -> Map<Seq<u8>, usize> {
    Map::new(
        |n: Seq<u8>| exists|i: int| 0 <= i < v.len() && v[i].name@ == n,
        |n: Seq<u8>| v[choose|i: int| 0 <= i < v.len() && v[i].name@ == n].fops,
    )
}

/// The table of registered mount points, kept in name order.
pub struct MountTable {
    mounts: Vec<MountPoint>,
}

impl MountTable {
    /// The registered mount points, in name order.
    pub closed spec fn entries(&self) -> Seq<MountPoint> {
        self.mounts@
    }

    /// Names are in strictly increasing order (hence distinct).
    pub open spec fn wf(&self) -> bool {
        forall|i: int|
            0 <= i < self.entries().len() - 1 ==> lex_lt(
                #[trigger] self.entries()[i].name@,
                self.entries()[i + 1].name@,
            )
    }

    pub fn new() -> (t: Self)
        ensures
            t.wf(),
            t.entries().len() == 0,
    {
        MountTable { mounts: Vec::new() }
    }

    fn position_of(&self, name: &[u8]) -> (r: Option<usize>)
        ensures
            match r {
                Some(i) => i < self.entries().len() && self.entries()[i as int].name@ == name@,
                None => forall|i: int|
                    0 <= i < self.entries().len() ==> self.entries()[i].name@ != name@,
            },
    {
        let mut i: usize = 0;
        while i < self.mounts.len()
            invariant
                i <= self.mounts@.len(),
                forall|j: int| 0 <= j < i ==> self.mounts@[j].name@ != name@,
            decreases self.mounts@.len() - i,
        {
            if bytes_eq(self.mounts[i].name.as_slice(), name) {
                return Some(i);
            }
            i = i + 1;
        }
        None
    }


    proof fn lemma_unique_names(&self, v: Seq<MountPoint>, i: int)
        requires
            0 <= i < v.len(),
            forall|j: int| 0 <= j < v.len() - 1 ==> lex_lt(#[trigger] v[j].name@, v[j + 1].name@),
        ensures
            (choose|k: int| 0 <= k < v.len() && v[k].name@ == v[i].name@) == i,
    {
        lemma_unique_in(v, i);
    }



}

impl MountPoint {
    /// Registers a mount point; fails when one with the same name exists.
    pub fn mount(table: &mut MountTable, mount_point: MountPoint) -> (ok: bool)
        requires
            old(table).wf(),
        ensures
            final(table).wf(),
            ok == !mount_names(old(table).entries()).contains(mount_point.name@),
            ok ==> mount_map(final(table).entries()) == mount_map(old(table).entries()).insert(
                mount_point.name@,
                mount_point.fops,
            ),
            !ok ==> final(table).entries() == old(table).entries(),
    {
        let ghost old_v = table.mounts@;
        if let Some(p) = table.position_of(mount_point.name.as_slice()) {
            assert(mount_names(old_v)[p as int] == mount_point.name@);
            return false;
        }
        assert(table.entries() == old_v);
        assert(forall|k: int| 0 <= k < old_v.len() ==> old_v[k].name@ != mount_point.name@);
        assert(!mount_names(old_v).contains(mount_point.name@)) by {
            if mount_names(old_v).contains(mount_point.name@) {
                let k = choose|k: int|
                    0 <= k < mount_names(old_v).len() && mount_names(old_v)[k]
                        == mount_point.name@;
                assert(old_v[k].name@ == mount_point.name@);
            }
        }
        // Find the insertion point: before the first larger name.
        let mut pos: usize = 0;
        while pos < table.mounts.len() && !bytes_lt(mount_point.name.as_slice(), table.mounts[pos].name.as_slice())
            invariant
                pos <= table.mounts@.len(),
                table.mounts@ == old_v,
                forall|j: int| 0 <= j < pos ==> !lex_lt(mount_point.name@, #[trigger] old_v[j].name@),
            decreases table.mounts@.len() - pos,
        {
            pos = pos + 1;
        }
        proof {
            if pos > 0 {
                assert(old_v[pos - 1].name@ != mount_point.name@);
                lemma_lex_total(old_v[pos - 1].name@, mount_point.name@);
            }
        }
        let ghost name = mount_point.name@;
        let ghost fops = mount_point.fops;
        table.mounts.insert(pos, mount_point);
        let ghost nv = table.mounts@;
        assert(nv =~= old_v.subrange(0, pos as int).push(nv[pos as int]) + old_v.subrange(
            pos as int,
            old_v.len() as int,
        ));
        assert forall|i: int| 0 <= i < nv.len() - 1 implies lex_lt(
            #[trigger] nv[i].name@,
            nv[i + 1].name@,
        ) by {
            if i < pos - 1 {
                assert(nv[i] == old_v[i] && nv[i + 1] == old_v[i + 1]);
            } else if i == pos - 1 {
            } else if i == pos {
            } else {
                assert(nv[i] == old_v[i - 1] && nv[i + 1] == old_v[i]);
            }
        }
        assert(mount_map(nv) =~= mount_map(old_v).insert(name, fops)) by {
            assert forall|n: Seq<u8>| #[trigger] mount_map(nv).contains_key(n) <==> mount_map(
                old_v,
            ).insert(name, fops).contains_key(n) by {
                if mount_map(nv).contains_key(n) {
                    let i = choose|i: int| 0 <= i < nv.len() && nv[i].name@ == n;
                    if i < pos {
                        assert(old_v[i] == nv[i]);
                    } else if i > pos {
                        assert(old_v[i - 1] == nv[i]);
                    }
                }
                if mount_map(old_v).contains_key(n) {
                    let i = choose|i: int| 0 <= i < old_v.len() && old_v[i].name@ == n;
                    if i < pos {
                        assert(old_v[i] == nv[i]);
                    } else {
                        assert(old_v[i] == nv[i + 1]);
                    }
                }
            }
            assert forall|n: Seq<u8>| #[trigger] mount_map(nv).contains_key(n) implies mount_map(
                nv,
            )[n] == mount_map(old_v).insert(name, fops)[n] by {
                let i = choose|i: int| 0 <= i < nv.len() && nv[i].name@ == n;
                table.lemma_unique_names(nv, i);
                if n == name {
                    assert(nv[pos as int].name@ == n);
                } else {
                    let k = choose|k: int| 0 <= k < old_v.len() && old_v[k].name@ == n;
                    lemma_unique_in(old_v, k);
                    if i < pos {
                        assert(old_v[i] == nv[i]);
                    } else {
                        assert(old_v[i - 1] == nv[i]);
                    }
                }
            }
        }
        true
    }

    /// Removes the mount point with the given name, if any.
    pub fn unmount(table: &mut MountTable, mount_name: &[u8])
        requires
            old(table).wf(),
        ensures
            final(table).wf(),
            mount_map(final(table).entries()) == mount_map(old(table).entries()).remove(
                mount_name@,
            ),
    {
        let ghost old_v = table.mounts@;
        match table.position_of(mount_name) {
            Some(p) => {
                table.mounts.remove(p);
                let ghost nv = table.mounts@;
                assert forall|i: int| 0 <= i < nv.len() - 1 implies lex_lt(
                    #[trigger] nv[i].name@,
                    nv[i + 1].name@,
                ) by {
                    if i < p as int - 1 {
                        assert(nv[i] == old_v[i] && nv[i + 1] == old_v[i + 1]);
                    } else if i == p as int - 1 {
                        assert(nv[i] == old_v[i] && nv[i + 1] == old_v[i + 2]);
                        lemma_sorted_trans(old_v, i, i + 2);
                    } else {
                        assert(nv[i] == old_v[i + 1] && nv[i + 1] == old_v[i + 2]);
                    }
                }
                assert(mount_map(nv) =~= mount_map(old_v).remove(mount_name@)) by {
                    assert forall|n: Seq<u8>| #[trigger] mount_map(nv).contains_key(n)
                        <==> mount_map(old_v).remove(mount_name@).contains_key(n) by {
                        if mount_map(nv).contains_key(n) {
                            let i = choose|i: int| 0 <= i < nv.len() && nv[i].name@ == n;
                            if i < p {
                                assert(old_v[i] == nv[i]);
                                lemma_unique_in(old_v, i);
                            } else {
                                assert(old_v[i + 1] == nv[i]);
                                lemma_unique_in(old_v, i + 1);
                            }
                        }
                        if mount_map(old_v).contains_key(n) && n != mount_name@ {
                            let i = choose|i: int| 0 <= i < old_v.len() && old_v[i].name@ == n;
                            if i < p {
                                assert(old_v[i] == nv[i]);
                            } else {
                                assert(old_v[i] == nv[i - 1]);
                            }
                        }
                    }
                    assert forall|n: Seq<u8>| #[trigger] mount_map(nv).contains_key(n) implies
                        mount_map(nv)[n] == mount_map(old_v).remove(mount_name@)[n] by {
                        let i = choose|i: int| 0 <= i < nv.len() && nv[i].name@ == n;
                        lemma_unique_in(nv, i);
                        if i < p {
                            assert(old_v[i] == nv[i]);
                            lemma_unique_in(old_v, i);
                        } else {
                            assert(old_v[i + 1] == nv[i]);
                            lemma_unique_in(old_v, i + 1);
                        }
                    }
                }
            },
            None => {
                assert(table.entries() == old_v);
                assert(forall|k: int| 0 <= k < old_v.len() ==> old_v[k].name@ != mount_name@);
                assert(!mount_map(old_v).contains_key(mount_name@));
                assert(mount_map(old_v) =~= mount_map(old_v).remove(mount_name@));
            },
        }
    }

    /// The names of all mount points, in name order.
    pub fn list_names(table: &MountTable) -> (res: Vec<Vec<u8>>)
        ensures
            res@.len() == table.entries().len(),
            forall|i: int| 0 <= i < res@.len() ==> #[trigger] res@[i]@ == table.entries()[i].name@,
    {
        let mut res: Vec<Vec<u8>> = Vec::new();
        let mut i: usize = 0;
        while i < table.mounts.len()
            invariant
                i <= table.mounts@.len(),
                res@.len() == i,
                forall|j: int| 0 <= j < i ==> #[trigger] res@[j]@ == table.mounts@[j].name@,
            decreases table.mounts@.len() - i,
        {
            res.push(bytes_to_vec(table.mounts[i].name.as_slice()));
            i = i + 1;
        }
        res
    }

    /// The mount point named by a full path (`name:/...` or just `name`).
    pub fn from_path(table: &MountTable, path: &[u8]) -> (r: Result<MountPoint, Error>)
        requires
            table.wf(),
        ensures
            path@.len() == 0 ==> is_err_code(r, ErrorCode::InvalidPath),
            path@.len() > 0 ==> {
                let n = MountPoint::spec_mount_name(path@);
                match r {
                    Ok(m) => mount_map(table.entries()).contains_key(n) && m.name@ == n && m.fops
                        == mount_map(table.entries())[n],
                    Err(e) => !mount_map(table.entries()).contains_key(n) && e.code
                        == ErrorCode::InvalidMountPoint,
                }
            },
    {
        if path.len() == 0 {
            return Err(Error::new(ErrorCode::InvalidPath));
        }
        let mnt_name = MountPoint::mount_name_in_path(path);
        match table.position_of(mnt_name) {
            Some(p) => {
                proof { lemma_unique_in(table.mounts@, p as int); }
                Ok(table.mounts[p].duplicate())
            },
            None => Err(Error::new(ErrorCode::InvalidMountPoint)),
        }
    }
}

impl MountPoint {
    /// The mount-point name of a full path.
    pub open spec fn spec_mount_name(path: Seq<u8>) -> Seq<u8> {
        if contains_byte(path, 0x3a) {
            path.subrange(0, first_index(path, 0x3a))
        } else {
            path
        }
    }
}

proof fn lemma_sorted_trans(v: Seq<MountPoint>, i: int, j: int)
    requires
        0 <= i < j < v.len(),
        forall|k: int| 0 <= k < v.len() - 1 ==> lex_lt(#[trigger] v[k].name@, v[k + 1].name@),
    ensures
        lex_lt(v[i].name@, v[j].name@),
    decreases j - i,
{
    if j == i + 1 {
    } else {
        lemma_sorted_trans(v, i, j - 1);
        assert(lex_lt(v[j - 1].name@, v[j].name@));
        lemma_lex_trans(v[i].name@, v[j - 1].name@, v[j].name@, 0);
    }
}

proof fn lemma_lex_trans(a: Seq<u8>, b: Seq<u8>, c: Seq<u8>, i: nat)
    requires
        lex_lt_at(a, b, i),
        lex_lt_at(b, c, i),
    ensures
        lex_lt_at(a, c, i),
    decreases a.len() - i,
{
    if i >= a.len() {
    } else if i >= b.len() {
    } else if i >= c.len() {
    } else if a[i as int] != b[i as int] {
    } else if b[i as int] != c[i as int] {
    } else {
        lemma_lex_trans(a, b, c, i + 1);
    }
}

proof fn lemma_lex_irrefl(a: Seq<u8>, i: nat)
    ensures
        !lex_lt_at(a, a, i),
    decreases a.len() - i,
{
    if i < a.len() {
        lemma_lex_irrefl(a, i + 1);
    }
}

/// In a name-sorted list, the entry with a given name is unique.
proof fn lemma_unique_in(v: Seq<MountPoint>, i: int)
    requires
        0 <= i < v.len(),
        forall|j: int| 0 <= j < v.len() - 1 ==> lex_lt(#[trigger] v[j].name@, v[j + 1].name@),
    ensures
        forall|k: int| 0 <= k < v.len() && v[k].name@ == v[i].name@ ==> k == i,
        (choose|k: int| 0 <= k < v.len() && v[k].name@ == v[i].name@) == i,
{
    assert forall|k: int| 0 <= k < v.len() && v[k].name@ == v[i].name@ implies k == i by {
        if k < i {
            lemma_sorted_trans(v, k, i);
            lemma_lex_irrefl(v[i].name@, 0);
        } else if i < k {
            lemma_sorted_trans(v, i, k);
            lemma_lex_irrefl(v[i].name@, 0);
        }
    }
    let k = choose|k: int| 0 <= k < v.len() && v[k].name@ == v[i].name@;
    assert(0 <= i < v.len() && v[i].name@ == v[i].name@);
}


// ---------------------------------------------------------------------------
// Open files
// ---------------------------------------------------------------------------

pub const MODE_CREATE: usize = 0x1;
pub const MODE_READ: usize = 0x2;
pub const MODE_WRITE: usize = 0x4;
pub const MODE_EXEC: usize = 0x8;
pub const MODE_APPEND: usize = 0x10;

/// Where a seek offset is measured from.
pub enum FileSeekOrigin {
    Start,
    Current,
    End,
}

/// Which cursor a seek moves.
pub enum FileSeekCursor {
    Read,
    Write,
}

/// The new value of the moved cursor, or `None` when the seek is refused.
pub open spec fn spec_seek(
    size: usize,
    read_off: usize,
    write_off: usize,
    delta: isize,
    origin: FileSeekOrigin,
    cursor: FileSeekCursor,
) -> Option<usize> {
    let cur = match cursor {
        FileSeekCursor::Read => read_off,
        FileSeekCursor::Write => write_off,
    };
    match origin {
        FileSeekOrigin::Start => if delta < 0 || delta >= size {
            None
        } else {
            Some(delta as usize)
        },
        FileSeekOrigin::Current => if (delta < 0 && -delta > cur) || (delta > 0 && cur + delta
            > size) {
            None
        } else {
            Some((((cur as isize) as int + delta) as isize) as usize)
        },
        FileSeekOrigin::End => if delta > 0 || -delta > size {
            None
        } else {
            Some((size + delta) as usize)
        },
    }
}

/// The inputs on which a seek does not overflow.
pub open spec fn seek_in_range(
    read_off: usize,
    write_off: usize,
    delta: isize,
    origin: FileSeekOrigin,
    cursor: FileSeekCursor,
) -> bool {
    let cur = match cursor {
        FileSeekCursor::Read => read_off,
        FileSeekCursor::Write => write_off,
    };
    match origin {
        FileSeekOrigin::Start => true,
        FileSeekOrigin::Current => delta != isize::MIN && (delta > 0 ==> cur + delta
            <= usize::MAX) && isize::MIN <= (cur as isize) as int + delta <= isize::MAX,
        FileSeekOrigin::End => delta != isize::MIN,
    }
}

/// An open file, directory or device.
pub struct File {
    /// Mount point via which the file was opened
    pub mnt: MountPoint,
    /// Device/FS-specific handle
    pub dev_hnd: usize,
    /// Open mode (e.g., read/write/exec)
    pub mode: usize,
    /// Directory entry of the file
    pub dir_entry: DirectoryEntry,
    pub read_off: usize,
    pub write_off: usize,
}

impl File {
    pub open spec fn read_cursor(&self) -> usize {
        self.read_off
    }

    pub open spec fn write_cursor(&self) -> usize {
        self.write_off
    }

    pub open spec fn can_read(&self) -> bool {
        self.dir_entry.flags & FLG_PERM_READ != 0 && self.mode & MODE_READ != 0
    }

    pub open spec fn can_write(&self) -> bool {
        self.dir_entry.flags & FLG_PERM_WRITE != 0 && self.mode & MODE_WRITE != 0
    }

    pub open spec fn can_exec(&self) -> bool {
        self.dir_entry.flags & FLG_DEVICE != 0 && self.dir_entry.flags & FLG_PERM_EXEC != 0
            && self.mode & MODE_EXEC != 0
    }

    /// Opens the file named by `full_path` through the mount point its name
    /// selects; `drv` is the driver registered for that mount point.
    pub fn open<D: FileOps>(full_path: &[u8], mode: usize, mounts: &MountTable, drv: &mut D) -> (r:
        Result<File, Error>)
        requires
            mounts.wf(),
        ensures
            full_path@.len() == 0 ==> is_err_code(r, ErrorCode::InvalidPath),
            full_path@.len() > 0 && !mount_map(mounts.entries()).contains_key(
                MountPoint::spec_mount_name(full_path@),
            ) ==> is_err_code(r, ErrorCode::InvalidMountPoint),
            full_path@.len() == 0 || !mount_map(mounts.entries()).contains_key(
                MountPoint::spec_mount_name(full_path@),
            ) ==> *final(drv) == *old(drv),
            r matches Ok(f) ==> {
                &&& f.mnt.name@ == MountPoint::spec_mount_name(full_path@)
                &&& f.mnt.fops == mount_map(mounts.entries())[f.mnt.name@]
                &&& f.mode == mode
                &&& f.read_cursor() == 0
                &&& f.write_cursor() == 0
            },
            full_path@.len() > 0 && mount_map(mounts.entries()).contains_key(
                MountPoint::spec_mount_name(full_path@),
            ) ==> exists|d0: DirectoryEntry, dr: Result<usize, Error>, nd: DirectoryEntry|
                {
                    &&& d0.name@.len() == 0 && d0.size == 0 && d0.flags == 0
                    &&& #[trigger] old(drv).open_spec(full_path@, mode, d0, dr, nd, *final(drv))
                    &&& match dr {
                        Ok(h) => r matches Ok(f) && f.dev_hnd == h && f.dir_entry == nd,
                        Err(e) => r == Err::<File, Error>(e),
                    }
                },
    {
        let mnt = MountPoint::from_path(mounts, full_path)?;
        let mut dent = DirectoryEntry::new();
        let ghost d0 = dent;
        let res = drv.fop_open(full_path, mode, &mut dent);
        proof {
            assert(old(drv).open_spec(full_path@, mode, d0, res, dent, *drv));
        }
        match res {
            Ok(dev_hnd) => Ok(File { mnt, dev_hnd, mode, dir_entry: dent, read_off: 0, write_off: 0 }),
            Err(e) => Err(e),
        }
    }

    /// Lists the entries of a directory.
    pub fn enumerate<D: FileOps>(&self, drv: &mut D) -> (r: Result<Vec<DirectoryEntry>, Error>)
        ensures
            self.dir_entry.flags & FLG_DIRECTORY == 0 ==> is_err_code(r, ErrorCode::InvalidOp)
                && *final(drv) == *old(drv),
            self.dir_entry.flags & FLG_DIRECTORY != 0 ==> exists|dr: Result<usize, Error>, nout: Seq<DirectoryEntry>|
                {
                    &&& #[trigger] old(drv).enum_spec(self.dev_hnd, Seq::empty(), dr, nout, *final(drv))
                    &&& match dr {
                        Ok(_) => r matches Ok(v) && v@ == nout,
                        Err(e) => r == Err::<Vec<DirectoryEntry>, Error>(e),
                    }
                },
    {
        if self.dir_entry.flags & FLG_DIRECTORY == 0 {
            return Err(Error::new(ErrorCode::InvalidOp));
        }
        let mut out: Vec<DirectoryEntry> = Vec::new();
        let res = drv.fop_enum(self.dev_hnd, &mut out);
        proof {
            assert(old(drv).enum_spec(self.dev_hnd, Seq::empty(), res, out@, *drv));
        }
        match res {
            Ok(_) => Ok(out),
            Err(e) => Err(e),
        }
    }

    /// Reads into `buff` from the read cursor and advances the cursor by the
    /// number of bytes read.
    pub fn read<D: FileOps>(&mut self, drv: &mut D, buff: &mut [u8]) -> (r: Result<usize, Error>)
        requires
            old(self).read_cursor() + old(buff)@.len() <= usize::MAX,
        ensures
            !old(self).can_read() ==> is_err_code(r, ErrorCode::NotAllowed)
                && final(self).read_cursor() == old(self).read_cursor(),
            r matches Ok(n) ==> old(self).can_read() && n <= old(buff)@.len()
                && final(self).read_cursor() == old(self).read_cursor() + n,
            r is Err ==> final(self).read_cursor() == old(self).read_cursor(),
            final(self).write_cursor() == old(self).write_cursor(),
            final(self).dir_entry.size == old(self).dir_entry.size,
            final(self).dir_entry.flags == old(self).dir_entry.flags,
            final(self).mode == old(self).mode,
            final(self).dev_hnd == old(self).dev_hnd,
            final(self).mnt == old(self).mnt && final(self).dir_entry.name@ == old(self).dir_entry.name@,
            r is Err ==> *final(self) == *old(self),
            old(self).can_read() ==> old(drv).read_spec(
                old(self).dev_hnd,
                old(self).read_cursor(),
                old(buff)@,
                r,
                final(buff)@,
                *final(drv),
            ),
            !old(self).can_read() ==> *final(drv) == *old(drv) && final(buff)@ == old(buff)@,
    {
        if self.dir_entry.flags & FLG_PERM_READ == 0 || self.mode & MODE_READ == 0 {
            return Err(Error::new(ErrorCode::NotAllowed));
        }
        match drv.fop_read(self.dev_hnd, self.read_off, buff) {
            Ok(bytes) => {
                self.read_off = self.read_off + bytes;
                Ok(bytes)
            },
            Err(e) => Err(e),
        }
    }

    /// Writes `buff` at the write cursor, advances the cursor and grows the
    /// recorded size when the cursor passes it.
    pub fn write<D: FileOps>(&mut self, drv: &mut D, buff: &[u8]) -> (r: Result<usize, Error>)
        requires
            old(self).write_cursor() + buff@.len() <= usize::MAX,
        ensures
            !old(self).can_write() ==> is_err_code(r, ErrorCode::NotAllowed),
            r matches Ok(n) ==> {
                &&& old(self).can_write()
                &&& n <= buff@.len()
                &&& final(self).write_cursor() == old(self).write_cursor() + n
                &&& final(self).dir_entry.size == if old(self).write_cursor() + n > old(self).dir_entry.size {
                    (old(self).write_cursor() + n) as usize
                } else {
                    old(self).dir_entry.size
                }
            },
            r is Err ==> final(self).write_cursor() == old(self).write_cursor()
                && final(self).dir_entry.size == old(self).dir_entry.size,
            final(self).read_cursor() == old(self).read_cursor(),
            final(self).dir_entry.flags == old(self).dir_entry.flags,
            final(self).mode == old(self).mode,
            final(self).dev_hnd == old(self).dev_hnd,
            final(self).mnt == old(self).mnt && final(self).dir_entry.name@ == old(self).dir_entry.name@,
            r is Err ==> *final(self) == *old(self),
            old(self).can_write() ==> old(drv).write_spec(
                old(self).dev_hnd,
                old(self).write_cursor(),
                buff@,
                r,
                *final(drv),
            ),
            !old(self).can_write() ==> *final(drv) == *old(drv),
    {
        if self.dir_entry.flags & FLG_PERM_WRITE == 0 || self.mode & MODE_WRITE == 0 {
            return Err(Error::new(ErrorCode::NotAllowed));
        }
        match drv.fop_write(self.dev_hnd, self.write_off, buff) {
            Ok(bytes) => {
                self.write_off = self.write_off + bytes;
                if self.write_off > self.dir_entry.size {
                    self.dir_entry.size = self.write_off;
                }
                Ok(bytes)
            },
            Err(e) => Err(e),
        }
    }

    pub fn get_read_cursor(&self) -> (r: usize)
        ensures
            r == self.read_cursor(),
    {
        self.read_off
    }

    pub fn get_write_cursor(&self) -> (r: usize)
        ensures
            r == self.write_cursor(),
    {
        self.write_off
    }

    pub fn size(&self) -> (r: usize)
        ensures
            r == self.dir_entry.size,
    {
        self.dir_entry.size
    }

    /// Moves a cursor and returns its new value.
    pub fn seek(&mut self, delta: isize, origin: FileSeekOrigin, cursor: FileSeekCursor) -> (r:
        Result<usize, Error>)
        requires
            seek_in_range(
                old(self).read_cursor(),
                old(self).write_cursor(),
                delta,
                origin,
                cursor,
            ),
        ensures
            match spec_seek(
                old(self).dir_entry.size,
                old(self).read_cursor(),
                old(self).write_cursor(),
                delta,
                origin,
                cursor,
            ) {
                None => is_err_code(r, ErrorCode::InvalidArgument) && final(self).read_cursor()
                    == old(self).read_cursor() && final(self).write_cursor() == old(self).write_cursor(),
                Some(v) => r == Ok::<usize, Error>(v) && match cursor {
                    FileSeekCursor::Read => final(self).read_cursor() == v && final(self).write_cursor() == old(self).write_cursor(),
                    FileSeekCursor::Write => final(self).write_cursor() == v && final(self).read_cursor() == old(self).read_cursor(),
                },
            },
            final(self).dir_entry.size == old(self).dir_entry.size,
            final(self).dir_entry.flags == old(self).dir_entry.flags,
            final(self).mode == old(self).mode,
    {
        let size = self.dir_entry.size;
        match origin {
            FileSeekOrigin::Start => {
                if delta < 0 || (delta as usize) >= size {
                    return Err(Error::new(ErrorCode::InvalidArgument));
                }
                match cursor {
                    FileSeekCursor::Read => {
                        self.read_off = delta as usize;
                        Ok(self.read_off)
                    },
                    FileSeekCursor::Write => {
                        self.write_off = delta as usize;
                        Ok(self.write_off)
                    },
                }
            },
            FileSeekOrigin::Current => {
                let cur = match cursor {
                    FileSeekCursor::Read => self.read_off,
                    FileSeekCursor::Write => self.write_off,
                };
                if delta < 0 && (-delta as usize) > cur || delta > 0 && (cur + (delta as usize))
                    > size {
                    return Err(Error::new(ErrorCode::InvalidArgument));
                }
                match cursor {
                    FileSeekCursor::Read => {
                        self.read_off = ((self.read_off as isize) + delta) as usize;
                        Ok(self.read_off)
                    },
                    FileSeekCursor::Write => {
                        self.write_off = ((self.write_off as isize) + delta) as usize;
                        Ok(self.write_off)
                    },
                }
            },
            FileSeekOrigin::End => {
                if delta > 0 || (-delta as usize) > size {
                    return Err(Error::new(ErrorCode::InvalidArgument));
                }
                match cursor {
                    FileSeekCursor::Read => {
                        self.read_off = size - (-delta as usize);
                        Ok(self.read_off)
                    },
                    FileSeekCursor::Write => {
                        self.write_off = size - (-delta as usize);
                        Ok(self.write_off)
                    },
                }
            },
        }
    }

    /// Executes the device function `func` on the file.
    pub fn execute<D: FileOps>(&mut self, drv: &mut D, func: usize, buff: &mut [u8]) -> (r: Result<
        usize,
        Error,
    >)
        ensures
            !old(self).can_exec() ==> is_err_code(r, ErrorCode::NotAllowed) && *final(drv)
                == *old(drv) && final(buff)@ == old(buff)@,
            old(self).can_exec() ==> old(drv).exec_spec(
                old(self).dev_hnd,
                func,
                old(buff)@,
                r,
                final(buff)@,
                *final(drv),
            ),
            *final(self) == *old(self),
    {
        if self.dir_entry.flags & FLG_DEVICE == 0 || self.dir_entry.flags & FLG_PERM_EXEC == 0
            || self.mode & MODE_EXEC == 0 {
            return Err(Error::new(ErrorCode::NotAllowed));
        }
        drv.fop_exec(self.dev_hnd, func, buff)
    }

    /// Closes the file's handle through its driver; fails as the driver
    /// does. The file itself is left as it was.
    pub fn close<D: FileOps>(&mut self, drv: &mut D) -> (r: Result<(), Error>)
        ensures
            *final(self) == *old(self),
            exists|dr: Result<usize, Error>|
                {
                    &&& #[trigger] old(drv).close_spec(old(self).dev_hnd, dr, *final(drv))
                    &&& match dr {
                        Ok(_) => r == Ok::<(), Error>(()),
                        Err(e) => r == Err::<(), Error>(e),
                    }
                },
    {
        let res = drv.fop_close(self.dev_hnd);
        proof {
            assert(old(drv).close_spec(self.dev_hnd, res, *drv));
        }
        match res {
            Ok(_) => Ok(()),
            Err(e) => Err(e),
        }
    }
}

// ---------------------------------------------------------------------------
// File systems of a disk
// ---------------------------------------------------------------------------

/// After the partitions of disk `disk_index` were looked for: the disk to
/// report as following no supported format when none was found.
pub fn enumerate_filesystems(disks: &Vec<crate::drivers::storage::Disk>, disk_index: usize, num_partitions: usize) -> (r: Option<crate::drivers::storage::Disk>)
    requires
        num_partitions == 0 ==> disk_index < disks@.len(),
    ensures
        num_partitions > 0 ==> r is None,
        num_partitions == 0 ==> r == Some(disks@[disk_index as int]),
{
    if num_partitions > 0 {
        return None;
    }
    Some(disks[disk_index])
}

/// A mount point, once mounted, is what its name finds; unmounting it
/// gives back the mount points there were.
pub proof fn lemma_mount_then_unmount(before: Map<Seq<u8>, usize>, name: Seq<u8>, fops: usize)
    requires
        !before.contains_key(name),
    ensures
        before.insert(name, fops).contains_key(name),
        before.insert(name, fops)[name] == fops,
        before.insert(name, fops).remove(name) == before,
{
    assert(before.insert(name, fops).remove(name) =~= before);
}

} // verus!
