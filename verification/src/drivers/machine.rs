//! The machine device (`machine:`): system-wide functions that user space
//! asks for (reboot, the kernel's self test) and statistics of the
//! processors and of the memory.
use vstd::prelude::*;
use crate::{Error, ErrorCode, is_err_code};
use crate::util::{dec_text, push_dec};
use crate::text::{parse_usize, read_text, spec_parse_usize};
use crate::drivers::DRV_MACHINE;
use crate::drivers::input::{spec_relative_path, root_path, slash_path};
use crate::fs::{
    DirectoryEntry, MountPoint, MountTable, mount_map, mount_names, bytes_eq,
    DEV_R_FILE_FLAGS, DEV_RX_DIR_FLAGS,
};

verus! {

/// Handles from 0 up to the processor count are the processors' files.
pub const DEV_HANDLE_FIRST_CPU: usize = 0;
/// Reading the RAM file gives the memory statistics.
pub const DEV_HANDLE_RAM: usize = 1000;
/// The root, which runs the system-wide functions.
pub const DEV_HANDLE_DEFAULT: usize = 1001;
pub const FUNC_REBOOT: usize = 1;
pub const FUNC_KERNEL_SELF_TEST: usize = 2;
/// Size of the RAM file: enough for its statistics.
pub const RAM_FILE_SIZE: usize = 128;

/// A system-wide function that user space asked for.
#[derive(Clone, Copy, Debug, PartialEq, Eq, Structural)]
pub enum MachineFunc {
    Reboot,
    SelfTest,
}

/// The bytes `"machine"`.
pub open spec fn machine_name() -> Seq<u8> {
    seq![0x6du8, 0x61u8, 0x63u8, 0x68u8, 0x69u8, 0x6eu8, 0x65u8]
}

/// The bytes `"cpu"`.
pub open spec fn cpu_prefix() -> Seq<u8> {
    seq![0x63u8, 0x70u8, 0x75u8]
}

/// The bytes `"ram"`.
pub open spec fn ram_name() -> Seq<u8> {
    seq![0x72u8, 0x61u8, 0x6du8]
}

/// The name of processor `n`'s file: `"cpu"` and `n` in decimal.
pub open spec fn cpu_name(n: nat) -> Seq<u8> {
    cpu_prefix() + dec_text(n)
}

/// The processor a path names: `"/cpu"` followed by a number (as
/// `usize::from_str` reads it).
pub open spec fn spec_cpu_of_path(p: Seq<u8>) -> Option<usize> {
    if p.len() >= 4 && p.subrange(0, 4) == slash_path(cpu_prefix()) {
        spec_parse_usize(p.subrange(4, p.len() as int))
    } else {
        None
    }
}

/// The machine device: the processors that are up, the memory statistics
/// and each processor's statistics as text, and the system-wide function
/// asked for and not yet carried out.
pub struct Machine {
    pub num_cpus: usize,
    pub ram_text: Vec<u8>,
    pub cpu_text: Vec<Vec<u8>>,
    pub requested: Option<MachineFunc>,
}

impl Machine {
    /// The device with `num_cpus` processors up, no statistics yet and
    /// nothing asked for.
    pub fn new(num_cpus: usize) -> (m: Self)
        ensures
            m.num_cpus == num_cpus && m.ram_text@.len() == 0 && m.requested is None,
            m.cpu_text@.len() == 0,
    {
        Machine { num_cpus, ram_text: Vec::new(), cpu_text: Vec::new(), requested: None }
    }

    /// The statistics text of processor `cpu` (empty until it is set).
    pub open spec fn cpu_stats(&self, cpu: int) -> Seq<u8> {
        if 0 <= cpu < self.cpu_text@.len() {
            self.cpu_text@[cpu]@
        } else {
            Seq::empty()
        }
    }

    /// Takes the statistics of processor `cpu` (as text); a processor that
    /// is not up has none.
    pub fn set_cpu_text(&mut self, cpu: usize, text: &[u8])
        ensures
            final(self).num_cpus == old(self).num_cpus,
            final(self).ram_text@ == old(self).ram_text@,
            final(self).requested == old(self).requested,
            forall|c: int| #![trigger final(self).cpu_stats(c)]
                final(self).cpu_stats(c) == if c == cpu && cpu < old(self).num_cpus {
                    text@
                } else {
                    old(self).cpu_stats(c)
                },
    {
        if cpu >= self.num_cpus {
            return;
        }
        let ghost before = *self;
        while self.cpu_text.len() <= cpu
            invariant
                self.num_cpus == before.num_cpus,
                self.ram_text@ == before.ram_text@,
                self.requested == before.requested,
                forall|c: int| #![trigger self.cpu_stats(c)] self.cpu_stats(c) == before.cpu_stats(c),
            decreases cpu + 1 - self.cpu_text@.len(),
        {
            let ghost prev = self.cpu_text@;
            let ghost olds = *self;
            let e: Vec<u8> = Vec::new();
            self.cpu_text.push(e);
            assert forall|c: int| #![trigger self.cpu_stats(c)] self.cpu_stats(c) == before.cpu_stats(c) by {
                assert(olds.cpu_stats(c) == before.cpu_stats(c));
                if 0 <= c < prev.len() {
                    assert(self.cpu_text@[c] == prev[c]);
                } else if c == prev.len() {
                    assert(self.cpu_text@[c]@ =~= Seq::<u8>::empty());
                }
            }
        }
        let ghost prev = self.cpu_text@;
        let ghost olds = *self;
        let t = crate::fs::bytes_to_vec(text);
        self.cpu_text.set(cpu, t);
        assert forall|c: int| #![trigger self.cpu_stats(c)] self.cpu_stats(c) == if c == cpu {
            text@
        } else {
            before.cpu_stats(c)
        } by {
            assert(olds.cpu_stats(c) == before.cpu_stats(c));
            if c != cpu && 0 <= c < prev.len() {
                assert(self.cpu_text@[c] == prev[c]);
            }
        }
    }

    /// Mounts `machine:`; returns the number of devices it provides (1, or
    /// 0 when the name is taken).
    pub fn enumerate(mounts: &mut MountTable) -> (n: usize)
        requires
            old(mounts).wf(),
        ensures
            final(mounts).wf(),
            n == if mount_names(old(mounts).entries()).contains(machine_name()) {
                0usize
            } else {
                1usize
            },
            n == 1 ==> mount_map(final(mounts).entries()) == mount_map(old(mounts).entries()).insert(
                machine_name(),
                DRV_MACHINE,
            ),
            n == 0 ==> final(mounts).entries() == old(mounts).entries(),
    {
        let name: [u8; 7] = [0x6d, 0x61, 0x63, 0x68, 0x69, 0x6e, 0x65];
        assert(name@ =~= machine_name());
        if MountPoint::mount(mounts, MountPoint::new(&name, DRV_MACHINE)) {
            return 1;
        }
        0
    }

    /// Nothing to do once all devices are found.
    pub fn post_enum() {
    }

    /// Nothing to release.
    pub fn release(_dev_id: usize) {
    }

    /// Takes the memory statistics (total and free frames, as text).
    pub fn set_ram_text(&mut self, text: &[u8])
        ensures
            final(self).ram_text@ == text@,
            final(self).cpu_text@ == old(self).cpu_text@,
            final(self).num_cpus == old(self).num_cpus,
            final(self).requested == old(self).requested,
    {
        self.ram_text = crate::fs::bytes_to_vec(text);
    }

    /// Opens `machine:/` (the root), `machine:/cpuN` for each processor N
    /// that is up, or `machine:/ram`.
    pub fn fops_open(&self, full_path: &[u8], dent: &mut DirectoryEntry) -> (r: Result<usize, Error>)
        ensures
            ({
                let p = spec_relative_path(full_path@);
                if p == root_path() {
                    &&& r == Ok::<usize, Error>(DEV_HANDLE_DEFAULT)
                    &&& final(dent).name@.len() == 0 && final(dent).size == 0
                    &&& final(dent).flags == DEV_RX_DIR_FLAGS
                } else if p.len() >= 4 && p.subrange(0, 4) == slash_path(cpu_prefix()) {
                    match spec_cpu_of_path(p) {
                        Some(n) if n < self.num_cpus => {
                            &&& r == Ok::<usize, Error>(n)
                            &&& final(dent).name@ == cpu_name(n as nat)
                            &&& final(dent).size == 0 && final(dent).flags == DEV_R_FILE_FLAGS
                        },
                        _ => is_err_code(r, ErrorCode::InvalidPath) && *final(dent) == *old(dent),
                    }
                } else if p == slash_path(ram_name()) {
                    &&& r == Ok::<usize, Error>(DEV_HANDLE_RAM)
                    &&& final(dent).name@ == ram_name()
                    &&& final(dent).size == RAM_FILE_SIZE && final(dent).flags == DEV_R_FILE_FLAGS
                } else {
                    is_err_code(r, ErrorCode::InvalidPath) && *final(dent) == *old(dent)
                }
            }),
    {
        let mpath = MountPoint::device_relative_path(full_path);
        assert(mpath@ == spec_relative_path(full_path@));
        let root: [u8; 1] = [0x2f];
        let cpu_p: [u8; 4] = [0x2f, 0x63, 0x70, 0x75];
        let ram_p: [u8; 4] = [0x2f, 0x72, 0x61, 0x6d];
        let ram: [u8; 3] = [0x72, 0x61, 0x6d];
        assert(root@ =~= root_path());
        assert(cpu_p@ =~= slash_path(cpu_prefix()));
        assert(ram_p@ =~= slash_path(ram_name()));
        assert(ram@ =~= ram_name());
        if bytes_eq(mpath, &root) {
            dent.name = Vec::new();
            dent.size = 0;
            dent.flags = DEV_RX_DIR_FLAGS;
            return Ok(DEV_HANDLE_DEFAULT);
        }
        if mpath.len() >= 4 && bytes_eq(vstd::slice::slice_subrange(mpath, 0, 4), &cpu_p) {
            let rest = vstd::slice::slice_subrange(mpath, 4, mpath.len());
            match parse_usize(rest) {
                Some(n) => {
                    if n < self.num_cpus {
                        let mut name: Vec<u8> = Vec::new();
                        name.push(0x63);
                        name.push(0x70);
                        name.push(0x75);
                        push_dec(&mut name, n as u64);
                        assert(name@ =~= cpu_name(n as nat));
                        dent.name = name;
                        dent.size = 0;
                        dent.flags = DEV_R_FILE_FLAGS;
                        return Ok(n);
                    }
                },
                None => {},
            }
            return Err(Error::new(ErrorCode::InvalidPath));
        }
        if bytes_eq(mpath, &ram_p) {
            dent.name = crate::fs::bytes_to_vec(&ram);
            dent.size = RAM_FILE_SIZE;
            dent.flags = DEV_R_FILE_FLAGS;
            return Ok(DEV_HANDLE_RAM);
        }
        Err(Error::new(ErrorCode::InvalidPath))
    }

    /// Lists the root: a file for each processor that is up (`cpu0`, `cpu1`,
    /// ...) then `ram`; returns `out`'s length. Only the root has a list.
    pub fn fenum(&self, hnd: usize, out: &mut Vec<DirectoryEntry>) -> (r: Result<usize, Error>)
        requires
            old(out)@.len() + self.num_cpus + 1 <= usize::MAX,
        ensures
            hnd != DEV_HANDLE_DEFAULT ==> is_err_code(r, ErrorCode::InvalidOp) && final(out)@ == old(out)@,
            hnd == DEV_HANDLE_DEFAULT ==> {
                &&& final(out)@.len() == old(out)@.len() + self.num_cpus + 1
                &&& r == Ok::<usize, Error>(final(out)@.len() as usize)
                &&& forall|i: int| 0 <= i < old(out)@.len() ==> #[trigger] final(out)@[i] == old(out)@[i]
                &&& forall|i: int|
                    0 <= i < self.num_cpus ==> {
                        let e = #[trigger] final(out)@[old(out)@.len() + i];
                        e.name@ == cpu_name(i as nat) && e.size == 0 && e.flags == DEV_R_FILE_FLAGS
                    }
                &&& final(out)@.last().name@ == ram_name()
                &&& final(out)@.last().size == 0 && final(out)@.last().flags == DEV_R_FILE_FLAGS
            },
    {
        if hnd != DEV_HANDLE_DEFAULT {
            return Err(Error::new(ErrorCode::InvalidOp));
        }
        let ghost base = out@.len();
        let mut i: usize = 0;
        while i < self.num_cpus
            invariant
                i <= self.num_cpus,
                out@.len() == base + i,
                base == old(out)@.len(),
                forall|j: int| 0 <= j < base ==> #[trigger] out@[j] == old(out)@[j],
                forall|j: int|
                    0 <= j < i ==> {
                        let e = #[trigger] out@[base + j];
                        e.name@ == cpu_name(j as nat) && e.size == 0 && e.flags == DEV_R_FILE_FLAGS
                    },
            decreases self.num_cpus - i,
        {
            let mut name: Vec<u8> = Vec::new();
            name.push(0x63);
            name.push(0x70);
            name.push(0x75);
            push_dec(&mut name, i as u64);
            assert(name@ =~= cpu_name(i as nat));
            out.push(DirectoryEntry { name, size: 0, flags: DEV_R_FILE_FLAGS });
            assert(out@[base + i] == out@.last());
            i = i + 1;
        }
        let ram: [u8; 3] = [0x72, 0x61, 0x6d];
        assert(ram@ =~= ram_name());
        out.push(DirectoryEntry::from_parts(&ram, 0, DEV_R_FILE_FLAGS));
        proof {
            assert forall|j: int| 0 <= j < self.num_cpus implies {
                let e = #[trigger] out@[old(out)@.len() + j];
                e.name@ == cpu_name(j as nat) && e.size == 0 && e.flags == DEV_R_FILE_FLAGS
            } by {
                assert(out@[base + j] == out@[old(out)@.len() + j]);
            }
        }
        Ok(out.len())
    }

    /// Reads the memory statistics (the RAM file) or a processor's
    /// statistics (its file) from offset `off`; no other file is read.
    pub fn fread(&self, hnd: usize, off: usize, buff: &mut [u8]) -> (r: Result<usize, Error>)
        requires
            hnd == DEV_HANDLE_RAM ==> off <= self.ram_text@.len(),
            hnd != DEV_HANDLE_RAM && hnd < self.num_cpus ==> off <= self.cpu_stats(hnd as int).len(),
        ensures
            hnd != DEV_HANDLE_RAM && hnd >= self.num_cpus ==> is_err_code(r, ErrorCode::InvalidOp)
                && final(buff)@ == old(buff)@,
            hnd == DEV_HANDLE_RAM || hnd < self.num_cpus ==> {
                let t = if hnd == DEV_HANDLE_RAM {
                    self.ram_text@
                } else {
                    self.cpu_stats(hnd as int)
                };
                let n = vstd::math::min(t.len() - off, old(buff)@.len() as int);
                &&& r == Ok::<usize, Error>(n as usize)
                &&& final(buff)@ == t.subrange(off as int, off + n) + old(buff)@.subrange(
                    n,
                    old(buff)@.len() as int,
                )
            },
    {
        if hnd == DEV_HANDLE_RAM {
            let n = read_text(self.ram_text.as_slice(), off, buff);
            return Ok(n);
        }
        if hnd < self.num_cpus {
            if hnd < self.cpu_text.len() {
                let n = read_text(self.cpu_text[hnd].as_slice(), off, buff);
                return Ok(n);
            }
            let empty: [u8; 0] = [];
            assert(empty@ =~= Seq::<u8>::empty());
            let n = read_text(&empty, off, buff);
            return Ok(n);
        }
        Err(Error::new(ErrorCode::InvalidOp))
    }

    /// Runs a system-wide function on the root: reboot (1) or the kernel's
    /// self test (2), which is then due.
    pub fn fops_exec(&mut self, hnd: usize, func: usize) -> (r: Result<usize, Error>)
        ensures
            final(self).num_cpus == old(self).num_cpus && final(self).ram_text@ == old(self).ram_text@,
            final(self).cpu_text@ == old(self).cpu_text@,
            hnd == DEV_HANDLE_DEFAULT && func == FUNC_REBOOT ==> r == Ok::<usize, Error>(0)
                && final(self).requested == Some(MachineFunc::Reboot),
            hnd == DEV_HANDLE_DEFAULT && func == FUNC_KERNEL_SELF_TEST ==> r == Ok::<usize, Error>(0)
                && final(self).requested == Some(MachineFunc::SelfTest),
            hnd != DEV_HANDLE_DEFAULT || (func != FUNC_REBOOT && func != FUNC_KERNEL_SELF_TEST)
                ==> is_err_code(r, ErrorCode::InvalidHandle) && final(self).requested == old(self).requested,
    {
        if hnd != DEV_HANDLE_DEFAULT {
            return Err(Error::new(ErrorCode::InvalidHandle));
        }
        if func == FUNC_REBOOT {
            self.requested = Some(MachineFunc::Reboot);
        } else if func == FUNC_KERNEL_SELF_TEST {
            self.requested = Some(MachineFunc::SelfTest);
        } else {
            return Err(Error::new(ErrorCode::InvalidHandle));
        }
        Ok(0)
    }

    /// The function asked for, which is then no longer due.
    pub fn take_request(&mut self) -> (f: Option<MachineFunc>)
        ensures
            f == old(self).requested,
            final(self).requested is None,
            final(self).num_cpus == old(self).num_cpus && final(self).ram_text@ == old(self).ram_text@,
            final(self).cpu_text@ == old(self).cpu_text@,
    {
        let f = self.requested;
        self.requested = None;
        f
    }

    /// Closes the root, the RAM file or a processor's file.
    pub fn fops_close(&self, hnd: usize) -> (r: Result<usize, Error>)
        ensures
            hnd == DEV_HANDLE_DEFAULT || hnd == DEV_HANDLE_RAM || hnd < self.num_cpus ==> r == Ok::<usize, Error>(0),
            !(hnd == DEV_HANDLE_DEFAULT || hnd == DEV_HANDLE_RAM || hnd < self.num_cpus) ==> is_err_code(r, ErrorCode::InvalidHandle),
    {
        if hnd == DEV_HANDLE_DEFAULT || hnd == DEV_HANDLE_RAM || hnd < self.num_cpus {
            return Ok(0);
        }
        Err(Error::new(ErrorCode::InvalidHandle))
    }

    /// The device takes no writes.
    pub fn fops_write(&self, hnd: usize) -> (r: Result<usize, Error>)
        ensures
            is_err_code(r, ErrorCode::InvalidOp),
    {
        Err(Error::new(ErrorCode::InvalidOp))
    }
}

} // verus!
