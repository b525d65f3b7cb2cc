//! System call numbers, argument blocks and the parts of the system call
//! handlers that decide and format what user space gets back.
use vstd::prelude::*;
use crate::ErrorCode;
use crate::fs::DirectoryEntry;
use crate::fs::{contains_byte, find_byte, first_index, is_first_index, lemma_first_index_unique};
use crate::text::{is_utf8, utf8_valid};
use crate::util::{copy_at, dec_text, hex_text, push_dec, push_hex, sub_vec};

verus! {

/// Where the boot loader left the RAM disk image.
pub struct RamdiskInfo {
    pub start_phy_addr: usize,
    pub end_phy_addr: usize,
}

/// Task control: the current task.
pub struct TaskControlCurrentArguments {
    pub tid: usize,
    pub pid: usize,
    pub name: [u8; 64],
}

/// Task control: spawn a task in the current process.
pub struct TaskControlSpawnArguments {
    pub func_ptr: usize,
    pub func_arg: usize,
    pub name: [u8; 64],
    pub name_len: usize,
    pub tid: usize,
    pub pid: usize,
}

/// Task control: wait for a task.
pub struct TaskControlJoinArguments {
    pub tid: usize,
    pub joined: bool,
}

/// Process control: the current process.
pub struct ProcCtlCurrentArgs {
    pub pid: usize,
    pub main_tid: usize,
}

/// Process control: details of the current process.
pub struct ProcCtlGetInfoArgs {
    pub pid: usize,
    pub name: [u8; 64],
    pub cmd_line: [u8; 1024],
    pub main_tid: usize,
    pub task_count: usize,
    pub fd_count: usize,
    pub img_base: usize,
    pub img_size: usize,
    pub heap_base: usize,
    pub heap_size: usize,
    pub stack_top: usize,
    pub total_mem_usage: usize,
    pub meta_mem_usage: usize,
}

/// Process control: start a process from a command line.
pub struct ProcCtlSpawnArgs {
    pub cmd_ptr: usize,
    pub cmd_len: usize,
    pub pid: usize,
    pub m_tid: usize,
}

/// Process control: grow (positive) or shrink (negative) the heap.
pub struct ProcCtlResizeHeapArgs {
    pub delta: isize,
    pub heap_base: usize,
    pub heap_size: usize,
}

/// Time control: the TSC frequency.
pub struct TimeCtlTscFreqArgs {
    pub tsc_freq_hz: u64,
}

/// Open a file: path and mode in, descriptor, attributes and size out.
pub struct VfsOpenArgs {
    pub path_ptr: usize,
    pub path_len: usize,
    pub mode: usize,
    pub fd: usize,
    pub attr: usize,
    pub size: usize,
}

/// List a directory into a user buffer.
pub struct VfsEnumArgs {
    pub fd: usize,
    pub buf_ptr: usize,
    pub buf_len: usize,
    pub skip: usize,
    pub count: usize,
}

/// Read or write a file at an offset.
pub struct VfsReadWriteArgs {
    pub fd: usize,
    pub offset: usize,
    pub buf_ptr: usize,
    pub buf_len: usize,
    pub bytes: usize,
}

/// Run a device command.
pub struct VfsExecArgs {
    pub fd: usize,
    pub func_code: usize,
    pub args_ptr: usize,
    pub args_len: usize,
    pub ret_val: usize,
}

/// System call numbers.
#[derive(Clone, Copy, Debug, PartialEq, Eq, Structural)]
pub enum SyscallOpCode {
    TaskCtl,
    ProcCtl,
    TimeCtl,
    Open,
    Enum,
    Read,
    Write,
    Exec,
    Close,
    /// One past the last system call
    Max,
}

/// The number that stands for each `SyscallOpCode`.
pub open spec fn spec_syscall_opcode_value(c: SyscallOpCode) -> usize {
    match c {
        SyscallOpCode::TaskCtl => 0,
        SyscallOpCode::ProcCtl => 1,
        SyscallOpCode::TimeCtl => 2,
        SyscallOpCode::Open => 3,
        SyscallOpCode::Enum => 4,
        SyscallOpCode::Read => 5,
        SyscallOpCode::Write => 6,
        SyscallOpCode::Exec => 7,
        SyscallOpCode::Close => 8,
        SyscallOpCode::Max => 9,
    }
}

/// The `SyscallOpCode` a number stands for, if any.
pub open spec fn spec_syscall_opcode_from_value(v: usize) -> Option<SyscallOpCode> {
    if v == 0 {
        Some(SyscallOpCode::TaskCtl)
    } else if v == 1 {
        Some(SyscallOpCode::ProcCtl)
    } else if v == 2 {
        Some(SyscallOpCode::TimeCtl)
    } else if v == 3 {
        Some(SyscallOpCode::Open)
    } else if v == 4 {
        Some(SyscallOpCode::Enum)
    } else if v == 5 {
        Some(SyscallOpCode::Read)
    } else if v == 6 {
        Some(SyscallOpCode::Write)
    } else if v == 7 {
        Some(SyscallOpCode::Exec)
    } else if v == 8 {
        Some(SyscallOpCode::Close)
    } else if v == 9 {
        Some(SyscallOpCode::Max)
    } else {
        None
    }
}

impl SyscallOpCode {
    /// Its number.
    pub fn value(&self) -> (v: usize)
        ensures
            v == spec_syscall_opcode_value(*self),
    {
        match self {
            SyscallOpCode::TaskCtl => 0,
            SyscallOpCode::ProcCtl => 1,
            SyscallOpCode::TimeCtl => 2,
            SyscallOpCode::Open => 3,
            SyscallOpCode::Enum => 4,
            SyscallOpCode::Read => 5,
            SyscallOpCode::Write => 6,
            SyscallOpCode::Exec => 7,
            SyscallOpCode::Close => 8,
            SyscallOpCode::Max => 9,
        }
    }

    /// The variant a number stands for, if any.
    pub fn from_value(v: usize) -> (r: Option<Self>)
        ensures
            r == spec_syscall_opcode_from_value(v),
    {
        if v == 0 {
            Some(SyscallOpCode::TaskCtl)
        } else if v == 1 {
            Some(SyscallOpCode::ProcCtl)
        } else if v == 2 {
            Some(SyscallOpCode::TimeCtl)
        } else if v == 3 {
            Some(SyscallOpCode::Open)
        } else if v == 4 {
            Some(SyscallOpCode::Enum)
        } else if v == 5 {
            Some(SyscallOpCode::Read)
        } else if v == 6 {
            Some(SyscallOpCode::Write)
        } else if v == 7 {
            Some(SyscallOpCode::Exec)
        } else if v == 8 {
            Some(SyscallOpCode::Close)
        } else if v == 9 {
            Some(SyscallOpCode::Max)
        } else {
            None
        }
    }
}

/// Every `SyscallOpCode` is read back from its number, and a number is read as
/// a `SyscallOpCode` only when it is that variant's number.
pub proof fn lemma_syscall_opcode_roundtrip(c: SyscallOpCode, v: usize)
    ensures
        spec_syscall_opcode_from_value(spec_syscall_opcode_value(c)) == Some(c),
        spec_syscall_opcode_from_value(v) matches Some(d) ==> spec_syscall_opcode_value(d) == v,
{
}

/// File descriptors every process has.
#[derive(Clone, Copy, Debug, PartialEq, Eq, Structural)]
pub enum SyscallRsvdFDs {
    StandardIO,
    StandardError,
    /// Reads give the names of the mount points and devices
    SystemResources,
    Max,
}

/// The number that stands for each `SyscallRsvdFDs`.
pub open spec fn spec_rsvd_fd_value(c: SyscallRsvdFDs) -> usize {
    match c {
        SyscallRsvdFDs::StandardIO => 0,
        SyscallRsvdFDs::StandardError => 1,
        SyscallRsvdFDs::SystemResources => 2,
        SyscallRsvdFDs::Max => 3,
    }
}

/// The `SyscallRsvdFDs` a number stands for, if any.
pub open spec fn spec_rsvd_fd_from_value(v: usize) -> Option<SyscallRsvdFDs> {
    if v == 0 {
        Some(SyscallRsvdFDs::StandardIO)
    } else if v == 1 {
        Some(SyscallRsvdFDs::StandardError)
    } else if v == 2 {
        Some(SyscallRsvdFDs::SystemResources)
    } else if v == 3 {
        Some(SyscallRsvdFDs::Max)
    } else {
        None
    }
}

impl SyscallRsvdFDs {
    /// Its number.
    pub fn value(&self) -> (v: usize)
        ensures
            v == spec_rsvd_fd_value(*self),
    {
        match self {
            SyscallRsvdFDs::StandardIO => 0,
            SyscallRsvdFDs::StandardError => 1,
            SyscallRsvdFDs::SystemResources => 2,
            SyscallRsvdFDs::Max => 3,
        }
    }

    /// The variant a number stands for, if any.
    pub fn from_value(v: usize) -> (r: Option<Self>)
        ensures
            r == spec_rsvd_fd_from_value(v),
    {
        if v == 0 {
            Some(SyscallRsvdFDs::StandardIO)
        } else if v == 1 {
            Some(SyscallRsvdFDs::StandardError)
        } else if v == 2 {
            Some(SyscallRsvdFDs::SystemResources)
        } else if v == 3 {
            Some(SyscallRsvdFDs::Max)
        } else {
            None
        }
    }
}

/// Every `SyscallRsvdFDs` is read back from its number, and a number is read as
/// a `SyscallRsvdFDs` only when it is that variant's number.
pub proof fn lemma_rsvd_fd_roundtrip(c: SyscallRsvdFDs, v: usize)
    ensures
        spec_rsvd_fd_from_value(spec_rsvd_fd_value(c)) == Some(c),
        spec_rsvd_fd_from_value(v) matches Some(d) ==> spec_rsvd_fd_value(d) == v,
{
}

/// Task control operations.
#[derive(Clone, Copy, Debug, PartialEq, Eq, Structural)]
pub enum TaskControlOpCode {
    Exit,
    Current,
    CurrentCpu,
    Spawn,
    Join,
    Yield,
    Sleep,
}

/// The number that stands for each `TaskControlOpCode`.
pub open spec fn spec_task_ctl_opcode_value(c: TaskControlOpCode) -> usize {
    match c {
        TaskControlOpCode::Exit => 0,
        TaskControlOpCode::Current => 1,
        TaskControlOpCode::CurrentCpu => 2,
        TaskControlOpCode::Spawn => 3,
        TaskControlOpCode::Join => 4,
        TaskControlOpCode::Yield => 5,
        TaskControlOpCode::Sleep => 6,
    }
}

/// The `TaskControlOpCode` a number stands for, if any.
pub open spec fn spec_task_ctl_opcode_from_value(v: usize) -> Option<TaskControlOpCode> {
    if v == 0 {
        Some(TaskControlOpCode::Exit)
    } else if v == 1 {
        Some(TaskControlOpCode::Current)
    } else if v == 2 {
        Some(TaskControlOpCode::CurrentCpu)
    } else if v == 3 {
        Some(TaskControlOpCode::Spawn)
    } else if v == 4 {
        Some(TaskControlOpCode::Join)
    } else if v == 5 {
        Some(TaskControlOpCode::Yield)
    } else if v == 6 {
        Some(TaskControlOpCode::Sleep)
    } else {
        None
    }
}

impl TaskControlOpCode {
    /// Its number.
    pub fn value(&self) -> (v: usize)
        ensures
            v == spec_task_ctl_opcode_value(*self),
    {
        match self {
            TaskControlOpCode::Exit => 0,
            TaskControlOpCode::Current => 1,
            TaskControlOpCode::CurrentCpu => 2,
            TaskControlOpCode::Spawn => 3,
            TaskControlOpCode::Join => 4,
            TaskControlOpCode::Yield => 5,
            TaskControlOpCode::Sleep => 6,
        }
    }

    /// The variant a number stands for, if any.
    pub fn from_value(v: usize) -> (r: Option<Self>)
        ensures
            r == spec_task_ctl_opcode_from_value(v),
    {
        if v == 0 {
            Some(TaskControlOpCode::Exit)
        } else if v == 1 {
            Some(TaskControlOpCode::Current)
        } else if v == 2 {
            Some(TaskControlOpCode::CurrentCpu)
        } else if v == 3 {
            Some(TaskControlOpCode::Spawn)
        } else if v == 4 {
            Some(TaskControlOpCode::Join)
        } else if v == 5 {
            Some(TaskControlOpCode::Yield)
        } else if v == 6 {
            Some(TaskControlOpCode::Sleep)
        } else {
            None
        }
    }
}

/// Every `TaskControlOpCode` is read back from its number, and a number is read as
/// a `TaskControlOpCode` only when it is that variant's number.
pub proof fn lemma_task_ctl_opcode_roundtrip(c: TaskControlOpCode, v: usize)
    ensures
        spec_task_ctl_opcode_from_value(spec_task_ctl_opcode_value(c)) == Some(c),
        spec_task_ctl_opcode_from_value(v) matches Some(d) ==> spec_task_ctl_opcode_value(d) == v,
{
}

/// Process control operations.
#[derive(Clone, Copy, Debug, PartialEq, Eq, Structural)]
pub enum ProcCtlOpCode {
    Exit,
    /// PID and TID of the main task of the current process
    Current,
    /// Details of the current process
    GetInfo,
    /// Grow or shrink the heap
    ResizeHeap,
    /// Start a process from an executable file
    Spawn,
    /// Clone the current process
    Fork,
    /// Replace the current process with an executable
    Exec,
}

/// The number that stands for each `ProcCtlOpCode`.
pub open spec fn spec_proc_ctl_opcode_value(c: ProcCtlOpCode) -> usize {
    match c {
        ProcCtlOpCode::Exit => 0,
        ProcCtlOpCode::Current => 1,
        ProcCtlOpCode::GetInfo => 2,
        ProcCtlOpCode::ResizeHeap => 3,
        ProcCtlOpCode::Spawn => 4,
        ProcCtlOpCode::Fork => 5,
        ProcCtlOpCode::Exec => 6,
    }
}

/// The `ProcCtlOpCode` a number stands for, if any.
pub open spec fn spec_proc_ctl_opcode_from_value(v: usize) -> Option<ProcCtlOpCode> {
    if v == 0 {
        Some(ProcCtlOpCode::Exit)
    } else if v == 1 {
        Some(ProcCtlOpCode::Current)
    } else if v == 2 {
        Some(ProcCtlOpCode::GetInfo)
    } else if v == 3 {
        Some(ProcCtlOpCode::ResizeHeap)
    } else if v == 4 {
        Some(ProcCtlOpCode::Spawn)
    } else if v == 5 {
        Some(ProcCtlOpCode::Fork)
    } else if v == 6 {
        Some(ProcCtlOpCode::Exec)
    } else {
        None
    }
}

impl ProcCtlOpCode {
    /// Its number.
    pub fn value(&self) -> (v: usize)
        ensures
            v == spec_proc_ctl_opcode_value(*self),
    {
        match self {
            ProcCtlOpCode::Exit => 0,
            ProcCtlOpCode::Current => 1,
            ProcCtlOpCode::GetInfo => 2,
            ProcCtlOpCode::ResizeHeap => 3,
            ProcCtlOpCode::Spawn => 4,
            ProcCtlOpCode::Fork => 5,
            ProcCtlOpCode::Exec => 6,
        }
    }

    /// The variant a number stands for, if any.
    pub fn from_value(v: usize) -> (r: Option<Self>)
        ensures
            r == spec_proc_ctl_opcode_from_value(v),
    {
        if v == 0 {
            Some(ProcCtlOpCode::Exit)
        } else if v == 1 {
            Some(ProcCtlOpCode::Current)
        } else if v == 2 {
            Some(ProcCtlOpCode::GetInfo)
        } else if v == 3 {
            Some(ProcCtlOpCode::ResizeHeap)
        } else if v == 4 {
            Some(ProcCtlOpCode::Spawn)
        } else if v == 5 {
            Some(ProcCtlOpCode::Fork)
        } else if v == 6 {
            Some(ProcCtlOpCode::Exec)
        } else {
            None
        }
    }
}

/// Every `ProcCtlOpCode` is read back from its number, and a number is read as
/// a `ProcCtlOpCode` only when it is that variant's number.
pub proof fn lemma_proc_ctl_opcode_roundtrip(c: ProcCtlOpCode, v: usize)
    ensures
        spec_proc_ctl_opcode_from_value(spec_proc_ctl_opcode_value(c)) == Some(c),
        spec_proc_ctl_opcode_from_value(v) matches Some(d) ==> spec_proc_ctl_opcode_value(d) == v,
{
}

/// Time control operations.
#[derive(Clone, Copy, Debug, PartialEq, Eq, Structural)]
pub enum TimeCtlOpCode {
    /// The TSC frequency in Hz
    GetTscFreq,
    /// The current UNIX time
    GetRealTime,
    /// Set the current UNIX time
    SetRealTime,
}

/// The number that stands for each `TimeCtlOpCode`.
pub open spec fn spec_time_ctl_opcode_value(c: TimeCtlOpCode) -> usize {
    match c {
        TimeCtlOpCode::GetTscFreq => 0,
        TimeCtlOpCode::GetRealTime => 1,
        TimeCtlOpCode::SetRealTime => 2,
    }
}

/// The `TimeCtlOpCode` a number stands for, if any.
pub open spec fn spec_time_ctl_opcode_from_value(v: usize) -> Option<TimeCtlOpCode> {
    if v == 0 {
        Some(TimeCtlOpCode::GetTscFreq)
    } else if v == 1 {
        Some(TimeCtlOpCode::GetRealTime)
    } else if v == 2 {
        Some(TimeCtlOpCode::SetRealTime)
    } else {
        None
    }
}

impl TimeCtlOpCode {
    /// Its number.
    pub fn value(&self) -> (v: usize)
        ensures
            v == spec_time_ctl_opcode_value(*self),
    {
        match self {
            TimeCtlOpCode::GetTscFreq => 0,
            TimeCtlOpCode::GetRealTime => 1,
            TimeCtlOpCode::SetRealTime => 2,
        }
    }

    /// The variant a number stands for, if any.
    pub fn from_value(v: usize) -> (r: Option<Self>)
        ensures
            r == spec_time_ctl_opcode_from_value(v),
    {
        if v == 0 {
            Some(TimeCtlOpCode::GetTscFreq)
        } else if v == 1 {
            Some(TimeCtlOpCode::GetRealTime)
        } else if v == 2 {
            Some(TimeCtlOpCode::SetRealTime)
        } else {
            None
        }
    }
}

/// Every `TimeCtlOpCode` is read back from its number, and a number is read as
/// a `TimeCtlOpCode` only when it is that variant's number.
pub proof fn lemma_time_ctl_opcode_roundtrip(c: TimeCtlOpCode, v: usize)
    ensures
        spec_time_ctl_opcode_from_value(spec_time_ctl_opcode_value(c)) == Some(c),
        spec_time_ctl_opcode_from_value(v) matches Some(d) ==> spec_time_ctl_opcode_value(d) == v,
{
}

// ---------------------------------------------------------------------------
// Resource listing (reads of the SystemResources descriptor)
// ---------------------------------------------------------------------------

/// The listing built from `names` into a buffer of `cap` bytes, after `acc`:
/// each name followed by a newline, skipping those that do not fit.
pub open spec fn resources_fill(names: Seq<Seq<u8>>, cap: int, acc: Seq<u8>) -> Seq<u8>
    decreases names.len(),
{
    if names.len() == 0 {
        acc
    } else {
        let next = if names[0].len() + 1 < cap - acc.len() {
            acc + names[0].push(0x0au8)
        } else {
            acc
        };
        resources_fill(names.drop_first(), cap, next)
    }
}

proof fn lemma_resources_fill_len(names: Seq<Seq<u8>>, cap: int, acc: Seq<u8>)
    requires
        acc.len() <= cap,
    ensures
        resources_fill(names, cap, acc).len() <= cap,
        acc.len() <= resources_fill(names, cap, acc).len(),
        resources_fill(names, cap, acc).subrange(0, acc.len() as int) == acc,
        resources_fill(names, cap, acc).len() > acc.len() ==> resources_fill(names, cap, acc).last()
            == 0x0au8,
    decreases names.len(),
{
    if names.len() > 0 {
        let next = if names[0].len() + 1 < cap - acc.len() {
            acc + names[0].push(0x0au8)
        } else {
            acc
        };
        lemma_resources_fill_len(names.drop_first(), cap, next);
        let r = resources_fill(names.drop_first(), cap, next);
        assert(r.subrange(0, acc.len() as int) =~= r.subrange(0, next.len() as int).subrange(
            0,
            acc.len() as int,
        ));
        if r.len() == next.len() && next.len() > acc.len() {
            assert(r =~= next);
        }
    }
}

/// The names as byte sequences.
pub open spec fn name_views(names: Seq<Vec<u8>>) -> Seq<Seq<u8>> {
    names.map_values(|v: Vec<u8>| v@)
}

/// Writes the mount point and device names, one per line, into `out_buffer`
/// (names that do not fit are skipped); the last newline becomes a 0 byte
/// and is not counted. Returns the number of bytes of text.
pub fn syscall_read_resources(names: &Vec<Vec<u8>>, out_buffer: &mut [u8]) -> (n: usize)
    ensures
        ({
            let t = resources_fill(name_views(names@), old(out_buffer)@.len() as int, Seq::empty());
            let rest = old(out_buffer)@.subrange(t.len() as int, old(out_buffer)@.len() as int);
            if t.len() == 0 {
                n == 0 && final(out_buffer)@ == old(out_buffer)@
            } else {
                &&& n == t.len() - 1
                &&& final(out_buffer)@ == t.drop_last().push(0u8) + rest
            }
        }),
{
    let ghost cap = out_buffer@.len() as int;
    let ghost nv = name_views(names@);
    let ghost buf0 = out_buffer@;
    let mut out_index: usize = 0;
    let mut i: usize = 0;
    proof {
        lemma_resources_fill_len(nv, cap, Seq::empty());
        assert(nv.subrange(0, nv.len() as int) =~= nv);
        assert(out_buffer@.subrange(0, 0) =~= Seq::<u8>::empty());
    }
    while i < names.len()
        invariant
            i <= names@.len(),
            nv == name_views(names@),
            cap == out_buffer@.len(),
            out_buffer@.len() == buf0.len(),
            out_index <= cap,
            resources_fill(nv, cap, Seq::empty()) == resources_fill(
                nv.subrange(i as int, nv.len() as int),
                cap,
                out_buffer@.subrange(0, out_index as int),
            ),
            out_buffer@.subrange(out_index as int, cap) == buf0.subrange(out_index as int, cap),
        decreases names@.len() - i,
    {
        let ghost acc = out_buffer@.subrange(0, out_index as int);
        let ghost pre = out_buffer@;
        let ghost tail = nv.subrange(i as int, nv.len() as int);
        assert(tail[0] == names@[i as int]@);
        assert(tail.drop_first() =~= nv.subrange(i + 1, nv.len() as int));
        let nlen = names[i].len();
        if out_buffer.len() - out_index > 0 && nlen < out_buffer.len() - out_index - 1 {
            let mut line = names[i].clone();
            line.push(0x0a);
            copy_at(out_buffer, out_index, &line);
            let ghost oi = out_index as int;
            out_index = out_index + line.len();
            proof {
                assert(out_buffer@.subrange(0, out_index as int) =~= acc + names@[i as int]@.push(
                    0x0au8,
                ));
                assert(out_buffer@.subrange(out_index as int, cap) =~= buf0.subrange(
                    out_index as int,
                    cap,
                )) by {
                    assert forall|j: int| 0 <= j < cap - out_index implies out_buffer@.subrange(
                        out_index as int,
                        cap,
                    )[j] == buf0.subrange(out_index as int, cap)[j] by {
                        assert(pre.subrange(oi, cap)[out_index - oi + j] == buf0.subrange(
                            oi,
                            cap,
                        )[out_index - oi + j]);
                    }
                }
            }
        }
        i = i + 1;
    }
    proof {
        assert(nv.subrange(i as int, nv.len() as int) =~= Seq::<Seq<u8>>::empty());
    }
    let ghost t = out_buffer@.subrange(0, out_index as int);
    proof {
        lemma_resources_fill_len(nv, cap, Seq::empty());
    }
    if out_index > 0 && out_buffer[out_index - 1] == 0x0a {
        let ghost pre = out_buffer@;
        out_buffer[out_index - 1] = 0;
        out_index = out_index - 1;
        proof {
            assert(out_buffer@ =~= t.drop_last().push(0u8) + buf0.subrange(t.len() as int, cap)) by {
                assert(pre =~= pre.subrange(0, t.len() as int) + pre.subrange(t.len() as int, cap));
            }
        }
    } else {
        proof {
            assert(t.len() == 0);
            assert(out_buffer@ =~= buf0) by {
                assert(out_buffer@ =~= out_buffer@.subrange(0, cap));
            }
        }
    }
    out_index
}

// ---------------------------------------------------------------------------
// Directory listings (the Enum system call)
// ---------------------------------------------------------------------------

/// The line an entry is listed as: `name,SIZE,FLAGS\n` in hexadecimal.
pub open spec fn enum_line(e: DirectoryEntry) -> Seq<u8> {
    e.name@ + seq![0x2cu8] + hex_text(e.size as nat) + seq![0x2cu8] + hex_text(e.flags as nat)
        + seq![0x0au8]
}

/// The listing of a sequence of entries: their lines, in order.
pub open spec fn enum_listing(entries: Seq<DirectoryEntry>) -> Seq<u8>
    decreases entries.len(),
{
    if entries.len() == 0 {
        Seq::empty()
    } else {
        enum_listing(entries.drop_last()) + enum_line(entries.last())
    }
}

/// Formats a directory listing as the Enum system call returns it.
pub fn serialize_entries(entries: &Vec<DirectoryEntry>) -> (t: Vec<u8>)
    ensures
        t@ == enum_listing(entries@),
{
    let mut t: Vec<u8> = Vec::new();
    let mut i: usize = 0;
    while i < entries.len()
        invariant
            i <= entries@.len(),
            t@ == enum_listing(entries@.subrange(0, i as int)),
        decreases entries@.len() - i,
    {
        let ghost before = t@;
        let e = &entries[i];
        let mut j: usize = 0;
        while j < e.name.len()
            invariant
                j <= e.name@.len(),
                t@ == before + e.name@.subrange(0, j as int),
            decreases e.name@.len() - j,
        {
            t.push(e.name[j]);
            j = j + 1;
            assert(t@ =~= before + e.name@.subrange(0, j as int));
        }
        t.push(0x2c);
        push_hex(&mut t, e.size as u64);
        t.push(0x2c);
        push_hex(&mut t, e.flags as u64);
        t.push(0x0a);
        proof {
            let s = entries@.subrange(0, i + 1);
            assert(s.drop_last() =~= entries@.subrange(0, i as int));
            assert(s.last() == entries@[i as int]);
            assert(t@ =~= before + enum_line(entries@[i as int]));
        }
        i = i + 1;
    }
    assert(entries@.subrange(0, entries@.len() as int) =~= entries@);
    t
}

/// Copies as much of the listing of `entries` as fits into `out` and
/// returns the number of bytes copied.
pub fn syscall_enum_output(entries: &Vec<DirectoryEntry>, out: &mut [u8]) -> (n: usize)
    ensures
        ({
            let t = enum_listing(entries@);
            &&& n == if old(out)@.len() < t.len() { old(out)@.len() as int } else { t.len() as int }
            &&& final(out)@ == t.subrange(0, n as int) + old(out)@.subrange(
                n as int,
                old(out)@.len() as int,
            )
        }),
{
    let t = serialize_entries(entries);
    let len = if out.len() < t.len() { out.len() } else { t.len() };
    let mut part: Vec<u8> = Vec::new();
    let mut i: usize = 0;
    while i < len
        invariant
            len <= t@.len(),
            i <= len,
            part@ == t@.subrange(0, i as int),
        decreases len - i,
    {
        part.push(t[i]);
        i = i + 1;
        assert(part@ =~= t@.subrange(0, i as int));
    }
    copy_at(out, 0, &part);
    assert(old(out)@.subrange(0, 0) + part@ =~= part@);
    len
}

// ---------------------------------------------------------------------------
// Time control
// ---------------------------------------------------------------------------

/// Size in bytes of the TSC frequency argument block.
pub const TIME_CTL_TSC_FREQ_ARGS_SIZE: usize = 8;

/// What the time control call answers: `None` when there is nowhere to
/// answer, else the status written back. Only the TSC frequency is
/// supported, and it needs an argument block of the right size.
pub fn syscall_time_control_status(opcode: usize, args_ptr: usize, args_len: usize, ret_ptr: usize) -> (r: Option<ErrorCode>)
    ensures
        ret_ptr == 0 ==> r is None,
        ret_ptr != 0 && spec_time_ctl_opcode_from_value(opcode) == Some(TimeCtlOpCode::GetTscFreq)
            ==> r == Some(if args_ptr == 0 || args_len != TIME_CTL_TSC_FREQ_ARGS_SIZE {
            ErrorCode::InvalidArgument
        } else {
            ErrorCode::NoError
        }),
        ret_ptr != 0 && (spec_time_ctl_opcode_from_value(opcode) == Some(TimeCtlOpCode::GetRealTime)
            || spec_time_ctl_opcode_from_value(opcode) == Some(TimeCtlOpCode::SetRealTime)) ==> r
            == Some(ErrorCode::NotSupported),
        ret_ptr != 0 && spec_time_ctl_opcode_from_value(opcode) is None ==> r == Some(
            ErrorCode::InvalidOp,
        ),
{
    if ret_ptr == 0 {
        return None;
    }
    match TimeCtlOpCode::from_value(opcode) {
        Some(TimeCtlOpCode::GetTscFreq) => {
            if args_ptr == 0 || args_len != TIME_CTL_TSC_FREQ_ARGS_SIZE {
                Some(ErrorCode::InvalidArgument)
            } else {
                Some(ErrorCode::NoError)
            }
        },
        Some(_) => Some(ErrorCode::NotSupported),
        None => Some(ErrorCode::InvalidOp),
    }
}

// ---------------------------------------------------------------------------
// Task control
// ---------------------------------------------------------------------------

/// Sizes in bytes of the task control argument blocks (packed layout).
pub const TASK_CTL_CURRENT_ARGS_SIZE: usize = 80;
pub const TASK_CTL_SPAWN_ARGS_SIZE: usize = 104;
pub const TASK_CTL_JOIN_ARGS_SIZE: usize = 9;
/// Longest task name a spawn request can carry, and the longest name
/// written back for the current task.
pub const TASK_NAME_MAX: usize = 64;

/// What a task control call does first, before user memory is read.
#[derive(Clone, Copy, Debug, PartialEq, Eq, Structural)]
pub enum TaskCtlStep {
    /// End the calling task with the status in `args`
    Exit,
    /// Write the number of the current CPU to `ret_ptr`
    ReplyCpu,
    /// Write the calling task's ids and name to `args`, and the block's size to `ret_ptr`
    ReplyCurrent,
    /// Read the spawn request at `args`
    ReadSpawnArgs,
    /// Read the join request at `args`
    ReadJoinArgs,
    /// Give the CPU up
    Yield,
    /// Read the duration at `args` and sleep for it
    ReadSleep,
    /// Write this value to `ret_ptr`
    Reply(usize),
    /// Do nothing
    Nothing,
    /// An unknown operation: log it
    Invalid,
}

pub open spec fn spec_task_control_step(opcode: usize, args: usize, ret_ptr: usize) -> TaskCtlStep {
    match spec_task_ctl_opcode_from_value(opcode) {
        Some(TaskControlOpCode::Exit) => TaskCtlStep::Exit,
        Some(TaskControlOpCode::CurrentCpu) => TaskCtlStep::ReplyCpu,
        Some(TaskControlOpCode::Current) => if args == 0 || ret_ptr == 0 {
            TaskCtlStep::Reply(0)
        } else {
            TaskCtlStep::ReplyCurrent
        },
        Some(TaskControlOpCode::Spawn) => if args == 0 || ret_ptr == 0 {
            TaskCtlStep::Reply(0)
        } else {
            TaskCtlStep::ReadSpawnArgs
        },
        Some(TaskControlOpCode::Join) => if args == 0 || ret_ptr == 0 {
            TaskCtlStep::Reply(0)
        } else {
            TaskCtlStep::ReadJoinArgs
        },
        Some(TaskControlOpCode::Yield) => TaskCtlStep::Yield,
        Some(TaskControlOpCode::Sleep) => if args == 0 {
            TaskCtlStep::Nothing
        } else {
            TaskCtlStep::ReadSleep
        },
        None => TaskCtlStep::Invalid,
    }
}

/// The first step of the task control call `opcode` with the argument
/// pointer `args` and the answer pointer `ret_ptr`.
pub fn task_control_step(opcode: usize, args: usize, ret_ptr: usize) -> (s: TaskCtlStep)
    ensures
        s == spec_task_control_step(opcode, args, ret_ptr),
{
    match TaskControlOpCode::from_value(opcode) {
        Some(TaskControlOpCode::Exit) => TaskCtlStep::Exit,
        Some(TaskControlOpCode::CurrentCpu) => TaskCtlStep::ReplyCpu,
        Some(TaskControlOpCode::Current) => if args == 0 || ret_ptr == 0 {
            TaskCtlStep::Reply(0)
        } else {
            TaskCtlStep::ReplyCurrent
        },
        Some(TaskControlOpCode::Spawn) => if args == 0 || ret_ptr == 0 {
            TaskCtlStep::Reply(0)
        } else {
            TaskCtlStep::ReadSpawnArgs
        },
        Some(TaskControlOpCode::Join) => if args == 0 || ret_ptr == 0 {
            TaskCtlStep::Reply(0)
        } else {
            TaskCtlStep::ReadJoinArgs
        },
        Some(TaskControlOpCode::Yield) => TaskCtlStep::Yield,
        Some(TaskControlOpCode::Sleep) => if args == 0 {
            TaskCtlStep::Nothing
        } else {
            TaskCtlStep::ReadSleep
        },
        None => TaskCtlStep::Invalid,
    }
}

/// The bytes `UnnamedTask`.
pub open spec fn unnamed_task() -> Seq<u8> {
    seq![0x55u8, 0x6e, 0x6e, 0x61, 0x6d, 0x65, 0x64, 0x54, 0x61, 0x73, 0x6b]
}

/// The name a spawn request gives its task: its first `name_len` bytes
/// when there are some and they are UTF-8, else `UnnamedTask`.
pub open spec fn spec_spawn_task_name(name: Seq<u8>, name_len: usize) -> Seq<u8> {
    if name_len > 0 && utf8_valid(name.subrange(0, name_len as int)) {
        name.subrange(0, name_len as int)
    } else {
        unnamed_task()
    }
}

/// The name of the task a spawn request asks for, or `None` when it is
/// refused: a name longer than 64 bytes or no function to run.
pub fn spawn_task_name(func_ptr: usize, name: &[u8; 64], name_len: usize) -> (r: Option<Vec<u8>>)
    ensures
        name_len > TASK_NAME_MAX || func_ptr == 0 ==> r is None,
        name_len <= TASK_NAME_MAX && func_ptr != 0 ==> (r matches Some(n) && n@ == spec_spawn_task_name(
            name@,
            name_len,
        )),
{
    if name_len > TASK_NAME_MAX || func_ptr == 0 {
        return None;
    }
    let given = sub_vec(name, 0, name_len);
    if name_len > 0 && is_utf8(given.as_slice()) {
        Some(given)
    } else {
        let v: Vec<u8> = vec![0x55, 0x6e, 0x6e, 0x61, 0x6d, 0x65, 0x64, 0x54, 0x61, 0x73, 0x6b];
        assert(v@ =~= unnamed_task());
        Some(v)
    }
}

/// What a spawn call answers: the request's size once a task was made
/// (its TID is not 0), else 0.
pub fn spawn_task_reply(new_tid: usize) -> (r: usize)
    ensures
        r == if new_tid != 0 { TASK_CTL_SPAWN_ARGS_SIZE } else { 0 },
{
    if new_tid != 0 {
        TASK_CTL_SPAWN_ARGS_SIZE
    } else {
        0
    }
}

/// The name field written back for the current task: its first 63 bytes
/// at most, then zeros up to 64 bytes.
pub open spec fn spec_current_task_name(tname: Seq<u8>) -> Seq<u8> {
    let n = if tname.len() < 63 { tname.len() as int } else { 63 };
    tname.subrange(0, n) + Seq::new((64 - n) as nat, |i: int| 0u8)
}

/// The name field of the current-task answer.
pub fn current_task_name(tname: &[u8]) -> (out: Vec<u8>)
    ensures
        out@ == spec_current_task_name(tname@),
{
    let n: usize = if tname.len() < 63 { tname.len() } else { 63 };
    let mut out = sub_vec(tname, 0, n);
    let mut i: usize = n;
    while i < TASK_NAME_MAX
        invariant
            n <= i <= 64,
            n <= 63,
            n <= tname@.len(),
            out@ =~= tname@.subrange(0, n as int) + Seq::new((i - n) as nat, |j: int| 0u8),
        decreases 64 - i,
    {
        out.push(0);
        i = i + 1;
    }
    assert(n == (if tname@.len() < 63 { tname@.len() as int } else { 63 }));
    out
}

// ---------------------------------------------------------------------------
// Process control
// ---------------------------------------------------------------------------

/// Sizes in bytes of the process control argument blocks.
pub const PROC_CTL_CURRENT_ARGS_SIZE: usize = 16;
pub const PROC_CTL_GET_INFO_ARGS_SIZE: usize = 1176;
pub const PROC_CTL_RESIZE_HEAP_ARGS_SIZE: usize = 24;

/// What a process control call does first, before user memory is read.
#[derive(Clone, Copy, Debug, PartialEq, Eq, Structural)]
pub enum ProcCtlStep {
    /// Log the exit status in `args`
    Exit,
    /// Look up the main task of the current process and answer with the ids
    ReplyCurrent,
    /// Look up the current process's details and answer with them
    ReplyInfo,
    /// Read the spawn request at `args`
    ReadSpawnArgs,
    /// Read the heap request at `args`
    ReadResizeArgs,
    /// Write this value to `ret_ptr`
    Reply(usize),
    /// Do nothing
    Nothing,
    /// An unknown or unsupported operation: log it
    Invalid,
}

pub open spec fn spec_proc_control_step(opcode: usize, args: usize, ret_ptr: usize) -> ProcCtlStep {
    match spec_proc_ctl_opcode_from_value(opcode) {
        Some(ProcCtlOpCode::Exit) => ProcCtlStep::Exit,
        Some(ProcCtlOpCode::Current) => if args != 0 && ret_ptr != 0 {
            ProcCtlStep::ReplyCurrent
        } else {
            ProcCtlStep::Nothing
        },
        Some(ProcCtlOpCode::GetInfo) => if args != 0 && ret_ptr != 0 {
            ProcCtlStep::ReplyInfo
        } else {
            ProcCtlStep::Reply(0)
        },
        Some(ProcCtlOpCode::Spawn) => if args == 0 {
            ProcCtlStep::Nothing
        } else {
            ProcCtlStep::ReadSpawnArgs
        },
        Some(ProcCtlOpCode::ResizeHeap) => if args == 0 {
            ProcCtlStep::Reply(0)
        } else {
            ProcCtlStep::ReadResizeArgs
        },
        _ => ProcCtlStep::Invalid,
    }
}

/// The first step of the process control call `opcode`.
pub fn proc_control_step(opcode: usize, args: usize, ret_ptr: usize) -> (s: ProcCtlStep)
    ensures
        s == spec_proc_control_step(opcode, args, ret_ptr),
{
    match ProcCtlOpCode::from_value(opcode) {
        Some(ProcCtlOpCode::Exit) => ProcCtlStep::Exit,
        Some(ProcCtlOpCode::Current) => if args != 0 && ret_ptr != 0 {
            ProcCtlStep::ReplyCurrent
        } else {
            ProcCtlStep::Nothing
        },
        Some(ProcCtlOpCode::GetInfo) => if args != 0 && ret_ptr != 0 {
            ProcCtlStep::ReplyInfo
        } else {
            ProcCtlStep::Reply(0)
        },
        Some(ProcCtlOpCode::Spawn) => if args == 0 {
            ProcCtlStep::Nothing
        } else {
            ProcCtlStep::ReadSpawnArgs
        },
        Some(ProcCtlOpCode::ResizeHeap) => if args == 0 {
            ProcCtlStep::Reply(0)
        } else {
            ProcCtlStep::ReadResizeArgs
        },
        _ => ProcCtlStep::Invalid,
    }
}

/// `k` is the index of the last occurrence of `c` in `s`.
pub open spec fn is_last_index(s: Seq<u8>, c: u8, k: int) -> bool {
    &&& 0 <= k < s.len()
    &&& s[k] == c
    &&& forall|j: int| k < j < s.len() ==> s[j] != c
}

/// The bytes of `s` before its first `c` (all of `s` when it has none).
pub open spec fn spec_before_first(s: Seq<u8>, c: u8) -> Seq<u8> {
    if contains_byte(s, c) {
        s.subrange(0, first_index(s, c))
    } else {
        s
    }
}

/// The bytes of `s` after its last `c` (all of `s` when it has none).
pub open spec fn spec_after_last(s: Seq<u8>, c: u8) -> Seq<u8> {
    if contains_byte(s, c) {
        s.subrange((choose|k: int| is_last_index(s, c, k)) + 1, s.len() as int)
    } else {
        s
    }
}

fn find_last_byte(s: &[u8], c: u8) -> (r: Option<usize>)
    ensures
        match r {
            Some(k) => is_last_index(s@, c, k as int),
            None => !contains_byte(s@, c),
        },
{
    let mut i: usize = s.len();
    while i > 0
        invariant
            i <= s@.len(),
            forall|j: int| i <= j < s@.len() ==> s@[j] != c,
        decreases i,
    {
        if s[i - 1] == c {
            return Some(i - 1);
        }
        i = i - 1;
    }
    None
}

/// The program path of a command line: up to its first space.
pub open spec fn spec_cmd_path(cmd: Seq<u8>) -> Seq<u8> {
    spec_before_first(cmd, 0x20)
}

/// The process name of a command line: its path after the last `/`.
pub open spec fn spec_cmd_process_name(cmd: Seq<u8>) -> Seq<u8> {
    spec_after_last(spec_cmd_path(cmd), 0x2f)
}

/// Splits the command line of a spawn request into the program's path and
/// the process name; a command line that is empty or not UTF-8 is refused.
pub fn split_command_line(cmd: &[u8]) -> (r: Result<(Vec<u8>, Vec<u8>), ErrorCode>)
    ensures
        cmd@.len() == 0 || !utf8_valid(cmd@) ==> r == Err::<(Vec<u8>, Vec<u8>), ErrorCode>(
            ErrorCode::InvalidArgument,
        ),
        cmd@.len() > 0 && utf8_valid(cmd@) ==> (r matches Ok((path, pname)) && path@ == spec_cmd_path(
            cmd@,
        ) && pname@ == spec_cmd_process_name(cmd@)),
{
    if cmd.len() == 0 || !is_utf8(cmd) {
        return Err(ErrorCode::InvalidArgument);
    }
    let path = match find_byte(cmd, 0x20) {
        Some(k) => {
            proof {
                lemma_first_index_unique(cmd@, 0x20, k as int);
            }
            sub_vec(cmd, 0, k)
        },
        None => sub_vec(cmd, 0, cmd.len()),
    };
    assert(path@ == spec_cmd_path(cmd@)) by {
        if !contains_byte(cmd@, 0x20) {
            assert(cmd@.subrange(0, cmd@.len() as int) =~= cmd@);
        }
    }
    let pname = match find_last_byte(path.as_slice(), 0x2f) {
        Some(k) => {
            proof {
                let c = choose|j: int| is_last_index(path@, 0x2f, j);
                assert(is_last_index(path@, 0x2f, c));
                if c < k {
                    assert(path@[k as int] != 0x2f);
                } else if c > k {
                    assert(path@[c] != 0x2f);
                }
            }
            sub_vec(path.as_slice(), k + 1, path.len() - (k + 1))
        },
        None => {
            assert(path@.subrange(0, path@.len() as int) =~= path@);
            sub_vec(path.as_slice(), 0, path.len())
        },
    };
    Ok((path, pname))
}

/// The name of a new process's main task: `P[<pid>].main`.
pub open spec fn spec_main_task_name(pid: nat) -> Seq<u8> {
    seq![0x50u8, 0x5b] + dec_text(pid) + seq![0x5du8, 0x2e, 0x6d, 0x61, 0x69, 0x6e]
}

pub fn main_task_name(pid: usize) -> (n: Vec<u8>)
    ensures
        n@ == spec_main_task_name(pid as nat),
{
    let mut n: Vec<u8> = Vec::new();
    n.push(0x50);
    n.push(0x5b);
    push_dec(&mut n, pid as u64);
    n.push(0x5d);
    n.push(0x2e);
    n.push(0x6d);
    n.push(0x61);
    n.push(0x69);
    n.push(0x6e);
    assert(n@ =~= spec_main_task_name(pid as nat));
    n
}

/// What the current-process call answers: the ids' size when the process
/// has a main task, else 0.
pub fn proc_current_reply(main_tid: Option<usize>) -> (r: usize)
    ensures
        r == if main_tid is Some { PROC_CTL_CURRENT_ARGS_SIZE } else { 0 },
{
    match main_tid {
        Some(_) => PROC_CTL_CURRENT_ARGS_SIZE,
        None => 0,
    }
}

} // verus!
