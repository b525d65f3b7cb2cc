//! Mass storage: the disk list, I/O requests and the sector cache that the
//! file systems read through.
use vstd::prelude::*;

pub mod ahci;
pub mod emmc;

verus! {

/// The bus a disk is attached to.
#[derive(Clone, Copy, Debug, PartialEq, Eq, Structural)]
pub enum BusType {
    AHCI,
    /// The SD host controller (its driver names this bus).
    EMMC,
    /// No bus (the name `None` is taken by `Option`).
    NoBus,
}

/// A disk registered by a storage driver. `driver` names the driver that
/// serves its I/O requests.
#[derive(Clone, Copy, Debug)]
pub struct Disk {
    pub bus: BusType,
    pub bus_id: u8,
    pub drive_id: u8,
    pub part_id: u16,
    pub sector_size: u32,
    pub sector_count: u64,
    pub driver: usize,
}

/// Direction of an I/O request.
#[derive(Clone, Copy, Debug, PartialEq, Eq, Structural)]
pub enum IOOperation {
    Read,
    Write,
}

/// How an I/O request ended; `Successful` carries the byte count or handle.
#[derive(Clone, Copy, Debug, PartialEq, Eq, Structural)]
pub enum IOCompletion {
    Successful(usize),
    NotIssued,
    InvalidOp,
    InvalidBus,
    InvalidDrive,
    InvalidPath,
    InvalidHandle,
    InvalidBuffer,
    OutOfBoundIO,
    IOError,
}

/// A request to read or write `sectors` sectors at `lba` into or from the
/// physical buffer `buffer`, with its bookkeeping.
#[derive(Clone, Copy, Debug)]
pub struct IORequest {
    pub req_id: u64,
    pub op: IOOperation,
    pub sync: bool,
    pub lba: u64,
    pub sectors: u16,
    pub buffer: usize,
    pub waiter_tid: usize,
    pub completion_code: IOCompletion,
    pub driver_priv: usize,
    pub ts_issued: u64,
    pub ts_submitted: u64,
    pub ts_completed: u64,
}

impl IORequest {
    /// A synchronous read of nothing, not issued yet.
    pub fn new() -> (r: Self)
        ensures
            r.req_id == 0 && r.op == IOOperation::Read && r.sync && r.lba == 0 && r.sectors == 0,
            r.buffer == 0 && r.waiter_tid == 0 && r.completion_code == IOCompletion::NotIssued,
            r.driver_priv == 0 && r.ts_issued == 0 && r.ts_submitted == 0 && r.ts_completed == 0,
    {
        IORequest {
            req_id: 0,
            op: IOOperation::Read,
            sync: true,
            lba: 0,
            sectors: 0,
            buffer: 0,
            waiter_tid: 0,
            completion_code: IOCompletion::NotIssued,
            driver_priv: 0,
            ts_issued: 0,
            ts_submitted: 0,
            ts_completed: 0,
        }
    }
}

/// The number of registered disks.
pub fn num_disks(disks: &Vec<Disk>) -> (n: usize)
    ensures
        n == disks@.len(),
{
    disks.len()
}

/// A copy of the disk at `disk_index`, if there is one.
pub fn get_disk(disks: &Vec<Disk>, disk_index: usize) -> (d: Option<Disk>)
    ensures
        disk_index < disks@.len() ==> d == Some(disks@[disk_index as int]),
        disk_index >= disks@.len() ==> d is None,
{
    if disk_index >= disks.len() {
        return None;
    }
    Some(disks[disk_index])
}

/// A place on a disk: a sector and a byte offset in it, or a byte address.
#[derive(Clone, Copy, Debug)]
pub enum DiskAddress {
    LBA { lba: u64, block_offset: u32 },
    ByteAddr { addr: u64 },
}

/// The byte address a disk address stands for with the given sector size.
pub open spec fn spec_byte_addr(addr: DiskAddress, sector_size: u32) -> int {
    match addr {
        DiskAddress::ByteAddr { addr } => addr as int,
        DiskAddress::LBA { lba, block_offset } => lba * sector_size + block_offset,
    }
}

/// Bytes held by the sector cache.
pub const CACHE_SIZE: u64 = 4096;

/// A one-window sector cache over a disk: `buffer` holds `sec_count`
/// sectors starting at `first_lba`.
pub struct BufferedDiskIO {
    pub buffer: Vec<u8>,
    pub first_lba: u64,
    pub sec_count: u64,
    pub disk: Disk,
}

impl BufferedDiskIO {
    /// An empty cache over the disk at `disk_index`, if there is one.
    pub fn new(disks: &Vec<Disk>, disk_index: usize) -> (r: Option<Self>)
        ensures
            disk_index < disks@.len() ==> (r matches Some(b) && b.disk == disks@[disk_index as int]
                && b.first_lba == 0 && b.sec_count == 0 && b.buffer@.len() == 0),
            disk_index >= disks@.len() ==> r is None,
    {
        match get_disk(disks, disk_index) {
            Some(d) => Some(BufferedDiskIO { buffer: Vec::new(), first_lba: 0, sec_count: 0, disk: d }),
            None => None,
        }
    }

    /// The first byte the cache holds.
    pub open spec fn first_addr(&self) -> int {
        self.first_lba * self.disk.sector_size
    }

    /// One past the last byte the cache holds.
    pub open spec fn last_addr(&self) -> int {
        self.first_addr() + self.sec_count * self.disk.sector_size
    }

    /// The byte address of `addr` on this disk.
    pub fn byte_addr(&self, addr: &DiskAddress) -> (a: u64)
        requires
            spec_byte_addr(*addr, self.disk.sector_size) <= u64::MAX,
        ensures
            a == spec_byte_addr(*addr, self.disk.sector_size),
    {
        match addr {
            DiskAddress::ByteAddr { addr } => *addr,
            DiskAddress::LBA { lba, block_offset } => {
                assert(*lba * self.disk.sector_size <= *lba * self.disk.sector_size + *block_offset);
                *lba * self.disk.sector_size as u64 + *block_offset as u64
            },
        }
    }

    /// Whether `bytes` bytes at `addr` have to be fetched before they can
    /// be read: they are not all inside the cached window.
    pub fn needs_fetch(&self, addr: &DiskAddress, bytes: usize) -> (r: bool)
        requires
            spec_byte_addr(*addr, self.disk.sector_size) + bytes <= u64::MAX,
            self.last_addr() <= u64::MAX,
        ensures
            r == !(spec_byte_addr(*addr, self.disk.sector_size) >= self.first_addr()
                && spec_byte_addr(*addr, self.disk.sector_size) + bytes < self.last_addr()),
    {
        assert(self.first_addr() <= self.last_addr()) by (nonlinear_arith)
            requires
                self.first_addr() == self.first_lba * self.disk.sector_size,
                self.last_addr() == self.first_addr() + self.sec_count * self.disk.sector_size,
        ;
        let first_addr = self.first_lba * self.disk.sector_size as u64;
        let last_addr = first_addr + self.sec_count * self.disk.sector_size as u64;
        let a = self.byte_addr(addr);
        !(a >= first_addr && last_addr > 0 && a + bytes as u64 <= last_addr - 1)
    }

    /// Points the cache at the sector holding `addr`, clears it, and returns
    /// the read request that fills it.
    pub fn fetch_from(&mut self, addr: DiskAddress) -> (req: IORequest)
        requires
            old(self).disk.sector_size > 0,
            spec_byte_addr(addr, old(self).disk.sector_size) <= u64::MAX,
        ensures
            final(self).disk == old(self).disk,
            final(self).first_lba == spec_byte_addr(addr, old(self).disk.sector_size) / old(self).disk.sector_size as int,
            final(self).sec_count == CACHE_SIZE as int / old(self).disk.sector_size as int,
            final(self).buffer@ == Seq::new(CACHE_SIZE as nat, |i: int| 0u8),
            req.op == IOOperation::Read && req.sync && req.req_id == 0,
            req.lba == final(self).first_lba,
            req.sectors == final(self).sec_count as u16,
    {
        let a = self.byte_addr(&addr);
        self.first_lba = a / self.disk.sector_size as u64;
        self.sec_count = CACHE_SIZE / self.disk.sector_size as u64;
        let mut buf: Vec<u8> = Vec::new();
        let mut i: u64 = 0;
        while i < CACHE_SIZE
            invariant
                i <= CACHE_SIZE,
                buf@ == Seq::new(i as nat, |k: int| 0u8),
            decreases CACHE_SIZE - i,
        {
            buf.push(0);
            i = i + 1;
            assert(buf@ =~= Seq::new(i as nat, |k: int| 0u8));
        }
        self.buffer = buf;
        let mut req = IORequest::new();
        req.req_id = 0;
        req.sync = true;
        req.op = IOOperation::Read;
        req.lba = self.first_lba;
        req.sectors = self.sec_count as u16;
        req
    }

    /// Where `bytes` bytes at `addr` sit in the cache buffer, once the
    /// window holds them; `NotIssued` when they run past the window.
    pub fn read(&self, addr: DiskAddress, bytes: usize) -> (r: (usize, IOCompletion))
        requires
            spec_byte_addr(addr, self.disk.sector_size) <= u64::MAX,
            self.last_addr() <= u64::MAX,
            spec_byte_addr(addr, self.disk.sector_size) >= self.first_addr(),
            spec_byte_addr(addr, self.disk.sector_size) - self.first_addr() <= usize::MAX,
        ensures
            ({
                let off = spec_byte_addr(addr, self.disk.sector_size) - self.first_addr();
                let bufsz = self.sec_count * self.disk.sector_size;
                if bytes > bufsz - off {
                    r == (0usize, IOCompletion::NotIssued)
                } else {
                    r == (off as usize, IOCompletion::Successful(bytes))
                }
            }),
    {
        assert(self.first_addr() <= self.last_addr()) by (nonlinear_arith)
            requires
                self.first_addr() == self.first_lba * self.disk.sector_size,
                self.last_addr() == self.first_addr() + self.sec_count * self.disk.sector_size,
        ;
        let first_addr = self.first_lba * self.disk.sector_size as u64;
        let bufsz = self.sec_count * self.disk.sector_size as u64;
        let a = self.byte_addr(&addr);
        let off = a - first_addr;
        if bytes as u64 > bufsz || bufsz - (bytes as u64) < off {
            return (0, IOCompletion::NotIssued);
        }
        (off as usize, IOCompletion::Successful(bytes))
    }
}

/// A read that misses the cache is served after one refill: once
/// `fetch_from` points the window at the sector holding byte `a` (its
/// first sector `a / ss`, `CACHE_SIZE / ss` sectors), `read` finds `bytes`
/// bytes at `a` in the window, at `a`'s offset in its sector, whenever they
/// fit in the window from there.
pub proof fn lemma_fetch_then_read(ss: u32, a: int, bytes: int)
    requires
        ss > 0,
        (CACHE_SIZE as int) % (ss as int) == 0,
        0 <= a,
        0 <= bytes,
        bytes + a % (ss as int) <= CACHE_SIZE,
    ensures
        ({
            let first = (a / (ss as int)) * ss;
            let bufsz = ((CACHE_SIZE as int) / (ss as int)) * ss;
            &&& first <= a
            &&& a - first == a % (ss as int)
            &&& bufsz == CACHE_SIZE
            &&& bytes <= bufsz - (a - first)
        }),
{
    let s = ss as int;
    assert((a / s) * s + a % s == a) by (nonlinear_arith)
        requires
            s > 0,
    ;
    assert(0 <= a % s) by (nonlinear_arith)
        requires
            s > 0,
    ;
    assert(((CACHE_SIZE as int) / s) * s + (CACHE_SIZE as int) % s == CACHE_SIZE) by (nonlinear_arith)
        requires
            s > 0,
    ;
}

// ---------------------------------------------------------------------------
// Synchronous I/O
// ---------------------------------------------------------------------------

/// The requests issued synchronously: the next request ID, and the
/// completed requests by ID until their issuer takes them.
pub struct SyncIO {
    pub next_req_id: u64,
    pub completed: std::collections::HashMap<usize, IORequest>,
}

impl SyncIO {
    pub fn new() -> (s: Self)
        ensures
            s.next_req_id == 0 && s.completed@ == Map::<usize, IORequest>::empty(),
    {
        SyncIO { next_req_id: 0, completed: std::collections::HashMap::new() }
    }

    /// Gives the request the next ID before it is issued; returns the ID.
    pub fn assign_req_id(&mut self, ioreq: &mut IORequest) -> (id: u64)
        ensures
            id == old(self).next_req_id,
            final(ioreq).req_id == id,
            *final(ioreq) == (IORequest { req_id: id, ..*old(ioreq) }),
            final(self).next_req_id == old(self).next_req_id.wrapping_add(1),
            final(self).completed@ == old(self).completed@,
    {
        let id = self.next_req_id;
        self.next_req_id = self.next_req_id.wrapping_add(1);
        ioreq.req_id = id;
        id
    }

    /// The completion callback of a synchronous request: it is kept by ID.
    pub fn completion_cb(&mut self, cioreq: IORequest)
        ensures
            final(self).completed@ == old(self).completed@.insert(cioreq.req_id as usize, cioreq),
            final(self).next_req_id == old(self).next_req_id,
    {
        self.completed.insert(cioreq.req_id as usize, cioreq);
    }

    /// The completed request with ID `req_id`, which is no longer kept;
    /// none when it has not completed.
    pub fn take(&mut self, req_id: u64) -> (r: Option<IORequest>)
        ensures
            r == if old(self).completed@.contains_key(req_id as usize) {
                Some(old(self).completed@[req_id as usize])
            } else {
                None
            },
            final(self).completed@ == old(self).completed@.remove(req_id as usize),
            final(self).next_req_id == old(self).next_req_id,
    {
        self.completed.remove(&(req_id as usize))
    }
}

/// The completed requests after `done` (what the driver handed to the
/// completion callback, if anything) is kept.
pub open spec fn spec_after_completion(m: Map<usize, IORequest>, done: Option<IORequest>) -> Map<
    usize,
    IORequest,
> {
    match done {
        Some(c) => m.insert(c.req_id as usize, c),
        None => m,
    }
}

/// Where a synchronous request stands once it was issued: completed (the
/// completed request, no longer kept), or still pending under its ID, to be
/// taken with `SyncIO::take` once the driver's completion callback ran.
#[derive(Clone, Copy, Debug)]
pub enum SyncIOStatus {
    Done(IORequest),
    Pending(u64),
}

/// Issues `ioreq` synchronously: gives it the next request ID, hands it to
/// `issue` (the disk's driver, which hands back the request that it passed
/// to the completion callback before returning, if any), and takes the
/// completed request with that ID. When the driver has not completed it
/// yet, the request is pending under its ID and the caller waits for the
/// completion callback before taking it.
pub fn submit_sync_io<F: FnOnce(IORequest) -> Option<IORequest>>(
    io: &mut SyncIO,
    ioreq: &mut IORequest,
    issue: F,
) -> (r: SyncIOStatus)
    requires
        call_requires(issue, ((IORequest { req_id: old(io).next_req_id, ..*old(ioreq) }),)),
    ensures
        *final(ioreq) == (IORequest { req_id: old(io).next_req_id, ..*old(ioreq) }),
        final(io).next_req_id == old(io).next_req_id.wrapping_add(1),
        exists|done: Option<IORequest>|
            #![trigger call_ensures(issue, (*final(ioreq),), done)]
            {
                let m = spec_after_completion(old(io).completed@, done);
                let k = old(io).next_req_id as usize;
                &&& call_ensures(issue, (*final(ioreq),), done)
                &&& r == (if m.contains_key(k) {
                    SyncIOStatus::Done(m[k])
                } else {
                    SyncIOStatus::Pending(old(io).next_req_id)
                })
                &&& final(io).completed@ == m.remove(k)
            },
{
    let id = io.assign_req_id(ioreq);
    let done = issue(*ioreq);
    match done {
        Some(c) => io.completion_cb(c),
        None => {},
    }
    match io.take(id) {
        Some(c) => SyncIOStatus::Done(c),
        None => SyncIOStatus::Pending(id),
    }
}

} // verus!
