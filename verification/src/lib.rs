//! BlightOS kernel logic: the parts of the kernel that decide and compute,
//! stated and proved with Verus. Register and memory accesses, task
//! management and other hardware-bound work stay with the caller, which hands
//! this library plain values and applies what it returns.
use vstd::prelude::*;

pub mod util;
pub mod text;
pub mod fs;
pub mod drivers;
pub mod syscall;
pub mod mem;
pub mod arch;

verus! {

/// Kernel-wide error codes.
#[derive(Clone, Copy, Debug, PartialEq, Eq, Structural)]
pub enum ErrorCode {
    NoError,
    OutOfMemory,
    NotSupported,
    NotFound,
    NotIssued,
    UnexpectedEoF,
    InvalidPID,
    InvalidTID,
    InvalidFD,
    InvalidOp,
    InvalidBus,
    InvalidDrive,
    InvalidMountPoint,
    InvalidPath,
    InvalidHandle,
    InvalidBuffer,
    InvalidArgument,
    InvalidFormat,
    NotAllowed,
    OutOfBoundIO,
    IOError,
    Other,
}

/// The numeric value user space sees for each error code.
pub open spec fn spec_error_code_value(c: ErrorCode) -> usize {
    match c {
        ErrorCode::NoError => 0,
        ErrorCode::OutOfMemory => 1,
        ErrorCode::NotSupported => 2,
        ErrorCode::NotFound => 3,
        ErrorCode::NotIssued => 4,
        ErrorCode::UnexpectedEoF => 5,
        ErrorCode::InvalidPID => 6,
        ErrorCode::InvalidTID => 7,
        ErrorCode::InvalidFD => 8,
        ErrorCode::InvalidOp => 9,
        ErrorCode::InvalidBus => 10,
        ErrorCode::InvalidDrive => 11,
        ErrorCode::InvalidMountPoint => 12,
        ErrorCode::InvalidPath => 13,
        ErrorCode::InvalidHandle => 14,
        ErrorCode::InvalidBuffer => 15,
        ErrorCode::InvalidArgument => 16,
        ErrorCode::InvalidFormat => 17,
        ErrorCode::NotAllowed => 18,
        ErrorCode::OutOfBoundIO => 19,
        ErrorCode::IOError => 20,
        ErrorCode::Other => 255,
    }
}

impl ErrorCode {
    /// Returns the numeric value of the error code.
    pub fn value(&self) -> (v: usize)
        ensures
            v == spec_error_code_value(*self),
    {
        match self {
            ErrorCode::NoError => 0,
            ErrorCode::OutOfMemory => 1,
            ErrorCode::NotSupported => 2,
            ErrorCode::NotFound => 3,
            ErrorCode::NotIssued => 4,
            ErrorCode::UnexpectedEoF => 5,
            ErrorCode::InvalidPID => 6,
            ErrorCode::InvalidTID => 7,
            ErrorCode::InvalidFD => 8,
            ErrorCode::InvalidOp => 9,
            ErrorCode::InvalidBus => 10,
            ErrorCode::InvalidDrive => 11,
            ErrorCode::InvalidMountPoint => 12,
            ErrorCode::InvalidPath => 13,
            ErrorCode::InvalidHandle => 14,
            ErrorCode::InvalidBuffer => 15,
            ErrorCode::InvalidArgument => 16,
            ErrorCode::InvalidFormat => 17,
            ErrorCode::NotAllowed => 18,
            ErrorCode::OutOfBoundIO => 19,
            ErrorCode::IOError => 20,
            ErrorCode::Other => 255,
        }
    }
}

/// A kernel error: its code and, when known, where it was raised.
#[derive(Clone, Copy, Debug)]
pub struct Error {
    pub code: ErrorCode,
    pub file: &'static str,
    pub line: u32,
    pub message: &'static str,
}

impl Error {
    /// An error with the given code and no location.
    pub fn new(code: ErrorCode) -> (e: Self)
        ensures
            e.code == code,
            e.line == 0,
    {
        Error { code, file: "", line: 0, message: "" }
    }
}

/// The result of an operation that fails with the given code.
pub open spec fn is_err_code<T>(r: Result<T, Error>, c: ErrorCode) -> bool {
    r is Err && r->Err_0.code == c
}

/// The bytes `"  LOCATION: "`.
pub open spec fn location_prefix() -> Seq<u8> {
    seq![0x20u8, 0x20, 0x4c, 0x4f, 0x43, 0x41, 0x54, 0x49, 0x4f, 0x4e, 0x3a, 0x20]
}

/// The bytes `" @ ln "`.
pub open spec fn line_infix() -> Seq<u8> {
    seq![0x20u8, 0x40, 0x20, 0x6c, 0x6e, 0x20]
}

/// The source file a panic is reported in: its path without the leading
/// `"kernel/src/"` (the first 11 bytes) that every path has.
pub open spec fn spec_panic_file(file: Seq<u8>) -> Seq<u8> {
    if file.len() > 11 {
        file.subrange(11, file.len() as int)
    } else {
        file
    }
}

/// The location line of a kernel panic report: `"  LOCATION: <file> @ ln
/// <line>\n"`, the file without its `"kernel/src/"` prefix.
pub fn panic(file: &[u8], line: u32) -> (t: Vec<u8>)
    requires
        file@.len() > 11 ==> !crate::text::is_cont(file@[11]),
    ensures
        t@ == location_prefix() + spec_panic_file(file@) + line_infix() + crate::util::dec_text(line as nat)
            + seq![0x0au8],
{
    let mut t: Vec<u8> = Vec::new();
    let prefix: [u8; 12] = [0x20, 0x20, 0x4c, 0x4f, 0x43, 0x41, 0x54, 0x49, 0x4f, 0x4e, 0x3a, 0x20];
    let infix: [u8; 6] = [0x20, 0x40, 0x20, 0x6c, 0x6e, 0x20];
    let f: &[u8] = if file.len() > 11 {
        vstd::slice::slice_subrange(file, 11, file.len())
    } else {
        file
    };
    let mut i: usize = 0;
    while i < 12
        invariant
            i <= 12,
            t@ == prefix@.take(i as int),
        decreases 12 - i,
    {
        t.push(prefix[i]);
        assert(t@ =~= prefix@.take(i + 1));
        i = i + 1;
    }
    let ghost t0 = t@;
    let mut j: usize = 0;
    while j < f.len()
        invariant
            j <= f@.len(),
            t@ == t0 + f@.take(j as int),
        decreases f@.len() - j,
    {
        t.push(f[j]);
        assert(t@ =~= t0 + f@.take(j + 1));
        j = j + 1;
    }
    let ghost t1 = t@;
    let mut k: usize = 0;
    while k < 6
        invariant
            k <= 6,
            t@ == t1 + infix@.take(k as int),
        decreases 6 - k,
    {
        t.push(infix[k]);
        assert(t@ =~= t1 + infix@.take(k + 1));
        k = k + 1;
    }
    crate::util::push_dec(&mut t, line as u64);
    t.push(0x0a);
    assert(prefix@ =~= location_prefix());
    assert(infix@ =~= line_infix());
    assert(f@ =~= spec_panic_file(file@));
    assert(f@.take(f@.len() as int) =~= f@);
    assert(t@ =~= location_prefix() + spec_panic_file(file@) + line_infix() + crate::util::dec_text(line as nat) + seq![0x0au8]);
    t
}

} // verus!
