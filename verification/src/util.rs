use vstd::prelude::*;

verus! {

/// Rounds `n` up to the next multiple of `d`, divided by `d`.
pub open spec fn spec_div_round_up(n: int, d: int) -> int {
    (n + (d - 1)) / d
}

/// Number of `d`-sized units needed to hold `n` bytes.
pub fn div_round_up(n: usize, d: usize) -> (r: usize)
    requires
        d > 0,
        n + d - 1 <= usize::MAX,
    ensures
        r == spec_div_round_up(n as int, d as int),
{
    (n + (d - 1)) / d
}


// ---------------------------------------------------------------------------
// Hexadecimal text
// ---------------------------------------------------------------------------

/// The upper-case hexadecimal digit of `d` (< 16).
pub open spec fn hex_char(d: nat) -> u8 {
    if d < 10 {
        (48 + d) as u8
    } else {
        (55 + d) as u8
    }
}

/// `n` in upper-case hexadecimal without leading zeros ("0" for zero).
pub open spec fn hex_text(n: nat) -> Seq<u8>
    decreases n,
{
    if n < 16 {
        seq![hex_char(n)]
    } else {
        hex_text(n / 16).push(hex_char(n % 16))
    }
}

/// Appends `n` in upper-case hexadecimal to `out`.
pub fn push_hex(out: &mut Vec<u8>, n: u64)
    ensures
        final(out)@ == old(out)@ + hex_text(n as nat),
    decreases n,
{
    if n >= 16 {
        push_hex(out, n / 16);
    }
    let d = n % 16;
    let c: u8 = if d < 10 { 48 + d as u8 } else { 55 + d as u8 };
    out.push(c);
    assert(out@ =~= old(out)@ + hex_text(n as nat));
}

/// Copies `dat` into `buff` at offset `at`.
pub fn copy_at(buff: &mut [u8], at: usize, dat: &Vec<u8>)
    requires
        at + dat@.len() <= old(buff)@.len(),
    ensures
        final(buff)@ == old(buff)@.subrange(0, at as int) + dat@ + old(buff)@.subrange(
            at + dat@.len(),
            old(buff)@.len() as int,
        ),
{
    let blen = buff.len();
    let mut i: usize = 0;
    while i < dat.len()
        invariant
            at + dat@.len() <= old(buff)@.len(),
            blen == buff@.len(),
            buff@.len() == old(buff)@.len(),
            i <= dat@.len(),
            forall|j: int| 0 <= j < at ==> buff@[j] == old(buff)@[j],
            forall|j: int| at <= j < at + i ==> buff@[j] == dat@[j - at],
            forall|j: int| at + i <= j < buff@.len() ==> buff@[j] == old(buff)@[j],
        decreases dat@.len() - i,
    {
        buff[at + i] = dat[i];
        i = i + 1;
    }
    assert(buff@ =~= old(buff)@.subrange(0, at as int) + dat@ + old(buff)@.subrange(
        at + dat@.len(),
        old(buff)@.len() as int,
    ));
}


// ---------------------------------------------------------------------------
// Little-endian fields in byte buffers
// ---------------------------------------------------------------------------

/// The little-endian 16-bit value at `off`.
pub open spec fn spec_le16(s: Seq<u8>, off: int) -> int {
    s[off] + s[off + 1] * 0x100
}

/// The little-endian 32-bit value at `off`.
pub open spec fn spec_le32(s: Seq<u8>, off: int) -> int {
    spec_le16(s, off) + spec_le16(s, off + 2) * 0x10000
}

/// The little-endian 64-bit value at `off`.
pub open spec fn spec_le64(s: Seq<u8>, off: int) -> int {
    spec_le32(s, off) + spec_le32(s, off + 4) * 0x1_0000_0000
}

/// Reads the little-endian 16-bit value at `off`.
pub fn le16(b: &[u8], off: usize) -> (v: u16)
    requires
        off + 2 <= b@.len(),
    ensures
        v == spec_le16(b@, off as int),
{
    let _n = b.len();
    b[off] as u16 + (b[off + 1] as u16) * 0x100
}

/// Reads the little-endian 32-bit value at `off`.
pub fn le32(b: &[u8], off: usize) -> (v: u32)
    requires
        off + 4 <= b@.len(),
    ensures
        v == spec_le32(b@, off as int),
{
    let _n = b.len();
    le16(b, off) as u32 + (le16(b, off + 2) as u32) * 0x10000
}

/// Reads the little-endian 64-bit value at `off`.
pub fn le64(b: &[u8], off: usize) -> (v: u64)
    requires
        off + 8 <= b@.len(),
    ensures
        v == spec_le64(b@, off as int),
{
    let _n = b.len();
    le32(b, off) as u64 + (le32(b, off + 4) as u64) * 0x1_0000_0000
}

/// Whether `b[off..off + pat.len()]` is `pat`.
pub open spec fn spec_bytes_at(s: Seq<u8>, off: int, pat: Seq<u8>) -> bool {
    off + pat.len() <= s.len() && s.subrange(off, off + pat.len()) == pat
}

/// Tests whether the bytes at `off` are `pat`.
pub fn bytes_at(b: &[u8], off: usize, pat: &[u8]) -> (r: bool)
    ensures
        r == spec_bytes_at(b@, off as int, pat@),
{
    if off > b.len() || pat.len() > b.len() - off {
        return false;
    }
    let blen = b.len();
    let mut i: usize = 0;
    while i < pat.len()
        invariant
            blen == b@.len(),
            off + pat@.len() <= b@.len(),
            i <= pat@.len(),
            forall|k: int| 0 <= k < i ==> b@[off + k] == pat@[k],
        decreases pat@.len() - i,
    {
        if b[off + i] != pat[i] {
            assert(b@.subrange(off as int, off + pat@.len())[i as int] != pat@[i as int]);
            return false;
        }
        i = i + 1;
    }
    assert(b@.subrange(off as int, off + pat@.len()) =~= pat@);
    true
}

/// The bytes `b[off..off + n]` as a vector.
pub fn sub_vec(b: &[u8], off: usize, n: usize) -> (v: Vec<u8>)
    requires
        off + n <= b@.len(),
    ensures
        v@ == b@.subrange(off as int, off + n),
{
    let blen = b.len();
    let mut v: Vec<u8> = Vec::new();
    let mut i: usize = 0;
    while i < n
        invariant
            blen == b@.len(),
            off + n <= b@.len(),
            i <= n,
            v@ == b@.subrange(off as int, off + i),
        decreases n - i,
    {
        v.push(b[off + i]);
        i = i + 1;
        assert(v@ =~= b@.subrange(off as int, off + i));
    }
    v
}

// ---------------------------------------------------------------------------
// Decimal text
// ---------------------------------------------------------------------------

/// `n` in decimal without leading zeros ("0" for zero).
pub open spec fn dec_text(n: nat) -> Seq<u8>
    decreases n,
{
    if n < 10 {
        seq![(48 + n) as u8]
    } else {
        dec_text(n / 10).push((48 + n % 10) as u8)
    }
}

/// Appends `n` in decimal to `out`.
pub fn push_dec(out: &mut Vec<u8>, n: u64)
    ensures
        final(out)@ == old(out)@ + dec_text(n as nat),
    decreases n,
{
    if n >= 10 {
        push_dec(out, n / 10);
    }
    let d = (n % 10) as u8;
    out.push(48 + d);
    assert(out@ =~= old(out)@ + dec_text(n as nat));
}

} // verus!
