//! The GUID partition table: its header, and the walk over its entries
//! that mounts a FAT volume for each partition. The disk reads stay with the
//! caller, which reads the bytes each step asks for.
use vstd::prelude::*;
use crate::util::{le32, le64, spec_le32, spec_le64};

verus! {

/// Bytes of the GPT header.
pub const GPT_HEADER_SIZE: usize = 92;
/// Bytes of a partition entry that are looked at: the two GUIDs and the
/// first and last LBA.
pub const GPT_ENTRY_SIZE_USED: usize = 48;

/// The bytes `"EFI PART"`.
pub open spec fn efi_part_sig() -> Seq<u8> {
    seq![0x45u8, 0x46, 0x49, 0x20, 0x50, 0x41, 0x52, 0x54]
}

/// What the walk takes from the header: whether its signature is
/// `"EFI PART"`, where the entry array starts, the entries and their size.
#[derive(Clone, Copy, Debug)]
pub struct GptHeader {
    pub sig_ok: bool,
    pub gpt_start_lba: u64,
    pub gpt_entry_count: u32,
    pub gpt_entry_size: u32,
}

/// The header the first 92 bytes of LBA 1 hold.
pub open spec fn spec_gpt_header(b: Seq<u8>) -> GptHeader {
    GptHeader {
        sig_ok: b.subrange(0, 8) == efi_part_sig(),
        gpt_start_lba: spec_le64(b, 72) as u64,
        gpt_entry_count: spec_le32(b, 80) as u32,
        gpt_entry_size: spec_le32(b, 84) as u32,
    }
}

/// Reads the header from what a read of LBA 1 gave; none when fewer than
/// its 92 bytes came (the disk then has no partition).
pub fn parse_gpt_header(b: &[u8]) -> (h: Option<GptHeader>)
    ensures
        b@.len() < GPT_HEADER_SIZE ==> h is None,
        b@.len() >= GPT_HEADER_SIZE ==> h == Some(spec_gpt_header(b@)),
{
    if b.len() < GPT_HEADER_SIZE {
        return None;
    }
    let sig: [u8; 8] = [0x45, 0x46, 0x49, 0x20, 0x50, 0x41, 0x52, 0x54];
    assert(sig@ =~= efi_part_sig());
    let sig_ok = crate::fs::bytes_eq(vstd::slice::slice_subrange(b, 0, 8), &sig);
    Some(GptHeader {
        sig_ok,
        gpt_start_lba: le64(b, 72),
        gpt_entry_count: le32(b, 80),
        gpt_entry_size: le32(b, 84),
    })
}

/// The partition an entry describes (its first and last LBA); none for an
/// unused entry (its type GUID is zero).
pub open spec fn spec_gpt_entry(b: Seq<u8>) -> Option<(u64, u64)> {
    if forall|i: int| 0 <= i < 16 ==> b[i] == 0 {
        None
    } else {
        Some((spec_le64(b, 32) as u64, spec_le64(b, 40) as u64))
    }
}

/// The walk over the partition entries: the entries left, where the next
/// one is (a byte address), their size, and the volumes mounted.
#[derive(Clone, Copy, Debug)]
pub struct GptScan {
    pub entries_left: u32,
    pub cur_off: u64,
    pub entry_size: u32,
    pub num_parts: usize,
}

impl GptScan {
    /// The walk of a disk with `sector_size`-byte sectors whose header is
    /// `hdr`; none when the disk does not use GPT.
    pub fn start(hdr: &GptHeader, sector_size: u32) -> (s: Option<GptScan>)
        requires
            hdr.gpt_start_lba * sector_size <= u64::MAX,
        ensures
            !hdr.sig_ok ==> s is None,
            hdr.sig_ok ==> s == Some(GptScan {
                entries_left: hdr.gpt_entry_count,
                cur_off: (hdr.gpt_start_lba * sector_size) as u64,
                entry_size: hdr.gpt_entry_size,
                num_parts: 0,
            }),
    {
        if !hdr.sig_ok {
            return None;
        }
        Some(GptScan {
            entries_left: hdr.gpt_entry_count,
            cur_off: hdr.gpt_start_lba * (sector_size as u64),
            entry_size: hdr.gpt_entry_size,
            num_parts: 0,
        })
    }

    /// Where the next entry is to be read from; none once all were.
    pub fn next_read(&self) -> (a: Option<u64>)
        ensures
            self.entries_left == 0 ==> a is None,
            self.entries_left > 0 ==> a == Some(self.cur_off),
    {
        if self.entries_left == 0 {
            None
        } else {
            Some(self.cur_off)
        }
    }

    /// Takes the entry read: the partition to mount, if it is used. Only a
    /// used entry moves the walk to the next one's address.
    pub fn entry(&mut self, b: &[u8]) -> (p: Option<(u64, u64)>)
        requires
            old(self).entries_left > 0,
            b@.len() >= GPT_ENTRY_SIZE_USED,
            spec_gpt_entry(b@) is Some ==> old(self).cur_off + old(self).entry_size <= u64::MAX,
        ensures
            p == spec_gpt_entry(b@),
            final(self).entries_left == old(self).entries_left - 1,
            final(self).cur_off == if p is Some {
                (old(self).cur_off + old(self).entry_size) as u64
            } else {
                old(self).cur_off
            },
            final(self).entry_size == old(self).entry_size,
            final(self).num_parts == old(self).num_parts,
    {
        self.entries_left = self.entries_left - 1;
        let mut i: usize = 0;
        while i < 16
            invariant
                i <= 16,
                b@.len() >= GPT_ENTRY_SIZE_USED,
                forall|k: int| 0 <= k < i ==> b@[k] == 0,
                self.entries_left == old(self).entries_left - 1,
                self.cur_off == old(self).cur_off,
                self.entry_size == old(self).entry_size,
                self.num_parts == old(self).num_parts,
                spec_gpt_entry(b@) is Some ==> old(self).cur_off + old(self).entry_size <= u64::MAX,
            decreases 16 - i,
        {
            if b[i] != 0 {
                assert(!(forall|k: int| 0 <= k < 16 ==> b@[k] == 0));
                self.cur_off = self.cur_off + self.entry_size as u64;
                return Some((le64(b, 32), le64(b, 40)));
            }
            i = i + 1;
        }
        None
    }

    /// The partition's volume was mounted or not.
    pub fn mounted(&mut self, ok: bool)
        requires
            old(self).num_parts < usize::MAX,
        ensures
            final(self).num_parts == old(self).num_parts + if ok { 1usize } else { 0usize },
            final(self).entries_left == old(self).entries_left,
            final(self).cur_off == old(self).cur_off,
            final(self).entry_size == old(self).entry_size,
    {
        if ok {
            self.num_parts = self.num_parts + 1;
        }
    }
}

} // verus!
