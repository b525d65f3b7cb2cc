use blightos::util::div_round_up;
use blightos::fs::fat::{fat_entry_from_value, FATEntry, FATKind};

#[test]
fn div_round_up_rounds_up() {
    assert_eq!(div_round_up(4097, 4096), 2);
    assert_eq!(div_round_up(4096, 4096), 1);
    assert_eq!(div_round_up(0, 4096), 0);
}

#[test]
fn fat32_end_of_chain_is_only_0ffffff8() {
    assert_eq!(fat_entry_from_value(FATKind::FAT32, 0x0FFFFFF8), FATEntry::EndOfChain);
    assert_eq!(fat_entry_from_value(FATKind::FAT32, 0x0FFFFFFF), FATEntry::Invalid);
    assert_eq!(fat_entry_from_value(FATKind::FAT16, 0xFFFF), FATEntry::EndOfChain);
    assert_eq!(fat_entry_from_value(FATKind::FAT12, 0x005), FATEntry::InUse(5));
}
