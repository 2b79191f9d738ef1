use calf::format::level::Level;
use calf::utils::encoding::{base64_encode_standard, u64_to_decimal};

#[test]
fn table_entry_round_trip() {
    // Encoding an offset with both control bits set into an 8-byte
    // big-endian word and decoding it yields the same entry.
    let offset: u64 = 0x0000_0012_3456_7600;
    let word = offset | 0x8000_0000_0000_0000 | 0x4000_0000_0000_0000;
    let bytes = word.to_be_bytes();
    let levels = Level::get_levels(&bytes);
    assert_eq!(levels.len(), 1);
    assert_eq!(levels[0].offset, offset);
    assert!(levels[0].is_copied);
    assert!(levels[0].is_compressed);
}

#[test]
fn table_entry_decode_strips_control_and_reserved_bits() {
    // Bits 62 and 63 carry the flags and bits 0 through 8 are reserved:
    // none of them reaches the decoded offset.
    let word: u64 = 0xc000_0000_0000_07ff;
    let bytes = word.to_be_bytes();
    let levels = Level::get_levels(&bytes);
    assert_eq!(levels.len(), 1);
    assert_eq!(levels[0].offset, 0x0000_0000_0000_0600);
    assert!(levels[0].is_copied);
    assert!(levels[0].is_compressed);
}

#[test]
fn zero_offset_entries_are_kept() {
    // An offset of zero means "unallocated" and is decoded, not skipped.
    let data = [0u8; 24];
    let levels = Level::get_levels(&data);
    assert_eq!(levels.len(), 3);
    assert_eq!(levels[0].offset, 0);
    assert!(!levels[0].is_copied);
    assert!(!levels[0].is_compressed);
}

#[test]
fn trailing_partial_word_is_ignored() {
    let data = [0u8; 15];
    let levels = Level::get_levels(&data);
    assert_eq!(levels.len(), 1);
}

#[test]
fn base64_encoding_pads_short_tails() {
    assert_eq!(base64_encode_standard(&[]), "");
    assert_eq!(base64_encode_standard(&[255]), "/w==");
    assert_eq!(base64_encode_standard(&[255, 255]), "//8=");
    assert_eq!(base64_encode_standard(b"Man"), "TWFu");
    assert_eq!(base64_encode_standard(b"light work."), "bGlnaHQgd29yay4=");
}

#[test]
fn decimal_rendering() {
    assert_eq!(u64_to_decimal(0), "0");
    assert_eq!(u64_to_decimal(7), "7");
    assert_eq!(u64_to_decimal(1234567890), "1234567890");
    assert_eq!(u64_to_decimal(u64::MAX), "18446744073709551615");
}
