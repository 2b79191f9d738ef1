use calf::bootsector::boot::{BootType, PartitionType};
use calf::bootsector::mbr::{get_partition_type, parse_extended, parse_mbr, parse_partition};
use calf::error::CalfError;

#[test]
fn test_get_partition_type() {
    let test = [0x0, 0x7, 0x27, 0x83, 0x82, 0x8e, 0xc, 0xee, 0xef, 0x5, 0xf];
    for entry in test {
        assert_ne!(get_partition_type(entry), PartitionType::Unknown);
    }
}

#[test]
fn test_parse_parition() {
    let test = [128, 4, 1, 4, 131, 254, 194, 255, 0, 8, 0, 0, 0, 128, 224, 0];
    let (result, is_gpt) = parse_partition(&test).unwrap();
    assert_eq!(result.partition_size, 7532969984);
    assert_eq!(result.first_sector_offset, 262404);
    assert!(!is_gpt);
}

#[test]
fn partition_fixture_fields() {
    let test = [128, 4, 1, 4, 131, 254, 194, 255, 0, 8, 0, 0, 0, 128, 224, 0];
    let (result, is_gpt) = parse_partition(&test).unwrap();
    assert_eq!(result.partition_type, PartitionType::Linux);
    assert_eq!(result.partition_size, 7532969984);
    assert_eq!(result.first_sector_offset, 262404);
    assert_eq!(result.first_logical_offset, 2048);
    assert_eq!(result.offset_start, 2048 * 512);
    assert!(result.bootable);
    assert!(!is_gpt);
}

#[test]
fn partition_too_short() {
    let test = [128, 4, 1, 4, 131, 254, 194];
    assert_eq!(parse_partition(&test).unwrap_err(), CalfError::ParseMbr);
}

#[test]
fn test_parse_mbr() {
    let test = [
        235, 99, 144, 16, 142, 208, 188, 0, 176, 184, 0, 0, 142, 216, 142, 192,
        251, 190, 0, 124, 191, 0, 6, 185, 0, 2, 243, 164, 234, 33, 6, 0,
        0, 190, 190, 7, 56, 4, 117, 11, 131, 198, 16, 129, 254, 254, 7, 117,
        243, 235, 22, 180, 2, 176, 1, 187, 0, 124, 178, 128, 138, 116, 1, 139,
        76, 2, 205, 19, 234, 0, 124, 0, 0, 235, 254, 0, 0, 0, 0, 0,
        0, 0, 0, 0, 0, 0, 0, 0, 0, 0, 0, 128, 1, 0, 0, 0,
        0, 0, 0, 0, 255, 250, 144, 144, 246, 194, 128, 116, 5, 246, 194, 112,
        116, 2, 178, 128, 234, 121, 124, 0, 0, 49, 192, 142, 216, 142, 208, 188,
        0, 32, 251, 160, 100, 124, 60, 255, 116, 2, 136, 194, 82, 190, 128, 125,
        232, 23, 1, 190, 5, 124, 180, 65, 187, 170, 85, 205, 19, 90, 82, 114,
        61, 129, 251, 85, 170, 117, 55, 131, 225, 1, 116, 50, 49, 192, 137, 68,
        4, 64, 136, 68, 255, 137, 68, 2, 199, 4, 16, 0, 102, 139, 30, 92,
        124, 102, 137, 92, 8, 102, 139, 30, 96, 124, 102, 137, 92, 12, 199, 68,
        6, 0, 112, 180, 66, 205, 19, 114, 5, 187, 0, 112, 235, 118, 180, 8,
        205, 19, 115, 13, 90, 132, 210, 15, 131, 216, 0, 190, 139, 125, 233, 130,
        0, 102, 15, 182, 198, 136, 100, 255, 64, 102, 137, 68, 4, 15, 182, 209,
        193, 226, 2, 136, 232, 136, 244, 64, 137, 68, 8, 15, 182, 194, 192, 232,
        2, 102, 137, 4, 102, 161, 96, 124, 102, 9, 192, 117, 78, 102, 161, 92,
        124, 102, 49, 210, 102, 247, 52, 136, 209, 49, 210, 102, 247, 116, 4, 59,
        68, 8, 125, 55, 254, 193, 136, 197, 48, 192, 193, 232, 2, 8, 193, 136,
        208, 90, 136, 198, 187, 0, 112, 142, 195, 49, 219, 184, 1, 2, 205, 19,
        114, 30, 140, 195, 96, 30, 185, 0, 1, 142, 219, 49, 246, 191, 0, 128,
        142, 198, 252, 243, 165, 31, 97, 255, 38, 90, 124, 190, 134, 125, 235, 3,
        190, 149, 125, 232, 52, 0, 190, 154, 125, 232, 46, 0, 205, 24, 235, 254,
        71, 82, 85, 66, 32, 0, 71, 101, 111, 109, 0, 72, 97, 114, 100, 32,
        68, 105, 115, 107, 0, 82, 101, 97, 100, 0, 32, 69, 114, 114, 111, 114,
        13, 10, 0, 187, 1, 0, 180, 14, 205, 16, 172, 60, 0, 117, 244, 195,
        0, 0, 0, 0, 0, 0, 0, 0, 2, 59, 99, 240, 0, 0, 128, 4,
        1, 4, 131, 254, 194, 255, 0, 8, 0, 0, 0, 128, 224, 0, 0, 254,
        194, 255, 15, 254, 194, 255, 254, 143, 224, 0, 2, 104, 159, 1, 0, 0,
        0, 0, 0, 0, 0, 0, 0, 0, 0, 0, 0, 0, 0, 0, 0, 0,
        0, 0, 0, 0, 0, 0, 0, 0, 0, 0, 0, 0, 0, 0, 85, 170,
    ];
    let result = parse_mbr(&test).unwrap();
    assert_eq!(result.boot_type, BootType::MasterBootRecord);
    assert_eq!(result.partitions.len(), 4);

    assert_eq!(result.partitions[1].offset_start, 7535066112);
}

#[test]
fn test_parse_extended_lvm() {
    let test = [
        0, 0, 0, 0, 0, 0, 0, 0, 0, 0, 0, 0, 0, 0, 0, 0,
        0, 0, 0, 0, 0, 0, 0, 0, 0, 0, 0, 0, 0, 0, 0, 0,
        0, 0, 0, 0, 0, 0, 0, 0, 0, 0, 0, 0, 0, 0, 0, 0,
        0, 0, 0, 0, 0, 0, 0, 0, 0, 0, 0, 0, 0, 0, 0, 0,
        0, 0, 0, 0, 0, 0, 0, 0, 0, 0, 0, 0, 0, 0, 0, 0,
        0, 0, 0, 0, 0, 0, 0, 0, 0, 0, 0, 0, 0, 0, 0, 0,
        0, 0, 0, 0, 0, 0, 0, 0, 0, 0, 0, 0, 0, 0, 0, 0,
        0, 0, 0, 0, 0, 0, 0, 0, 0, 0, 0, 0, 0, 0, 0, 0,
        0, 0, 0, 0, 0, 0, 0, 0, 0, 0, 0, 0, 0, 0, 0, 0,
        0, 0, 0, 0, 0, 0, 0, 0, 0, 0, 0, 0, 0, 0, 0, 0,
        0, 0, 0, 0, 0, 0, 0, 0, 0, 0, 0, 0, 0, 0, 0, 0,
        0, 0, 0, 0, 0, 0, 0, 0, 0, 0, 0, 0, 0, 0, 0, 0,
        0, 0, 0, 0, 0, 0, 0, 0, 0, 0, 0, 0, 0, 0, 0, 0,
        0, 0, 0, 0, 0, 0, 0, 0, 0, 0, 0, 0, 0, 0, 0, 0,
        0, 0, 0, 0, 0, 0, 0, 0, 0, 0, 0, 0, 0, 0, 0, 0,
        0, 0, 0, 0, 0, 0, 0, 0, 0, 0, 0, 0, 0, 0, 0, 0,
        0, 0, 0, 0, 0, 0, 0, 0, 0, 0, 0, 0, 0, 0, 0, 0,
        0, 0, 0, 0, 0, 0, 0, 0, 0, 0, 0, 0, 0, 0, 0, 0,
        0, 0, 0, 0, 0, 0, 0, 0, 0, 0, 0, 0, 0, 0, 0, 0,
        0, 0, 0, 0, 0, 0, 0, 0, 0, 0, 0, 0, 0, 0, 0, 0,
        0, 0, 0, 0, 0, 0, 0, 0, 0, 0, 0, 0, 0, 0, 0, 0,
        0, 0, 0, 0, 0, 0, 0, 0, 0, 0, 0, 0, 0, 0, 0, 0,
        0, 0, 0, 0, 0, 0, 0, 0, 0, 0, 0, 0, 0, 0, 0, 0,
        0, 0, 0, 0, 0, 0, 0, 0, 0, 0, 0, 0, 0, 0, 0, 0,
        0, 0, 0, 0, 0, 0, 0, 0, 0, 0, 0, 0, 0, 0, 0, 0,
        0, 0, 0, 0, 0, 0, 0, 0, 0, 0, 0, 0, 0, 0, 0, 0,
        0, 0, 0, 0, 0, 0, 0, 0, 0, 0, 0, 0, 0, 0, 0, 0,
        0, 0, 0, 0, 0, 0, 0, 0, 0, 0, 0, 0, 0, 0, 0, 254,
        194, 255, 142, 254, 194, 255, 2, 0, 0, 0, 0, 40, 167, 0, 0, 0,
        0, 0, 0, 0, 0, 0, 0, 0, 0, 0, 0, 0, 0, 0, 0, 0,
        0, 0, 0, 0, 0, 0, 0, 0, 0, 0, 0, 0, 0, 0, 0, 0,
        0, 0, 0, 0, 0, 0, 0, 0, 0, 0, 0, 0, 0, 0, 85, 170,
    ];
    let (results, has_extended) = parse_extended(&test, 832568320, 0).unwrap();
    assert!(!has_extended);
    assert_eq!(results.len(), 2);
    assert_eq!(results[0].partition_type, PartitionType::LinuxLvm);
    assert_eq!(results[0].offset_start, 1024);
    assert_eq!(results[1].offset_start, 832568320);
    assert_eq!(results[1].partition_type, PartitionType::Empty);
}

fn put_entry(sector: &mut [u8; 512], slot: usize, type_code: u8, lba: u32, sectors: u32) {
    let base: usize = 446 + 16 * slot;
    sector[base + 4] = type_code;
    sector[base + 8..base + 12].copy_from_slice(&lba.to_le_bytes());
    sector[base + 12..base + 16].copy_from_slice(&sectors.to_le_bytes());
}

#[test]
fn extended_chain_fixture() {
    // A record whose first entry is a Linux partition two sectors into the
    // record and whose second entry points the chain onwards.
    let mut sector = [0u8; 512];
    put_entry(&mut sector, 0, 0x83, 2, 100);
    put_entry(&mut sector, 1, 0x05, 19531468, 100);
    sector[510] = 0x55;
    sector[511] = 0xaa;
    let (results, has_extended) = parse_extended(&sector, 0, 0).unwrap();
    assert!(has_extended);
    assert_eq!(results.len(), 2);
    assert_eq!(results[0].partition_type, PartitionType::Linux);
    assert_eq!(results[0].offset_start, 1024);
    assert_eq!(results[1].partition_type, PartitionType::Extended);
    assert_eq!(results[1].offset_start, 10000111616);
}

#[test]
fn extended_first_entry_relative_to_record() {
    // The first entry counts from the record's own offset, the second from
    // the chain root.
    let mut sector = [0u8; 512];
    put_entry(&mut sector, 0, 0x83, 2, 100);
    put_entry(&mut sector, 1, 0x05, 8, 100);
    let (results, has_extended) = parse_extended(&sector, 4096, 2048).unwrap();
    assert!(has_extended);
    assert_eq!(results[0].offset_start, (2 + 2048 / 512) * 512);
    assert_eq!(results[1].offset_start, 4096 + 8 * 512);
}

#[test]
fn extended_too_short() {
    let sector = [0u8; 511];
    assert_eq!(
        parse_extended(&sector, 0, 0).unwrap_err(),
        CalfError::ExtendedPartition
    );
}

#[test]
fn mbr_decode_four_entries() {
    // Four primary entries and no protective type: a plain master boot
    // record with exactly four partitions.
    let mut sector = [0u8; 512];
    put_entry(&mut sector, 0, 0x83, 2048, 1000);
    put_entry(&mut sector, 1, 0x0c, 4096, 2000);
    put_entry(&mut sector, 2, 0x00, 0, 0);
    put_entry(&mut sector, 3, 0x00, 0, 0);
    sector[510] = 0x55;
    sector[511] = 0xaa;
    let result = parse_mbr(&sector).unwrap();
    assert_eq!(result.boot_type, BootType::MasterBootRecord);
    assert_eq!(result.partitions.len(), 4);
    assert_eq!(result.partitions[0].partition_type, PartitionType::Linux);
    assert_eq!(result.partitions[1].partition_type, PartitionType::Fat32);
    assert_eq!(result.partitions[1].offset_start, 4096 * 512);
    assert_eq!(result.partitions[1].partition_size, 2000 * 512);
}

#[test]
fn mbr_protective_entry_signals_gpt() {
    let mut sector = [0u8; 512];
    put_entry(&mut sector, 0, 0xee, 1, 0xffffffff);
    sector[510] = 0x55;
    sector[511] = 0xaa;
    let result = parse_mbr(&sector).unwrap();
    assert_eq!(result.boot_type, BootType::GuidPartitionTable);
    assert_eq!(result.partitions.len(), 4);
    assert_eq!(result.partitions[0].partition_type, PartitionType::Protective);
}

#[test]
fn mbr_too_short() {
    let sector = [0u8; 100];
    assert_eq!(parse_mbr(&sector).unwrap_err(), CalfError::ParseMbr);
}
