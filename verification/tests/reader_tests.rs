use calf::bootsector::boot::{boot_info, BootType, PartitionType};
use calf::calf::QcowInfo;
use calf::error::CalfError;
use calf::format::header::{CalfHeader, Header};
use calf::format::level::Level;
use calf::reader::SeekFrom;
use calf::source::MemSource;

/// Build a small image: a version-3 header with 512-byte clusters and a
/// 4096-byte guest, a level-two table at physical offset 1024 whose first
/// entry points at the cluster holding the guest's boot sector (physical
/// offset 1536), and a compressed entry for guest cluster 3.
fn image() -> Vec<u8> {
    let mut data = vec![0u8; 2048];
    // Header: signature, version 3, cluster bits 9, guest size 4096,
    // header size 112.
    data[0..4].copy_from_slice(&[81, 70, 73, 251]);
    data[4..8].copy_from_slice(&3u32.to_be_bytes());
    data[20..24].copy_from_slice(&9u32.to_be_bytes());
    data[24..32].copy_from_slice(&4096u64.to_be_bytes());
    data[100..104].copy_from_slice(&112u32.to_be_bytes());
    // Level-two table at 1024: entry 0 points at the boot cluster, entry 3
    // carries the compressed bit; entries 1 and 2 point at physical
    // offset 0.
    let e0: u64 = 0x8000_0000_0000_0000 | 1536;
    data[1024..1032].copy_from_slice(&e0.to_be_bytes());
    let e3: u64 = 0x4000_0000_0000_0000 | 1536;
    data[1048..1056].copy_from_slice(&e3.to_be_bytes());
    // Guest boot sector at physical 1536: one Linux partition and one
    // extended partition entry.
    let base: usize = 1536 + 446;
    data[base + 4] = 0x83;
    data[base + 8..base + 12].copy_from_slice(&2u32.to_le_bytes());
    data[base + 12..base + 16].copy_from_slice(&8u32.to_le_bytes());
    data[base + 20] = 0x05;
    data[base + 24..base + 28].copy_from_slice(&2u32.to_le_bytes());
    data[base + 28..base + 32].copy_from_slice(&8u32.to_le_bytes());
    data[2046] = 0x55;
    data[2047] = 0xaa;
    data
}

fn session(data: &[u8]) -> QcowInfo {
    let mut calf = calf::calf::CalfReader {
        fs: MemSource {
            data: data.to_vec(),
        },
    };
    let header: Header = calf.header().unwrap();
    QcowInfo {
        header,
        level1_table: vec![
            Level {
                offset: 1024,
                is_copied: true,
                is_compressed: false,
            },
            Level {
                offset: 0,
                is_copied: false,
                is_compressed: false,
            },
        ],
    }
}

#[test]
fn read_translates_through_both_levels() {
    let data = image();
    let info = session(&data);
    let mut reader = info
        .new(MemSource {
            data: data.clone(),
        })
        .unwrap();
    // Guest offset 0 resolves through level one and level two to the
    // cluster at physical offset 1536.
    let bytes = reader.read_exact(512).unwrap();
    assert_eq!(&bytes[..], &data[1536..2048]);
    assert_eq!(bytes[446 + 4], 0x83);
}

#[test]
fn boot_info_over_translated_stream() {
    let data = image();
    let info = session(&data);
    let mut reader = info
        .new(MemSource {
            data: data.clone(),
        })
        .unwrap();
    let boot = reader.get_boot_info().unwrap();
    assert_eq!(boot.boot_type, BootType::MasterBootRecord);
    // Four primary entries, then the two entries of the single extended
    // boot record in the chain.
    assert_eq!(boot.partitions.len(), 6);
    assert_eq!(boot.partitions[0].partition_type, PartitionType::Linux);
    assert_eq!(boot.partitions[0].offset_start, 1024);
    assert_eq!(boot.partitions[1].partition_type, PartitionType::Extended);
    assert_eq!(boot.partitions[1].offset_start, 1024);
    assert_eq!(boot.partitions[4].partition_type, PartitionType::Empty);
    assert_eq!(boot.partitions[5].partition_type, PartitionType::Empty);
}

#[test]
fn two_streams_read_identical_bytes() {
    // Two independent stream instances over the same session and backing
    // bytes return identical bytes for the same range.
    let data = image();
    let info = session(&data);
    let mut r1 = info
        .new(MemSource {
            data: data.clone(),
        })
        .unwrap();
    let mut r2 = info
        .new(MemSource {
            data: data.clone(),
        })
        .unwrap();
    r1.seek(SeekFrom::Start(100)).unwrap();
    r2.seek(SeekFrom::Start(100)).unwrap();
    let b1 = r1.read_exact(300).unwrap();
    let b2 = r2.read_exact(300).unwrap();
    assert_eq!(b1, b2);
}

#[test]
fn seek_then_read_matches_read_from_start() {
    // Reading N bytes after seeking to P equals reading P + N bytes from
    // position 0 and discarding the first P.
    let data = image();
    let info = session(&data);
    let mut r1 = info
        .new(MemSource {
            data: data.clone(),
        })
        .unwrap();
    let mut r2 = info
        .new(MemSource {
            data: data.clone(),
        })
        .unwrap();
    let p: usize = 600;
    let n: usize = 700;
    r1.seek(SeekFrom::Start(p as u64)).unwrap();
    let direct = r1.read_exact(n).unwrap();
    let from_start = r2.read_exact(p + n).unwrap();
    assert_eq!(&direct[..], &from_start[p..]);
}

#[test]
fn unallocated_bucket_reads_zero_filled() {
    // The second level-one entry has offset zero: the whole bucket is
    // unallocated and reads as zero-filled bytes.
    let data = image();
    let info = session(&data);
    let mut reader = info.new(MemSource { data }).unwrap();
    reader.seek(SeekFrom::Start(512 * 64)).unwrap();
    let bytes = reader.read_exact(600).unwrap();
    assert_eq!(bytes, vec![0u8; 600]);
}

#[test]
fn compressed_cluster_is_rejected() {
    let data = image();
    let info = session(&data);
    let mut reader = info.new(MemSource { data }).unwrap();
    reader.seek(SeekFrom::Start(3 * 512)).unwrap();
    assert_eq!(
        reader.read(16).unwrap_err(),
        CalfError::UnsupportedCompression
    );
}

#[test]
fn position_past_table_fails_with_level() {
    let data = image();
    let info = session(&data);
    let mut reader = info.new(MemSource { data }).unwrap();
    reader.seek(SeekFrom::Start(2 * 512 * 64)).unwrap();
    assert_eq!(reader.read(16).unwrap_err(), CalfError::Level);
}

#[test]
fn table_outside_source_fails_with_read_file() {
    let data = image();
    let mut info = session(&data);
    info.level1_table[0].offset = 1_000_000;
    let mut reader = info.new(MemSource { data }).unwrap();
    assert_eq!(reader.read(16).unwrap_err(), CalfError::ReadFile);
}

#[test]
fn seek_semantics() {
    let data = image();
    let info = session(&data);
    let mut reader = info.new(MemSource { data }).unwrap();
    assert_eq!(reader.seek(SeekFrom::Start(77)).unwrap(), 77);
    // End-relative seeks count from the guest size of 4096.
    assert_eq!(reader.seek(SeekFrom::End(-96)).unwrap(), 4000);
    assert_eq!(reader.seek(SeekFrom::End(100)).unwrap(), 4196);
    assert_eq!(reader.seek(SeekFrom::Current(-196)).unwrap(), 4000);
    assert_eq!(
        reader.seek(SeekFrom::End(-5000)).unwrap_err(),
        CalfError::InvalidOffset
    );
    // A failed seek leaves the cursor where it was.
    assert_eq!(reader.seek(SeekFrom::Current(0)).unwrap(), 4000);
    assert_eq!(
        reader.seek(SeekFrom::Current(-4001)).unwrap_err(),
        CalfError::InvalidOffset
    );
}

#[test]
fn empty_table_fails_with_level() {
    let data = image();
    let mut info = session(&data);
    info.level1_table = Vec::new();
    assert_eq!(info.new(MemSource { data }).err().unwrap(), CalfError::Level);
}

#[test]
fn unsupported_cluster_bits_fail_with_header() {
    let data = image();
    let mut info = session(&data);
    info.header.cluster_block_bits_count = 2;
    assert_eq!(
        info.new(MemSource { data: data.clone() }).err().unwrap(),
        CalfError::Header
    );
    let mut info2 = session(&data);
    info2.header.cluster_block_bits_count = 63;
    assert_eq!(
        info2.new(MemSource { data }).err().unwrap(),
        CalfError::Header
    );
}

#[test]
fn short_source_fails_header_read() {
    let mut calf = calf::calf::CalfReader {
        fs: MemSource {
            data: vec![0u8; 50],
        },
    };
    assert_eq!(calf.header().unwrap_err(), CalfError::ReadFile);
}

#[test]
fn boot_info_works_over_raw_bytes() {
    // The boot-sector parser runs over any seekable readable byte space:
    // here a raw in-memory buffer rather than a translated guest stream.
    let mut sector = vec![0u8; 512];
    sector[446 + 4] = 0xee;
    let mut source = MemSource { data: sector };
    let boot = boot_info(&mut source).unwrap();
    assert_eq!(boot.boot_type, BootType::GuidPartitionTable);
    assert_eq!(boot.partitions.len(), 4);

    let mut short = MemSource {
        data: vec![0u8; 100],
    };
    assert_eq!(boot_info(&mut short).unwrap_err(), CalfError::ReadFile);
}

/// An image whose guest space carries a two-record extended chain: guest
/// cluster 0 holds the boot sector, cluster 1 the first extended boot
/// record and cluster 2 the second.
fn chained_image() -> Vec<u8> {
    let mut data = vec![0u8; 3072];
    data[0..4].copy_from_slice(&[81, 70, 73, 251]);
    data[4..8].copy_from_slice(&3u32.to_be_bytes());
    data[20..24].copy_from_slice(&9u32.to_be_bytes());
    data[24..32].copy_from_slice(&4096u64.to_be_bytes());
    data[100..104].copy_from_slice(&112u32.to_be_bytes());
    // Level-two table at 1024: guest clusters 0, 1 and 2 live at physical
    // offsets 1536, 2048 and 2560.
    for (i, phys) in [(0usize, 1536u64), (1, 2048), (2, 2560)] {
        let word: u64 = 0x8000_0000_0000_0000 | phys;
        data[1024 + 8 * i..1032 + 8 * i].copy_from_slice(&word.to_be_bytes());
    }
    // Boot sector: a Linux partition and an extended primary entry whose
    // chain root is guest offset 512.
    let mbr = 1536 + 446;
    data[mbr + 4] = 0x83;
    data[mbr + 8..mbr + 12].copy_from_slice(&8u32.to_le_bytes());
    data[mbr + 20] = 0x05;
    data[mbr + 24..mbr + 28].copy_from_slice(&1u32.to_le_bytes());
    // First record (guest 512): a logical Linux partition and a pointer to
    // the next record, one sector past the chain root.
    let ebr1 = 2048 + 446;
    data[ebr1 + 4] = 0x83;
    data[ebr1 + 8..ebr1 + 12].copy_from_slice(&2u32.to_le_bytes());
    data[ebr1 + 20] = 0x05;
    data[ebr1 + 24..ebr1 + 28].copy_from_slice(&1u32.to_le_bytes());
    // Second record (guest 1024): a logical Linux partition and an empty
    // pointer ending the chain.
    let ebr2 = 2560 + 446;
    data[ebr2 + 4] = 0x83;
    data[ebr2 + 8..ebr2 + 12].copy_from_slice(&4u32.to_le_bytes());
    data
}

#[test]
fn extended_chain_is_walked_in_order() {
    let data = chained_image();
    let info = session(&data);
    let mut reader = info.new(MemSource { data }).unwrap();
    let boot = reader.get_boot_info().unwrap();
    assert_eq!(boot.boot_type, BootType::MasterBootRecord);
    // Four primary entries, then both records of the chain in walk order.
    assert_eq!(boot.partitions.len(), 8);
    assert_eq!(boot.partitions[1].partition_type, PartitionType::Extended);
    assert_eq!(boot.partitions[1].offset_start, 512);
    // The first record's logical partition counts from the record itself.
    assert_eq!(boot.partitions[4].partition_type, PartitionType::Linux);
    assert_eq!(boot.partitions[4].offset_start, (2 + 1) * 512);
    // Its chain pointer counts from the chain root.
    assert_eq!(boot.partitions[5].partition_type, PartitionType::Extended);
    assert_eq!(boot.partitions[5].offset_start, 512 + 512);
    // The second record's logical partition, then the empty chain end.
    assert_eq!(boot.partitions[6].partition_type, PartitionType::Linux);
    assert_eq!(boot.partitions[6].offset_start, (4 + 2) * 512);
    assert_eq!(boot.partitions[7].partition_type, PartitionType::Empty);
}

#[test]
fn read_stops_at_cluster_boundary() {
    // A plain read returns at most the remainder of the current cluster:
    // the standard short-read contract.
    let data = image();
    let info = session(&data);
    let mut reader = info
        .new(MemSource {
            data: data.clone(),
        })
        .unwrap();
    reader.seek(SeekFrom::Start(500)).unwrap();
    let chunk = reader.read(1000).unwrap();
    assert_eq!(chunk.len(), 12);
    assert_eq!(&chunk[..], &data[1536 + 500..1536 + 512]);
    // The next read continues in the following cluster.
    let chunk2 = reader.read(8).unwrap();
    assert_eq!(chunk2.len(), 8);
    assert_eq!(&chunk2[..], &data[0..8]);
}
