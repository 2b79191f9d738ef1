use calf::calf::{CalfReader, CalfReaderAction};
use calf::format::level::CalfLevel;
use calf::error::CalfError;
use calf::format::header::{Compression, Encryption, Header};
use calf::source::MemSource;

fn header_fixture() -> [u8; 112] {
    [
        81, 70, 73, 251, 0, 0, 0, 3, 0, 0, 0, 0, 0, 0, 0, 0,
        0, 0, 0, 0, 0, 0, 0, 16, 0, 0, 0, 20, 0, 0, 0, 0,
        0, 0, 0, 0, 0, 0, 0, 160, 0, 0, 0, 0, 0, 4, 0, 0,
        0, 0, 0, 0, 0, 1, 0, 0, 0, 0, 0, 1, 0, 0, 0, 0,
        0, 0, 0, 0, 0, 0, 0, 0, 0, 0, 0, 0, 0, 0, 0, 0,
        0, 0, 0, 0, 0, 0, 0, 0, 0, 0, 0, 0, 0, 0, 0, 0,
        0, 0, 0, 4, 0, 0, 0, 112, 0, 0, 0, 0, 0, 0, 0, 0,
    ]
}

#[test]
fn test_get_header() {
    let test = header_fixture();

    let result = Header::get_header(&test).unwrap();

    assert_eq!(result.backing_filename_offset, 0);
    assert_eq!(result.backing_filename_size, 0);
    assert_eq!(result.version, 3);
    assert_eq!(result.snapshot_offset, 0);
    assert_eq!(result.snapshots_count, 0);
}

#[test]
fn header_fixture_fields() {
    // The concrete header fixture: version 3, the magic signature, and a
    // 16-bit cluster exponent, so the cluster size is 65536. The table
    // count field decodes, with its 8-byte stride, to a 1280-byte region
    // of 160 top-level entries expected downstream.
    let test = header_fixture();
    assert_eq!(&test[0..4], &[81, 70, 73, 251]);
    let result = Header::get_header(&test).unwrap();
    assert_eq!(result.sig, 0x514649fb);
    assert_eq!(result.version, 3);
    assert_eq!(result.cluster_block_bits_count, 16);
    assert_eq!(result.level_one_table_ref, 1280);
    assert_eq!(result.header_size, 112);

    let mut calf = CalfReader {
        fs: MemSource {
            data: test.to_vec(),
        },
    };
    assert_eq!(calf.cluster_size().unwrap(), 65536);
    assert_eq!(calf.version().unwrap(), 3);
    assert_eq!(calf.compression().unwrap(), Compression::Zlib);
    assert_eq!(calf.encryption().unwrap(), Encryption::Plain);
    assert_eq!(calf.snapshots_count().unwrap(), 0);
    assert_eq!(calf.size().unwrap(), 85899345920);

    // The 1280-byte table region the count field stands for decodes into
    // 160 top-level entries downstream.
    let mut table_reader = CalfReader {
        fs: MemSource {
            data: vec![0u8; 1280],
        },
    };
    let levels = table_reader.levels(&0, &1280).unwrap();
    assert_eq!(levels.len(), 160);
}

#[test]
fn header_compression_byte_selects_method() {
    // With a header size field of 112, the trailing byte selects the
    // compression method: 0 is Zlib, 1 is Zstd, anything else unknown.
    let mut test = header_fixture();
    test[104] = 0;
    assert_eq!(
        Header::get_header(&test).unwrap().compression_method,
        Compression::Zlib
    );
    test[104] = 1;
    assert_eq!(
        Header::get_header(&test).unwrap().compression_method,
        Compression::Zstd
    );
    test[104] = 7;
    assert_eq!(
        Header::get_header(&test).unwrap().compression_method,
        Compression::Unknown
    );
    // A different header size field means no compression byte at all.
    test[103] = 104;
    test[104] = 0;
    assert_eq!(
        Header::get_header(&test).unwrap().compression_method,
        Compression::Uncompressed
    );
}

#[test]
fn header_too_short() {
    let test = [0u8; 103];
    assert_eq!(Header::get_header(&test).unwrap_err(), CalfError::Header);
}

#[test]
fn test_get_encrypt() {
    let test = [0, 1, 2];
    for entry in test {
        let result = Header::get_encrypt(&entry);
        assert_ne!(result, Encryption::Unknown);
    }
}

#[test]
fn test_get_incompat_flags() {
    let test = [1, 2, 4, 8, 16];
    for entry in test {
        assert!(!Header::get_incompat_flags(&entry).is_empty())
    }
}

#[test]
fn test_get_compat_flags() {
    let test = [1];
    for entry in test {
        assert!(!Header::get_compat_flags(&entry).is_empty())
    }
}

#[test]
fn test_get_auto_clear_flags() {
    let test = [1, 2];
    for entry in test {
        assert!(!Header::get_auto_clear_flags(&entry).is_empty())
    }
}

#[test]
fn error_messages_name_each_failure() {
    assert_eq!(CalfError::Header.message(), "Could not parse header");
    assert_eq!(
        CalfError::UnsupportedCompression.message(),
        "Compressed clusters are not supported"
    );
    assert_eq!(
        CalfError::InvalidOffset.message(),
        "Seek produced an out of range offset"
    );
}
