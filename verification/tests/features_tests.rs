use calf::calf::CalfReader;
use calf::format::extensions::extension::{CalfExtensions, Extensions};
use calf::source::MemSource;
use calf::format::extensions::features::{FeatureType, Features};
use calf::utils::strings::extract_utf8_string;

fn put_name(data: &mut Vec<u8>, feature_type: u8, bit: u8, name: &str) {
    data.push(feature_type);
    data.push(bit);
    let mut field = [0u8; 46];
    field[..name.len()].copy_from_slice(name.as_bytes());
    data.extend_from_slice(&field);
}

/// The feature name table of a typical version-3 image: eight 48-byte
/// records naming the known incompatible, compatible and auto-clear bits.
fn features_fixture() -> Vec<u8> {
    let mut data = Vec::new();
    put_name(&mut data, 0, 0, "dirty bit");
    put_name(&mut data, 0, 1, "corrupt bit");
    put_name(&mut data, 0, 2, "external data file");
    put_name(&mut data, 0, 3, "compression type");
    put_name(&mut data, 0, 4, "extended L2 entries");
    put_name(&mut data, 1, 0, "lazy refcounts");
    put_name(&mut data, 2, 0, "bitmaps");
    put_name(&mut data, 2, 1, "raw external data");
    data
}

#[test]
fn test_grab_features() {
    let test = features_fixture();

    let results = Features::grab_features(&test).unwrap();
    assert_eq!(results.len(), 8);

    assert_eq!(results[0].feature_type, FeatureType::Incompatible);
    assert_eq!(results[0].value, "dirty bit");

    assert_eq!(results[7].feature_type, FeatureType::Autoclear);
    assert_eq!(results[7].value, "raw external data");
}

#[test]
fn test_get_features() {
    let test = features_fixture();

    let results = Features::get_features(&test).unwrap();

    assert_eq!(results.len(), 8);
    assert_eq!(results[2].feature_type, FeatureType::Incompatible);
    assert_eq!(results[2].value, "external data file");

    assert_eq!(results[5].feature_type, FeatureType::Compatible);
    assert_eq!(results[5].value, "lazy refcounts");
}

#[test]
fn test_get_type() {
    let fake: u8 = 4;
    let value = Features::get_type(&fake);
    assert_eq!(value, FeatureType::Unknown);
}

#[test]
#[should_panic(expected = "HeaderExtensions")]
fn test_grab_extensions() {
    let test = [104, 3, 248, 87];

    let _ = Extensions::grab_extensions(&test).unwrap();
}

#[test]
fn test_get_extensions() {
    // A 512-byte extension area: the feature name table (signature
    // 0x6803f857, 384 payload bytes, one full padding block), then zeros,
    // whose leading zero signature ends the walk.
    let mut test = vec![104, 3, 248, 87, 0, 0, 1, 128];
    test.extend_from_slice(&features_fixture());
    test.resize(512, 0);

    let extensions = Extensions::get_extensions(&test).unwrap();
    assert_eq!(extensions.features.len(), 8);
}

#[test]
fn ext_reads_area_after_fixed_header() {
    // The extension area sits right after the fixed 112-byte header.
    let mut data = vec![0u8; 112];
    data.extend_from_slice(&[104, 3, 248, 87, 0, 0, 1, 128]);
    data.extend_from_slice(&features_fixture());
    data.resize(112 + 512, 0);
    let mut calf = CalfReader {
        fs: MemSource { data },
    };
    let extensions = calf.ext().unwrap();
    assert_eq!(extensions.features.len(), 8);
    assert_eq!(extensions.features[6].value, "bitmaps");
    assert_eq!(extensions.features[6].bit_number, 0);
}

#[test]
fn extension_area_without_terminator_fails() {
    // An unknown extension that fills the area exactly, leaving no room
    // for the zero terminator.
    let mut test = vec![0xde, 0xad, 0xbe, 0xef, 0, 0, 0, 8];
    test.resize(24, 0);
    assert!(Extensions::get_extensions(&test).is_err());
}

#[test]
fn invalid_utf8_name_is_base64_encoded() {
    // A feature name that is not valid UTF-8 is reported through the
    // failure message carrying the base64 encoding of the raw bytes.
    let data = [0xff, 0xfe, 0x41];
    let value = extract_utf8_string(&data);
    assert_eq!(value, "[strings] Failed to get UTF8 string: //5B");
}

#[test]
fn utf8_name_trims_trailing_padding() {
    let data = [104, 105, 0, 0, 0];
    assert_eq!(extract_utf8_string(&data), "hi");
    let empty = [0u8; 4];
    assert_eq!(extract_utf8_string(&empty), "");
}
