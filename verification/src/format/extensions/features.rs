use crate::error::CalfError;
use crate::utils::strings::{extract_utf8_string, extracted_string};
use vstd::prelude::*;
use vstd::slice::slice_subrange;

verus! {

/// One named feature bit advertised by the feature-name-table extension:
/// which flag set it belongs to, its bit number, and its name.
#[derive(Debug)]
pub struct Features {
    pub feature_type: FeatureType,
    pub bit_number: u8,
    pub value: String,
}

#[derive(Debug, Clone, Copy, PartialEq, Eq, Structural)]
pub enum FeatureType {
    Incompatible,
    Compatible,
    Autoclear,
    Unknown,
}

/// The mathematical content of one decoded feature entry.
pub struct FeatureView {
    pub feature_type: FeatureType,
    pub bit_number: u8,
    pub value: Seq<char>,
}

impl View for Features {
    type V = FeatureView;

    open spec fn view(&self) -> FeatureView {
        FeatureView {
            feature_type: self.feature_type,
            bit_number: self.bit_number,
            value: self.value@,
        }
    }
}

/// The flag set selected by a feature-type byte.
pub open spec fn feature_type_of(v: u8) -> FeatureType {
    if v == 0 {
        FeatureType::Incompatible
    } else if v == 1 {
        FeatureType::Compatible
    } else if v == 2 {
        FeatureType::Autoclear
    } else {
        FeatureType::Unknown
    }
}

/// The feature entries encoded in `data`: successive 48-byte records (one
/// type byte, one bit number, a 46-byte padded name) until fewer than 48
/// bytes remain.
pub open spec fn features_model(data: Seq<u8>) -> Seq<FeatureView>
    decreases data.len(),
{
    if data.len() < 48 {
        Seq::empty()
    } else {
        seq![
            FeatureView {
                feature_type: feature_type_of(data[0]),
                bit_number: data[1],
                value: extracted_string(data.subrange(2, 48)),
            },
        ] + features_model(data.skip(48))
    }
}

impl Features {
    /// Decode the feature entries of a feature-name-table extension. The
    /// decode itself cannot fail: a trailing fragment shorter than one
    /// record is ignored.
    pub fn grab_features(data: &[u8]) -> (r: Result<Vec<Features>, CalfError>)
        ensures
            r is Ok,
            r matches Ok(v) ==> v@.map_values(|f: Features| f@) == features_model(data@),
    {
        Features::get_features(data)
    }

    /// Decode successive 48-byte feature records.
    #[verifier::loop_isolation(false)]
    pub fn get_features(data: &[u8]) -> (r: Result<Vec<Features>, CalfError>)
        ensures
            r is Ok,
            r matches Ok(v) ==> v@.map_values(|f: Features| f@) == features_model(data@),
    {
        let mut features: Vec<Features> = Vec::new();
        let mut pos: usize = 0;
        proof {
            assert(data@.skip(0) =~= data@);
            assert(features@.map_values(|f: Features| f@) + features_model(data@.skip(0))
                =~= features_model(data@));
        }
        while data.len() - pos >= 48
            invariant
                pos <= data@.len(),
                features@.map_values(|f: Features| f@) + features_model(data@.skip(pos as int))
                    == features_model(data@),
            decreases data@.len() - pos,
        {
            let ghost suffix = data@.skip(pos as int);
            let feature_data = data[pos];
            let bit_number = data[pos + 1];
            let string_data = slice_subrange(data, pos + 2, pos + 48);
            let value = extract_utf8_string(string_data);
            let feature = Features {
                feature_type: Features::get_type(&feature_data),
                bit_number,
                value,
            };
            proof {
                assert(suffix[0] == feature_data && suffix[1] == bit_number);
                assert(string_data@ =~= suffix.subrange(2, 48));
                assert(feature@ == features_model(suffix)[0]);
            }
            features.push(feature);
            pos = pos + 48;
            proof {
                assert(data@.skip(pos as int) =~= suffix.skip(48));
                assert(features@.map_values(|f: Features| f@) + features_model(
                    data@.skip(pos as int),
                ) =~= features_model(data@));
            }
        }
        proof {
            assert(features_model(data@.skip(pos as int)) =~= Seq::<FeatureView>::empty());
            assert(features@.map_values(|f: Features| f@) =~= features_model(data@));
        }
        Ok(features)
    }

    /// Determine which flag set a feature-type byte selects: 0 the
    /// incompatible set, 1 the compatible set, 2 the auto-clear set,
    /// anything else unknown.
    pub fn get_type(data: &u8) -> (r: FeatureType)
        ensures
            r == feature_type_of(*data),
    {
        if *data == 0 {
            FeatureType::Incompatible
        } else if *data == 1 {
            FeatureType::Compatible
        } else if *data == 2 {
            FeatureType::Autoclear
        } else {
            FeatureType::Unknown
        }
    }
}

} // verus!
