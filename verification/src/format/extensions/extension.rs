use crate::calf::{CalfReader, CalfSource};
use crate::error::CalfError;
use crate::format::extensions::features::{features_model, FeatureView, Features};
use crate::source::ByteSource;
use crate::utils::bytes::{be_u32_at, read_be_u32};
use crate::utils::read::read_bytes;
use vstd::prelude::*;
use vstd::slice::slice_subrange;

verus! {

/// The signature of the feature-name-table header extension.
pub const FEATURE_TABLE_SIG: u32 = 0x6803f857;

/// The optional header extensions of an image. Only the feature name
/// table is decoded; every other extension is skipped over.
#[derive(Debug)]
pub struct Extensions {
    pub features: Vec<Features>,
}

/// The feature entries that the extension area `data` carries, threading
/// the entries decoded so far: each extension is a 4-byte signature, a
/// 4-byte length, that many bytes of payload and padding up to the next
/// 8-byte boundary. A zero signature ends the area; a feature-name-table
/// extension replaces the entries collected so far. `None` when the area
/// ends before a zero signature.
pub open spec fn extensions_model_from(data: Seq<u8>, acc: Seq<FeatureView>) -> Option<
    Seq<FeatureView>,
>
    decreases data.len(),
{
    if data.len() < 8 {
        Option::None
    } else {
        let sig = be_u32_at(data, 0);
        let size = be_u32_at(data, 4) as int;
        let padding: int = 8 - size % 8;
        if 8 + size > data.len() {
            Option::None
        } else if 8 + size + padding > data.len() {
            Option::None
        } else if sig == 0 {
            Option::Some(acc)
        } else {
            let acc2 = if sig == FEATURE_TABLE_SIG {
                features_model(data.subrange(8, 8 + size))
            } else {
                acc
            };
            extensions_model_from(data.skip(8 + size + padding), acc2)
        }
    }
}

/// The feature entries that the extension area `data` carries.
pub open spec fn extensions_model(data: Seq<u8>) -> Option<Seq<FeatureView>> {
    extensions_model_from(data, Seq::empty())
}

/// Reads the optional header extensions that follow the fixed header.
pub trait CalfExtensions: CalfSource {
    /// Read the 512-byte extension area at offset 112 and decode it.
    fn ext(&mut self) -> (r: Result<Extensions, CalfError>)
        requires
            old(self).source_inv(),
        ensures
            final(self).source_inv(),
            final(self).source_bytes() == old(self).source_bytes(),
            r matches Ok(e) ==> old(self).source_bytes().len() >= 624 && extensions_model(
                old(self).source_bytes().subrange(112, 624),
            ) == Some(e.features@.map_values(|f: Features| f@)),
    ;
}

impl<S: ByteSource> CalfExtensions for CalfReader<S> {
    fn ext(&mut self) -> (r: Result<Extensions, CalfError>) {
        let bytes = match read_bytes(112, 512, &mut self.fs) {
            Ok(b) => b,
            Err(e) => {
                return Err(e);
            },
        };
        Extensions::grab_extensions(bytes.as_slice())
    }
}

impl Extensions {
    /// Decode an extension area, reporting `HeaderExtensions` when it ends
    /// before its zero terminator.
    pub fn grab_extensions(data: &[u8]) -> (r: Result<Extensions, CalfError>)
        ensures
            r is Ok <==> extensions_model(data@) is Some,
            r matches Ok(e) ==> extensions_model(data@) == Some(
                e.features@.map_values(|f: Features| f@),
            ),
            r is Err ==> r == Err::<Extensions, CalfError>(CalfError::HeaderExtensions),
    {
        Extensions::get_extensions(data)
    }

    /// Walk the tag-length-value extension records until the zero
    /// terminator, keeping the entries of the feature name table.
    #[verifier::loop_isolation(false)]
    pub fn get_extensions(data: &[u8]) -> (r: Result<Extensions, CalfError>)
        ensures
            r is Ok <==> extensions_model(data@) is Some,
            r matches Ok(e) ==> extensions_model(data@) == Some(
                e.features@.map_values(|f: Features| f@),
            ),
            r is Err ==> r == Err::<Extensions, CalfError>(CalfError::HeaderExtensions),
    {
        let mut features: Vec<Features> = Vec::new();
        let mut pos: usize = 0;
        proof {
            assert(data@.skip(0) =~= data@);
            assert(features@.map_values(|f: Features| f@) =~= Seq::<FeatureView>::empty());
        }
        loop
            invariant
                pos <= data@.len(),
                extensions_model_from(
                    data@.skip(pos as int),
                    features@.map_values(|f: Features| f@),
                ) == extensions_model(data@),
            decreases data@.len() - pos,
        {
            let ghost suffix = data@.skip(pos as int);
            if data.len() - pos < 8 {
                return Err(CalfError::HeaderExtensions);
            }
            let sig = read_be_u32(data, pos);
            let size = read_be_u32(data, pos + 4);
            proof {
                assert(suffix.len() >= 8);
                assert(be_u32_at(suffix, 0) == sig && be_u32_at(suffix, 4) == size);
            }
            let remaining = data.len() - pos;
            if size as u64 > remaining as u64 - 8 {
                return Err(CalfError::HeaderExtensions);
            }
            let padding: u32 = 8 - (size % 8);
            if size as u64 + padding as u64 > remaining as u64 - 8 {
                return Err(CalfError::HeaderExtensions);
            }
            if sig == 0 {
                return Ok(Extensions { features });
            }
            if sig == FEATURE_TABLE_SIG {
                let body = slice_subrange(data, pos + 8, pos + 8 + size as usize);
                proof {
                    assert(body@ =~= suffix.subrange(8, 8 + size as int));
                }
                features = match Features::grab_features(body) {
                    Ok(f) => f,
                    Err(_) => Vec::new(),
                };
            }
            pos = pos + 8 + size as usize + padding as usize;
            proof {
                assert(data@.skip(pos as int) =~= suffix.skip(8 + size as int + (8 - size as int % 8)));
            }
        }
    }
}

} // verus!
