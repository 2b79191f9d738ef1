use vstd::prelude::*;

verus! {

/// Closed error taxonomy for every fallible operation of this crate.
/// Malformed or adversarial input is always reported through one of these
/// variants; no operation panics.
#[derive(Debug, PartialEq, Eq)]
pub enum CalfError {
    /// The fixed 112-byte header region could not be decoded.
    Header,
    /// The feature list of a header extension could not be decoded.
    HeaderExtensionFeatures,
    /// The optional header extension area could not be decoded.
    HeaderExtensions,
    /// An indirection-table entry could not be resolved (index out of range
    /// or a table could not be obtained).
    Level,
    /// The backing byte source failed to seek.
    SeekFile,
    /// The backing byte source failed to produce the requested bytes.
    ReadFile,
    /// The 512-byte master boot record could not be decoded.
    ParseMbr,
    /// Reading or decoding an extended boot record failed.
    ExtendedPartition,
    /// The addressed cluster is stored compressed, which is unsupported.
    UnsupportedCompression,
    /// A seek or position computation left the 64-bit address range.
    InvalidOffset,
}

impl CalfError {
    /// The description of each error variant, as a character sequence.
    pub open spec fn message_spec(&self) -> Seq<char> {
        match self {
            CalfError::Header => "Could not parse header"@,
            CalfError::HeaderExtensionFeatures => "Could not parse features extension"@,
            CalfError::HeaderExtensions => "Could not get header extensions"@,
            CalfError::Level => "Failed to parse QCOW level"@,
            CalfError::SeekFile => "Failed to seek to provided offset"@,
            CalfError::ReadFile => "Failed to read bytes from QCOW file"@,
            CalfError::ParseMbr => "Failed to parse MBR bytes"@,
            CalfError::ExtendedPartition => "Failed to parse extended partition info"@,
            CalfError::UnsupportedCompression => "Compressed clusters are not supported"@,
            CalfError::InvalidOffset => "Seek produced an out of range offset"@,
        }
    }

    /// A human-readable description of the error.
    pub fn message(&self) -> (r: String)
        ensures
            r@ == self.message_spec(),
    {
        match self {
            CalfError::Header => "Could not parse header".to_owned(),
            CalfError::HeaderExtensionFeatures => "Could not parse features extension".to_owned(),
            CalfError::HeaderExtensions => "Could not get header extensions".to_owned(),
            CalfError::Level => "Failed to parse QCOW level".to_owned(),
            CalfError::SeekFile => "Failed to seek to provided offset".to_owned(),
            CalfError::ReadFile => "Failed to read bytes from QCOW file".to_owned(),
            CalfError::ParseMbr => "Failed to parse MBR bytes".to_owned(),
            CalfError::ExtendedPartition => "Failed to parse extended partition info".to_owned(),
            CalfError::UnsupportedCompression => "Compressed clusters are not supported".to_owned(),
            CalfError::InvalidOffset => "Seek produced an out of range offset".to_owned(),
        }
    }
}

} // verus!
