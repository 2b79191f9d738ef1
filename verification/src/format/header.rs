use crate::calf::{CalfReader, CalfSource};
use crate::error::CalfError;
use crate::source::ByteSource;
use crate::utils::bytes::{be_u32_at, be_u64_at, read_be_u32, read_be_u64};
use crate::utils::read::read_bytes;
use vstd::prelude::*;

verus! {

/// Decoded metadata of one image: a fixed 112-byte big-endian region at
/// offset 0 of the backing file. Only version 3 images carry the trailing
/// compression byte.
#[derive(Debug)]
pub struct Header {
    pub sig: u32,
    pub version: u32,
    pub backing_filename_offset: u64,
    pub backing_filename_size: u32,
    /// The cluster size is `1 << cluster_block_bits_count` bytes.
    pub cluster_block_bits_count: u32,
    /// Total guest size in bytes.
    pub size: u64,
    pub encryption_method: Encryption,
    /// Stored as eight times the raw count field.
    pub level_one_table_ref: u32,
    pub level_one_table_offset: u64,
    pub ref_table_offset_count: u64,
    pub ref_table_cluster_count: u32,
    pub snapshots_count: u32,
    pub snapshot_offset: u64,
    pub incompat_flags: Vec<IncompatFlags>,
    pub compat_flags: Vec<CompatFlags>,
    pub auto_clear_flags: Vec<AutoClear>,
    pub ref_count_order: u32,
    pub header_size: u32,
    /// Present only when the header size field is 112; `Uncompressed` otherwise.
    pub compression_method: Compression,
}

#[derive(Debug, Clone, Copy, PartialEq, Eq, Structural)]
pub enum Encryption {
    Plain,
    Aes,
    Luks,
    Unknown,
}

#[derive(Debug, Clone, Copy, PartialEq, Eq, Structural)]
pub enum IncompatFlags {
    Dirty,
    Corrupt,
    DataFile,
    Compression,
    ExtendedL2,
    Unknown,
}

#[derive(Debug, Clone, Copy, PartialEq, Eq, Structural)]
pub enum Compression {
    Zlib,
    Zstd,
    Uncompressed,
    Unknown,
}

#[derive(Debug, Clone, Copy, PartialEq, Eq, Structural)]
pub enum AutoClear {
    Bitmaps,
    DataFileRaw,
}

#[derive(Debug, Clone, Copy, PartialEq, Eq, Structural)]
pub enum CompatFlags {
    LazyRefCounts,
}

/// The mathematical content of a decoded header: the same fields as
/// `Header`, with the flag lists as sequences.
pub struct HeaderView {
    pub sig: u32,
    pub version: u32,
    pub backing_filename_offset: u64,
    pub backing_filename_size: u32,
    pub cluster_block_bits_count: u32,
    pub size: u64,
    pub encryption_method: Encryption,
    pub level_one_table_ref: u32,
    pub level_one_table_offset: u64,
    pub ref_table_offset_count: u64,
    pub ref_table_cluster_count: u32,
    pub snapshots_count: u32,
    pub snapshot_offset: u64,
    pub incompat_flags: Seq<IncompatFlags>,
    pub compat_flags: Seq<CompatFlags>,
    pub auto_clear_flags: Seq<AutoClear>,
    pub ref_count_order: u32,
    pub header_size: u32,
    pub compression_method: Compression,
}

impl View for Header {
    type V = HeaderView;

    open spec fn view(&self) -> HeaderView {
        HeaderView {
            sig: self.sig,
            version: self.version,
            backing_filename_offset: self.backing_filename_offset,
            backing_filename_size: self.backing_filename_size,
            cluster_block_bits_count: self.cluster_block_bits_count,
            size: self.size,
            encryption_method: self.encryption_method,
            level_one_table_ref: self.level_one_table_ref,
            level_one_table_offset: self.level_one_table_offset,
            ref_table_offset_count: self.ref_table_offset_count,
            ref_table_cluster_count: self.ref_table_cluster_count,
            snapshots_count: self.snapshots_count,
            snapshot_offset: self.snapshot_offset,
            incompat_flags: self.incompat_flags@,
            compat_flags: self.compat_flags@,
            auto_clear_flags: self.auto_clear_flags@,
            ref_count_order: self.ref_count_order,
            header_size: self.header_size,
            compression_method: self.compression_method,
        }
    }
}

/// The encryption method selected by the 32-bit field at offset 32.
pub open spec fn encryption_of(v: u32) -> Encryption {
    if v == 0 {
        Encryption::Plain
    } else if v == 1 {
        Encryption::Aes
    } else if v == 2 {
        Encryption::Luks
    } else {
        Encryption::Unknown
    }
}

/// The incompatible-feature flags set in a 64-bit mask, in bit order.
pub open spec fn incompat_flags_of(v: u64) -> Seq<IncompatFlags> {
    (if v & 1 == 1 {
        seq![IncompatFlags::Dirty]
    } else {
        Seq::empty()
    }) + (if v & 2 == 2 {
        seq![IncompatFlags::Corrupt]
    } else {
        Seq::empty()
    }) + (if v & 4 == 4 {
        seq![IncompatFlags::DataFile]
    } else {
        Seq::empty()
    }) + (if v & 8 == 8 {
        seq![IncompatFlags::Compression]
    } else {
        Seq::empty()
    }) + (if v & 16 == 16 {
        seq![IncompatFlags::ExtendedL2]
    } else {
        Seq::empty()
    })
}

/// The compatible-feature flags set in a 64-bit mask.
pub open spec fn compat_flags_of(v: u64) -> Seq<CompatFlags> {
    if v & 1 == 1 {
        seq![CompatFlags::LazyRefCounts]
    } else {
        Seq::empty()
    }
}

/// The auto-clear flags set in a 64-bit mask, in bit order.
pub open spec fn auto_clear_flags_of(v: u64) -> Seq<AutoClear> {
    (if v & 1 == 1 {
        seq![AutoClear::Bitmaps]
    } else {
        Seq::empty()
    }) + (if v & 2 == 2 {
        seq![AutoClear::DataFileRaw]
    } else {
        Seq::empty()
    })
}

/// The compression method of a header whose size field is `header_size`:
/// selected by the trailing byte at offset 104 when the size field is 112,
/// absent otherwise.
pub open spec fn compression_of(header_size: u32, trailing: u8) -> Compression {
    if header_size == 112 {
        if trailing == 0 {
            Compression::Zlib
        } else if trailing == 1 {
            Compression::Zstd
        } else {
            Compression::Unknown
        }
    } else {
        Compression::Uncompressed
    }
}

/// The header encoded at the start of `data`, or `None` when `data` is too
/// short (104 bytes, or 105 when the size field asks for the trailing
/// compression byte) or when the stored table count does not fit once
/// multiplied by its stride.
pub open spec fn header_model(data: Seq<u8>) -> Option<HeaderView> {
    if data.len() < 104 {
        Option::None
    } else if be_u32_at(data, 100) == 112 && data.len() < 105 {
        Option::None
    } else if 8 * (be_u32_at(data, 36) as int) > u32::MAX {
        Option::None
    } else {
        Option::Some(
            HeaderView {
                sig: be_u32_at(data, 0),
                version: be_u32_at(data, 4),
                backing_filename_offset: be_u64_at(data, 8),
                backing_filename_size: be_u32_at(data, 16),
                cluster_block_bits_count: be_u32_at(data, 20),
                size: be_u64_at(data, 24),
                encryption_method: encryption_of(be_u32_at(data, 32)),
                level_one_table_ref: (8 * be_u32_at(data, 36)) as u32,
                level_one_table_offset: be_u64_at(data, 40),
                ref_table_offset_count: be_u64_at(data, 48),
                ref_table_cluster_count: be_u32_at(data, 56),
                snapshots_count: be_u32_at(data, 60),
                snapshot_offset: be_u64_at(data, 64),
                incompat_flags: incompat_flags_of(be_u64_at(data, 72)),
                compat_flags: compat_flags_of(be_u64_at(data, 80)),
                auto_clear_flags: auto_clear_flags_of(be_u64_at(data, 88)),
                ref_count_order: be_u32_at(data, 96),
                header_size: be_u32_at(data, 100),
                compression_method: compression_of(
                    be_u32_at(data, 100),
                    if be_u32_at(data, 100) == 112 {
                        data[104]
                    } else {
                        0u8
                    },
                ),
            },
        )
    }
}

/// Decodes the image header from the start of the backing source.
pub trait CalfHeader: CalfSource {
    /// Read the fixed 112-byte header region and decode it.
    fn header(&mut self) -> (r: Result<Header, CalfError>)
        requires
            old(self).source_inv(),
        ensures
            final(self).source_inv(),
            final(self).source_bytes() == old(self).source_bytes(),
            r matches Ok(h) ==> old(self).source_bytes().len() >= 112 && header_model(
                old(self).source_bytes().subrange(0, 112),
            ) == Some(h@),
            old(self).source_bytes().len() < 112 ==> r is Err,
    ;
}

impl<S: ByteSource> CalfHeader for CalfReader<S> {
    fn header(&mut self) -> (r: Result<Header, CalfError>) {
        let bytes = match read_bytes(0, 112, &mut self.fs) {
            Ok(b) => b,
            Err(e) => {
                return Err(e);
            },
        };
        Header::get_header(bytes.as_slice())
    }
}

impl Header {
    /// Decode the fixed big-endian header fields. Succeeds exactly when the
    /// region is long enough and the table count field fits its stride;
    /// unknown method codes map to `Unknown` variants rather than failing.
    ///
    /// When the size field at offset 100 is 112, the compression method is
    /// selected by the byte at offset 104: 0 is Zlib, 1 is Zstd, anything
    /// else Unknown. For any other size field the compression method is
    /// `None`.
    pub fn get_header(data: &[u8]) -> (r: Result<Header, CalfError>)
        ensures
            r matches Ok(h) ==> header_model(data@) == Some(h@),
            r is Ok <==> header_model(data@) is Some,
            r is Err ==> r == Err::<Header, CalfError>(CalfError::Header),
            r matches Ok(h) ==> (be_u32_at(data@, 100) == 112 ==> h.compression_method == (if data@[104]
                == 0 {
                Compression::Zlib
            } else if data@[104] == 1 {
                Compression::Zstd
            } else {
                Compression::Unknown
            })),
            r matches Ok(h) ==> (be_u32_at(data@, 100) != 112 ==> h.compression_method
                == Compression::Uncompressed),
    {
        if data.len() < 104 {
            return Err(CalfError::Header);
        }
        let header_size = read_be_u32(data, 100);
        if header_size == 112 && data.len() < 105 {
            return Err(CalfError::Header);
        }
        let table_ref_raw = read_be_u32(data, 36);
        if table_ref_raw > u32::MAX / 8 {
            return Err(CalfError::Header);
        }
        let compression_method = if header_size == 112 {
            let trailing = data[104];
            if trailing == 0 {
                Compression::Zlib
            } else if trailing == 1 {
                Compression::Zstd
            } else {
                Compression::Unknown
            }
        } else {
            Compression::Uncompressed
        };
        let encrypt_raw = read_be_u32(data, 32);
        let incompat_raw = read_be_u64(data, 72);
        let compat_raw = read_be_u64(data, 80);
        let auto_clear_raw = read_be_u64(data, 88);
        let head = Header {
            sig: read_be_u32(data, 0),
            version: read_be_u32(data, 4),
            backing_filename_offset: read_be_u64(data, 8),
            backing_filename_size: read_be_u32(data, 16),
            cluster_block_bits_count: read_be_u32(data, 20),
            size: read_be_u64(data, 24),
            encryption_method: Header::get_encrypt(&encrypt_raw),
            level_one_table_ref: table_ref_raw * 8,
            level_one_table_offset: read_be_u64(data, 40),
            ref_table_offset_count: read_be_u64(data, 48),
            ref_table_cluster_count: read_be_u32(data, 56),
            snapshots_count: read_be_u32(data, 60),
            snapshot_offset: read_be_u64(data, 64),
            incompat_flags: Header::get_incompat_flags(&incompat_raw),
            compat_flags: Header::get_compat_flags(&compat_raw),
            auto_clear_flags: Header::get_auto_clear_flags(&auto_clear_raw),
            ref_count_order: read_be_u32(data, 96),
            header_size,
            compression_method,
        };
        Ok(head)
    }

    /// An owned copy of this header with the same decoded content.
    pub fn duplicate(&self) -> (r: Header)
        ensures
            r@ == self@,
    {
        Header {
            sig: self.sig,
            version: self.version,
            backing_filename_offset: self.backing_filename_offset,
            backing_filename_size: self.backing_filename_size,
            cluster_block_bits_count: self.cluster_block_bits_count,
            size: self.size,
            encryption_method: self.encryption_method,
            level_one_table_ref: self.level_one_table_ref,
            level_one_table_offset: self.level_one_table_offset,
            ref_table_offset_count: self.ref_table_offset_count,
            ref_table_cluster_count: self.ref_table_cluster_count,
            snapshots_count: self.snapshots_count,
            snapshot_offset: self.snapshot_offset,
            incompat_flags: crate::utils::vecs::copy_vec(&self.incompat_flags),
            compat_flags: crate::utils::vecs::copy_vec(&self.compat_flags),
            auto_clear_flags: crate::utils::vecs::copy_vec(&self.auto_clear_flags),
            ref_count_order: self.ref_count_order,
            header_size: self.header_size,
            compression_method: self.compression_method,
        }
    }

    /// The encryption method selected by the method field: 0 none, 1 AES,
    /// 2 LUKS, anything else unknown.
    pub fn get_encrypt(input: &u32) -> (r: Encryption)
        ensures
            r == encryption_of(*input),
    {
        if *input == 0 {
            Encryption::Plain
        } else if *input == 1 {
            Encryption::Aes
        } else if *input == 2 {
            Encryption::Luks
        } else {
            Encryption::Unknown
        }
    }

    /// The incompatible-feature flags set in the mask, in bit order.
    pub fn get_incompat_flags(input: &u64) -> (flags: Vec<IncompatFlags>)
        ensures
            flags@ == incompat_flags_of(*input),
    {
        let mut flags: Vec<IncompatFlags> = Vec::new();
        if *input & 1 == 1 {
            flags.push(IncompatFlags::Dirty);
        }
        if *input & 2 == 2 {
            flags.push(IncompatFlags::Corrupt);
        }
        if *input & 4 == 4 {
            flags.push(IncompatFlags::DataFile);
        }
        if *input & 8 == 8 {
            flags.push(IncompatFlags::Compression);
        }
        if *input & 16 == 16 {
            flags.push(IncompatFlags::ExtendedL2);
        }
        assert(flags@ =~= incompat_flags_of(*input));
        flags
    }

    /// The compatible-feature flags set in the mask.
    pub fn get_compat_flags(input: &u64) -> (flags: Vec<CompatFlags>)
        ensures
            flags@ == compat_flags_of(*input),
    {
        let mut flags: Vec<CompatFlags> = Vec::new();
        if *input & 1 == 1 {
            flags.push(CompatFlags::LazyRefCounts);
        }
        assert(flags@ =~= compat_flags_of(*input));
        flags
    }

    /// The auto-clear flags set in the mask, in bit order.
    pub fn get_auto_clear_flags(input: &u64) -> (flags: Vec<AutoClear>)
        ensures
            flags@ == auto_clear_flags_of(*input),
    {
        let mut flags: Vec<AutoClear> = Vec::new();
        if *input & 1 == 1 {
            flags.push(AutoClear::Bitmaps);
        }
        if *input & 2 == 2 {
            flags.push(AutoClear::DataFileRaw);
        }
        assert(flags@ =~= auto_clear_flags_of(*input));
        flags
    }
}

} // verus!
