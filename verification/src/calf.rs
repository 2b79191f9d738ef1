use crate::bootsector::boot::{boot_info_model, BootInfo, MAX_EXTENDED_RECORDS};
use crate::error::CalfError;
use crate::format::header::{header_model, CalfHeader, Compression, Encryption, Header};
use crate::format::level::{levels_of_bytes, CalfLevel, Level};
use crate::reader::{guest_space, OsReader};
use crate::source::ByteSource;
use vstd::prelude::*;

verus! {

/// Exposes the content of the backing byte source that a reader works on.
/// The contracts of every reader capability speak about this sequence.
pub trait CalfSource {
    /// Internal consistency of the backing byte source.
    spec fn source_inv(&self) -> bool;

    /// The full content of the image's backing byte source.
    spec fn source_bytes(&self) -> Seq<u8>;
}

/// A reader over the raw bytes of one disk image.
pub struct CalfReader<S: ByteSource> {
    pub fs: S,
}

impl<S: ByteSource> CalfSource for CalfReader<S> {
    open spec fn source_inv(&self) -> bool {
        self.fs.inv()
    }

    open spec fn source_bytes(&self) -> Seq<u8> {
        self.fs.bytes()
    }
}

/// The immutable session of one opened image: its decoded header and the
/// level-one indirection table. Created once, never mutated; any number of
/// guest stream readers may be opened from it.
pub struct QcowInfo {
    pub header: Header,
    pub level1_table: Vec<Level>,
}

/// The mathematical content of a session.
pub struct QcowInfoView {
    pub header: crate::format::header::HeaderView,
    pub level1_table: Seq<Level>,
}

impl View for QcowInfo {
    type V = QcowInfoView;

    open spec fn view(&self) -> QcowInfoView {
        QcowInfoView { header: self.header@, level1_table: self.level1_table@ }
    }
}

impl QcowInfoView {
    /// Cluster size in bytes: a power of two given by the header.
    pub open spec fn cluster_size(self) -> u64 {
        1u64 << self.header.cluster_block_bits_count
    }

    /// Number of 8-byte entries in one level-two table: a full cluster of
    /// them.
    pub open spec fn level2_entries(self) -> u64 {
        self.cluster_size() / 8
    }

    /// A session this library can translate through: the cluster size is at
    /// least one table entry wide and addressable on this machine.
    pub open spec fn wf(self) -> bool {
        &&& 3 <= self.header.cluster_block_bits_count <= 62
        &&& self.cluster_size() <= usize::MAX as u64
    }
}

impl QcowInfo {
    /// An owned copy of this session with the same decoded content.
    pub fn duplicate(&self) -> (r: QcowInfo)
        ensures
            r@ == self@,
    {
        QcowInfo {
            header: self.header.duplicate(),
            level1_table: crate::utils::vecs::copy_vec(&self.level1_table),
        }
    }
}

/// The high-level capabilities of an image reader: header fields, the
/// level-one table, and guest streams. Every accessor decodes the header
/// afresh from the backing source; a result is therefore always a field of
/// `header_model` of the source's first 112 bytes.
pub trait CalfReaderAction<S: ByteSource>: CalfHeader + CalfLevel + Sized {
    /// Return the image version.
    fn version(&mut self) -> (r: Result<u32, CalfError>)
        requires
            old(self).source_inv(),
        ensures
            final(self).source_inv(),
            final(self).source_bytes() == old(self).source_bytes(),
            r matches Ok(v) ==> header_model(old(self).source_bytes().subrange(0, 112))
                matches Some(h) && v == h.version,
    ;

    /// Return the guest size in bytes.
    fn size(&mut self) -> (r: Result<u64, CalfError>)
        requires
            old(self).source_inv(),
        ensures
            final(self).source_inv(),
            final(self).source_bytes() == old(self).source_bytes(),
            r matches Ok(v) ==> header_model(old(self).source_bytes().subrange(0, 112))
                matches Some(h) && v == h.size,
    ;

    /// Return the encryption method of the image.
    fn encryption(&mut self) -> (r: Result<Encryption, CalfError>)
        requires
            old(self).source_inv(),
        ensures
            final(self).source_inv(),
            final(self).source_bytes() == old(self).source_bytes(),
            r matches Ok(v) ==> header_model(old(self).source_bytes().subrange(0, 112))
                matches Some(h) && v == h.encryption_method,
    ;

    /// Return the cluster size in bytes. Fails with `Header` when the
    /// stored cluster-bits count cannot be shifted into a 64-bit size.
    fn cluster_size(&mut self) -> (r: Result<u64, CalfError>)
        requires
            old(self).source_inv(),
        ensures
            final(self).source_inv(),
            final(self).source_bytes() == old(self).source_bytes(),
            r matches Ok(v) ==> header_model(old(self).source_bytes().subrange(0, 112))
                matches Some(h) && h.cluster_block_bits_count < 64 && v == (1u64
                << h.cluster_block_bits_count),
    ;

    /// Return the compression method of the image.
    fn compression(&mut self) -> (r: Result<Compression, CalfError>)
        requires
            old(self).source_inv(),
        ensures
            final(self).source_inv(),
            final(self).source_bytes() == old(self).source_bytes(),
            r matches Ok(v) ==> header_model(old(self).source_bytes().subrange(0, 112))
                matches Some(h) && v == h.compression_method,
    ;

    /// Return the number of snapshots recorded in the image.
    fn snapshots_count(&mut self) -> (r: Result<u32, CalfError>)
        requires
            old(self).source_inv(),
        ensures
            final(self).source_inv(),
            final(self).source_bytes() == old(self).source_bytes(),
            r matches Ok(v) ==> header_model(old(self).source_bytes().subrange(0, 112))
                matches Some(h) && v == h.snapshots_count,
    ;

    /// Return the cluster-bits count of the image.
    fn cluster_bits(&mut self) -> (r: Result<u32, CalfError>)
        requires
            old(self).source_inv(),
        ensures
            final(self).source_inv(),
            final(self).source_bytes() == old(self).source_bytes(),
            r matches Ok(v) ==> header_model(old(self).source_bytes().subrange(0, 112))
                matches Some(h) && v == h.cluster_block_bits_count,
    ;

    /// Return the level-one table entries of the image: the table region
    /// the header points at, eight bytes of region per stored count unit.
    /// Fails with `Level` when that byte length does not fit its field.
    fn level1_entries(&mut self) -> (r: Result<Vec<Level>, CalfError>)
        requires
            old(self).source_inv(),
        ensures
            final(self).source_inv(),
            final(self).source_bytes() == old(self).source_bytes(),
            r matches Ok(v) ==> ({
                let src = old(self).source_bytes();
                header_model(src.subrange(0, 112)) matches Some(h) && 8 * h.level_one_table_ref
                    <= u32::MAX && (h.level_one_table_ref > 0 ==> h.level_one_table_offset + 8
                    * h.level_one_table_ref <= src.len() && v@ == levels_of_bytes(
                    src.subrange(
                        h.level_one_table_offset as int,
                        h.level_one_table_offset + 8 * h.level_one_table_ref,
                    ),
                )) && (h.level_one_table_ref == 0 ==> v@ == Seq::<Level>::empty())
            }),
    ;

    /// Open a guest stream over the given session, taking ownership of
    /// this reader's handle on the backing source.
    fn os_reader(self, info: &QcowInfo) -> (r: Result<OsReader<S>, CalfError>)
        requires
            self.source_inv(),
        ensures
            r is Ok <==> info@.wf() && info.level1_table@.len() > 0,
            r matches Ok(os) ==> os.wf() && os.session() == info@ && os.source()
                == self.source_bytes() && os.pos() == 0,
    ;

    /// Determine the guest's boot information through the given stream.
    fn get_boot_info(&mut self, reader: &mut OsReader<S>) -> (r: Result<BootInfo, CalfError>)
        requires
            old(self).source_inv(),
            old(reader).wf(),
        ensures
            final(self).source_inv(),
            final(self).source_bytes() == old(self).source_bytes(),
            final(reader).wf(),
            r matches Ok(b) ==> boot_info_model(
                guest_space(old(reader).session(), old(reader).source()),
                MAX_EXTENDED_RECORDS as nat,
            ) == Some((b.boot_type, b.partitions@)),
    ;
}

impl<S: ByteSource> CalfReaderAction<S> for CalfReader<S> {
    fn version(&mut self) -> (r: Result<u32, CalfError>) {
        match self.header() {
            Ok(h) => Ok(h.version),
            Err(e) => Err(e),
        }
    }

    fn size(&mut self) -> (r: Result<u64, CalfError>) {
        match self.header() {
            Ok(h) => Ok(h.size),
            Err(e) => Err(e),
        }
    }

    fn encryption(&mut self) -> (r: Result<Encryption, CalfError>) {
        match self.header() {
            Ok(h) => Ok(h.encryption_method),
            Err(e) => Err(e),
        }
    }

    fn cluster_size(&mut self) -> (r: Result<u64, CalfError>) {
        let h = match self.header() {
            Ok(h) => h,
            Err(e) => {
                return Err(e);
            },
        };
        if h.cluster_block_bits_count >= 64 {
            return Err(CalfError::Header);
        }
        Ok(1u64 << h.cluster_block_bits_count)
    }

    fn compression(&mut self) -> (r: Result<Compression, CalfError>) {
        match self.header() {
            Ok(h) => Ok(h.compression_method),
            Err(e) => Err(e),
        }
    }

    fn snapshots_count(&mut self) -> (r: Result<u32, CalfError>) {
        match self.header() {
            Ok(h) => Ok(h.snapshots_count),
            Err(e) => Err(e),
        }
    }

    fn cluster_bits(&mut self) -> (r: Result<u32, CalfError>) {
        match self.header() {
            Ok(h) => Ok(h.cluster_block_bits_count),
            Err(e) => Err(e),
        }
    }

    fn level1_entries(&mut self) -> (r: Result<Vec<Level>, CalfError>) {
        let header = match self.header() {
            Ok(h) => h,
            Err(e) => {
                return Err(e);
            },
        };
        if header.level_one_table_ref > u32::MAX / 8 {
            return Err(CalfError::Level);
        }
        self.levels(&header.level_one_table_offset, &(header.level_one_table_ref * 8))
    }

    fn os_reader(self, info: &QcowInfo) -> (r: Result<OsReader<S>, CalfError>) {
        info.new(self.fs)
    }

    fn get_boot_info(&mut self, reader: &mut OsReader<S>) -> (r: Result<BootInfo, CalfError>) {
        reader.get_boot_info()
    }
}

} // verus!
