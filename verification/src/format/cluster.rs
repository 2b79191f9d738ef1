use crate::error::CalfError;
use crate::format::header::Compression;
use crate::source::ByteSource;
use crate::utils::read::read_bytes;
use vstd::prelude::*;

verus! {

/// Read the raw bytes of one cluster at a physical offset of the backing
/// source. A cluster whose entry carries the compressed bit is rejected
/// with `UnsupportedCompression`: compressed clusters are never decoded.
/// The stored compression method only describes how such clusters would be
/// encoded; it plays no part in a raw read.
pub fn read_cluster<S: ByteSource>(
    reader: &mut S,
    offset: u64,
    cluster_size: u64,
    compression: &Compression,
    is_compressed: &bool,
) -> (r: Result<Vec<u8>, CalfError>)
    requires
        old(reader).inv(),
    ensures
        final(reader).inv(),
        final(reader).bytes() == old(reader).bytes(),
        *is_compressed ==> r == Err::<Vec<u8>, CalfError>(CalfError::UnsupportedCompression),
        r matches Ok(v) ==> !*is_compressed && v@.len() == cluster_size,
        r matches Ok(v) ==> cluster_size > 0 ==> offset as int + cluster_size as int
            <= final(reader).bytes().len() && v@ == final(reader).bytes().subrange(
            offset as int,
            offset as int + cluster_size as int,
        ),
{
    let _ = compression;
    if *is_compressed {
        return Err(CalfError::UnsupportedCompression);
    }
    read_bytes(offset, cluster_size, reader)
}

} // verus!
