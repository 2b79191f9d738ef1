use crate::error::CalfError;
use crate::source::ByteSource;
use vstd::prelude::*;

verus! {

/// Read `bytes` bytes of the source starting at `offset`. This reads image
/// metadata (header, tables) directly from the backing source; it is *not*
/// used to read guest bytes, which go through the address translator.
pub fn read_bytes<S: ByteSource>(offset: u64, bytes: u64, fs: &mut S) -> (r: Result<
    Vec<u8>,
    CalfError,
>)
    requires
        old(fs).inv(),
    ensures
        final(fs).inv(),
        final(fs).bytes() == old(fs).bytes(),
        r matches Ok(v) ==> v@.len() == bytes,
        r matches Ok(v) ==> bytes > 0 ==> offset as int + bytes as int <= final(fs).bytes().len()
            && v@ == final(fs).bytes().subrange(offset as int, offset as int + bytes as int),
{
    if bytes > usize::MAX as u64 {
        return Err(CalfError::ReadFile);
    }
    fs.read_at(offset, bytes as usize)
}

} // verus!
