use crate::error::CalfError;
use vstd::prelude::*;

verus! {

/// A random-access byte source: the backing file of a disk image, an
/// in-memory buffer, or the translated guest address space itself.
///
/// `bytes()` is the content of the source as one mathematical byte
/// sequence. Reading never changes that content; when a read of a
/// non-empty range succeeds it returns exactly the requested range of
/// `bytes()`, never a short or truncated result. `inv()` is the source's
/// internal consistency; every constructor of an implementation
/// establishes it and `read_at` preserves it.
pub trait ByteSource {
    /// Internal consistency of the source.
    spec fn inv(&self) -> bool;

    /// The content of the source.
    spec fn bytes(&self) -> Seq<u8>;

    /// Read exactly `len` bytes starting at absolute offset `offset`,
    /// or report an error when the range cannot be served in full.
    fn read_at(&mut self, offset: u64, len: usize) -> (r: Result<Vec<u8>, CalfError>)
        requires
            old(self).inv(),
        ensures
            final(self).inv(),
            final(self).bytes() == old(self).bytes(),
            r matches Ok(v) ==> v@.len() == len,
            r matches Ok(v) ==> len > 0 ==> offset as int + len as int <= final(self).bytes().len()
                && v@ == final(self).bytes().subrange(offset as int, offset as int + len as int),
    ;
}

/// A byte source backed by an in-memory buffer. Reads succeed exactly when
/// the requested range lies inside the buffer.
pub struct MemSource {
    pub data: Vec<u8>,
}

impl ByteSource for MemSource {
    open spec fn inv(&self) -> bool {
        true
    }

    open spec fn bytes(&self) -> Seq<u8> {
        self.data@
    }

    fn read_at(&mut self, offset: u64, len: usize) -> (r: Result<Vec<u8>, CalfError>)
        ensures
            r is Ok <==> offset as int + len as int <= old(self).bytes().len(),
            r is Err ==> r == Err::<Vec<u8>, CalfError>(CalfError::ReadFile),
    {
        let data_len = self.data.len();
        if offset > data_len as u64 {
            return Err(CalfError::ReadFile);
        }
        let start = offset as usize;
        if len > data_len - start {
            return Err(CalfError::ReadFile);
        }
        let mut out: Vec<u8> = Vec::new();
        let mut i: usize = 0;
        while i < len
            invariant
                i <= len,
                start + len <= self.data.len(),
                out@ == self.data@.subrange(start as int, start as int + i as int),
            decreases len - i,
        {
            out.push(self.data[start + i]);
            i = i + 1;
        }
        assert(out@ =~= self.data@.subrange(start as int, start as int + len as int));
        Ok(out)
    }
}

} // verus!
