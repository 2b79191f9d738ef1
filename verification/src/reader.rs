use crate::calf::{QcowInfo, QcowInfoView};
use crate::error::CalfError;
use crate::format::cluster::read_cluster;
use crate::format::level::{levels_of_bytes, read_level, Level};
use crate::source::ByteSource;
use crate::utils::vecs::zero_vec;
use vstd::arithmetic::div_mod::{lemma_fundamental_div_mod, lemma_fundamental_div_mod_converse};
use vstd::prelude::*;

verus! {

/// A seek target: an absolute position, a position relative to the guest
/// size, or a position relative to the current cursor.
#[derive(Debug, Clone, Copy)]
pub enum SeekFrom {
    Start(u64),
    End(i64),
    Current(i64),
}

/// Sizes of a well-formed session are consistent: the cluster holds at
/// least one table entry, and the level-two entry count divides it evenly.
pub proof fn lemma_wf_sizes(q: QcowInfoView)
    requires
        q.wf(),
    ensures
        q.cluster_size() >= 8,
        q.level2_entries() >= 1,
        q.cluster_size() == 8 * q.level2_entries(),
{
    let b = q.header.cluster_block_bits_count;
    assert(3 <= b <= 62 ==> (1u64 << b) >= 8 && (1u64 << b) % 8 == 0) by (bit_vector);
    lemma_fundamental_div_mod(q.cluster_size() as int, 8);
}

/// The level-two table that level-one entry `top` points at: one cluster of
/// 8-byte words at that entry's physical offset.
pub open spec fn level2_table_at(q: QcowInfoView, src: Seq<u8>, top: int) -> Seq<Level> {
    let c = q.cluster_size() as int;
    let toff = q.level1_table[top].offset as int;
    levels_of_bytes(src.subrange(toff, toff + c))
}

/// The level-two entry that governs guest cluster `ci`.
pub open spec fn level2_entry_at(q: QcowInfoView, src: Seq<u8>, ci: int) -> Level {
    let e = q.level2_entries() as int;
    level2_table_at(q, src, ci / e)[ci % e]
}

/// Guest cluster `ci` can be resolved: its level-one index is in range,
/// and, when the level-one entry is allocated, its level-two table and the
/// data cluster lie inside the source and the cluster is not compressed.
pub open spec fn cluster_resolvable(q: QcowInfoView, src: Seq<u8>, ci: int) -> bool {
    let c = q.cluster_size() as int;
    let e = q.level2_entries() as int;
    &&& 0 <= ci
    &&& ci / e < q.level1_table.len()
    &&& (q.level1_table[ci / e].offset != 0 ==> {
        let entry = level2_entry_at(q, src, ci);
        &&& q.level1_table[ci / e].offset + c <= src.len()
        &&& !entry.is_compressed
        &&& entry.offset + c <= src.len()
    })
}

/// The bytes of guest cluster `ci`: zero-filled when its level-one entry is
/// unallocated, otherwise the physical cluster its level-two entry points
/// at.
pub open spec fn cluster_bytes_at(q: QcowInfoView, src: Seq<u8>, ci: int) -> Seq<u8> {
    let c = q.cluster_size() as int;
    let e = q.level2_entries() as int;
    if q.level1_table[ci / e].offset == 0 {
        Seq::new(q.cluster_size() as nat, |i: int| 0u8)
    } else {
        let doff = level2_entry_at(q, src, ci).offset as int;
        src.subrange(doff, doff + c)
    }
}

/// Position `p` lies in an unallocated bucket of the session: its
/// level-one index is in range and that entry's offset is zero. Reading
/// such a position never touches the backing source and is owed success:
/// it yields zero-filled bytes.
pub open spec fn position_unallocated(q: QcowInfoView, p: int) -> bool {
    let c = q.cluster_size() as int;
    let e = q.level2_entries() as int;
    &&& 0 <= p
    &&& p / c / e < q.level1_table.len()
    &&& q.level1_table[p / c / e].offset == 0
}

/// Every position of `[p, p + n)` lies in an unallocated bucket.
pub open spec fn range_unallocated(q: QcowInfoView, p: int, n: int) -> bool {
    forall|i: int| 0 <= i < n ==> #[trigger] position_unallocated(q, p + i)
}

/// The guest byte at position `p`.
pub open spec fn guest_byte(q: QcowInfoView, src: Seq<u8>, p: int) -> u8 {
    let c = q.cluster_size() as int;
    cluster_bytes_at(q, src, p / c)[p % c]
}

/// The `n` guest bytes from position `p`.
pub open spec fn guest_range(q: QcowInfoView, src: Seq<u8>, p: int, n: int) -> Seq<u8> {
    Seq::new(n as nat, |i: int| guest_byte(q, src, p + i))
}

/// The whole addressable guest space: every position below the capacity of
/// the level-one table.
pub open spec fn guest_space(q: QcowInfoView, src: Seq<u8>) -> Seq<u8> {
    guest_range(
        q,
        src,
        0,
        q.level1_table.len() * q.level2_entries() as int * q.cluster_size() as int,
    )
}

/// Law: reads are deterministic. The bytes that a successful read returns
/// are `guest_range` of the session, the backing bytes, the position and
/// the length alone (that is what `OsReader::read` and
/// `OsReader::read_exact` ensure), so two streams over the same session
/// and backing bytes that read the same range receive identical bytes.
pub proof fn lemma_read_deterministic(
    q: QcowInfoView,
    src: Seq<u8>,
    p: int,
    n: int,
    v1: Seq<u8>,
    v2: Seq<u8>,
)
    requires
        v1 == guest_range(q, src, p, n),
        v2 == guest_range(q, src, p, n),
    ensures
        v1 == v2,
{
}

/// Law: seek/read consistency. Reading `n` bytes after seeking to `p`
/// yields the same bytes as reading `p + n` bytes from position 0 and
/// discarding the first `p`.
pub proof fn lemma_seek_read_consistency(q: QcowInfoView, src: Seq<u8>, p: int, n: int)
    requires
        0 <= p,
        0 <= n,
    ensures
        guest_range(q, src, p, n) == guest_range(q, src, 0, p + n).skip(p),
{
    assert(guest_range(q, src, p, n) =~= guest_range(q, src, 0, p + n).skip(p));
}

/// A seekable, readable byte stream over the guest address space of one
/// image: every access resolves through the two-level indirection tables,
/// with one cached level-two table and one cached cluster.
pub struct OsReader<S: ByteSource> {
    qcow: QcowInfo,
    reader: S,
    position: u64,
    cluster_bits: u32,
    cluster_size: u64,
    os_size: u64,
    level1_key: Option<u64>,
    level2_table_cache: Vec<Level>,
    level2_key: Option<u64>,
    cluster_bytes: Vec<u8>,
}

impl<S: ByteSource> OsReader<S> {
    /// The session this stream translates through.
    pub closed spec fn session(&self) -> QcowInfoView {
        self.qcow@
    }

    /// The content of the backing byte source.
    pub closed spec fn source(&self) -> Seq<u8> {
        self.reader.bytes()
    }

    /// The current guest byte position of the cursor.
    pub closed spec fn pos(&self) -> u64 {
        self.position
    }

    /// Internal consistency: the cached sizes agree with the session, the
    /// backing source is consistent, and each cache layer, when keyed,
    /// holds exactly what the model derives from the session and the
    /// source at its key. Constructors establish this and every method
    /// preserves it.
    pub closed spec fn wf(&self) -> bool {
        &&& self.reader.inv()
        &&& self.qcow@.wf()
        &&& self.cluster_bits == self.qcow@.header.cluster_block_bits_count
        &&& self.cluster_size == self.qcow@.cluster_size()
        &&& self.os_size == self.qcow@.header.size
        &&& (match self.level1_key {
            Some(t) => (t as int) < self.qcow@.level1_table.len() && (self.qcow@.level1_table[
                t as int
            ].offset != 0 ==> self.qcow@.level1_table[t as int].offset
                + self.qcow@.cluster_size() <= self.reader.bytes().len()
                && self.level2_table_cache@ == level2_table_at(
                self.qcow@,
                self.reader.bytes(),
                t as int,
            )),
            None => true,
        })
        &&& (match self.level2_key {
            Some(ci) => cluster_resolvable(self.qcow@, self.reader.bytes(), ci as int)
                && self.cluster_bytes@ == cluster_bytes_at(
                self.qcow@,
                self.reader.bytes(),
                ci as int,
            ),
            None => true,
        })
    }
}

impl QcowInfo {
    /// Open a guest stream over this session, taking ownership of a handle
    /// on the backing byte source. Fails with `Header` when the header's
    /// cluster size lies outside the supported range and with `Level` when
    /// the level-one table is empty; no other input is rejected.
    pub fn new<S: ByteSource>(&self, reader: S) -> (r: Result<OsReader<S>, CalfError>)
        requires
            reader.inv(),
        ensures
            r is Ok <==> self@.wf() && self.level1_table@.len() > 0,
            !self@.wf() ==> r == Err::<OsReader<S>, CalfError>(CalfError::Header),
            self@.wf() && self.level1_table@.len() == 0 ==> r == Err::<
                OsReader<S>,
                CalfError,
            >(CalfError::Level),
            r matches Ok(os) ==> os.wf() && os.session() == self@ && os.source() == reader.bytes()
                && os.pos() == 0,
    {
        let bits = self.header.cluster_block_bits_count;
        if bits < 3 || bits > 62 {
            return Err(CalfError::Header);
        }
        let cluster_size = 1u64 << bits;
        if cluster_size > usize::MAX as u64 {
            return Err(CalfError::Header);
        }
        if self.level1_table.len() == 0 {
            return Err(CalfError::Level);
        }
        Ok(
            OsReader {
                qcow: self.duplicate(),
                reader,
                position: 0,
                cluster_bits: bits,
                cluster_size,
                os_size: self.header.size,
                level1_key: None,
                level2_table_cache: Vec::new(),
                level2_key: None,
                cluster_bytes: Vec::new(),
            },
        )
    }
}

impl<S: ByteSource> OsReader<S> {
    /// Reload the cached level-two table when the cursor has crossed into
    /// another level-one bucket. Fails with `Level` when the level-one
    /// index of the current position is out of range, and passes the
    /// source's own errors through when the table cannot be read.
    fn refresh_level1_cache(&mut self) -> (r: Result<(), CalfError>)
        requires
            old(self).wf(),
        ensures
            final(self).wf(),
            final(self).session() == old(self).session(),
            final(self).source() == old(self).source(),
            final(self).pos() == old(self).pos(),
            final(self).level2_key == old(self).level2_key,
            final(self).cluster_bytes == old(self).cluster_bytes,
            r is Ok ==> final(self).level1_key == Some(
                (old(self).pos() / old(self).session().cluster_size()) / old(
                    self,
                ).session().level2_entries(),
            ),
            (old(self).pos() as int / old(self).session().cluster_size() as int) / old(
                self,
            ).session().level2_entries() as int >= old(self).session().level1_table.len() ==> r
                == Err::<(), CalfError>(CalfError::Level),
            position_unallocated(old(self).session(), old(self).pos() as int) ==> r is Ok,
    {
        proof {
            lemma_wf_sizes(self.qcow@);
        }
        let size: u64 = 8;
        let level2_entries = self.cluster_size / size;
        let level1_key = (self.position / self.cluster_size) / level2_entries;
        match self.level1_key {
            Some(k) if k == level1_key => {
                return Ok(());
            },
            _ => {},
        }
        if level1_key >= self.qcow.level1_table.len() as u64 {
            return Err(CalfError::Level);
        }
        let entry = self.qcow.level1_table[level1_key as usize];
        if entry.offset != 0 {
            let table = match read_level(&mut self.reader, &self.cluster_bits, &entry.offset) {
                Ok(t) => t,
                Err(e) => {
                    return Err(e);
                },
            };
            self.level1_key = None;
            self.level2_table_cache = table;
            self.level1_key = Some(level1_key);
        } else {
            self.level1_key = None;
            self.level2_table_cache = Vec::new();
            self.level1_key = Some(level1_key);
        }
        Ok(())
    }

    /// Refresh the cached cluster bytes for the current position: reload
    /// the level-two table if needed, then fetch the cluster the resolved
    /// entry points at. A position whose level-one entry is unallocated
    /// resolves to a zero-filled cluster and always succeeds; a cluster
    /// stored compressed is rejected with `UnsupportedCompression`.
    fn refresh_level2_cache(&mut self) -> (r: Result<(), CalfError>)
        requires
            old(self).wf(),
        ensures
            final(self).wf(),
            final(self).session() == old(self).session(),
            final(self).source() == old(self).source(),
            final(self).pos() == old(self).pos(),
            r is Ok ==> final(self).level2_key == Some(
                old(self).pos() / old(self).session().cluster_size(),
            ) && cluster_resolvable(
                old(self).session(),
                old(self).source(),
                old(self).pos() as int / old(self).session().cluster_size() as int,
            ),
            (old(self).pos() as int / old(self).session().cluster_size() as int) / old(
                self,
            ).session().level2_entries() as int >= old(self).session().level1_table.len() ==> r
                == Err::<(), CalfError>(CalfError::Level),
            position_unallocated(old(self).session(), old(self).pos() as int) ==> r is Ok,
    {
        proof {
            lemma_wf_sizes(self.qcow@);
        }
        let size: u64 = 8;
        let level2_entries = self.cluster_size / size;
        let level2_key = self.position / self.cluster_size;
        let level2_index = level2_key % level2_entries;
        match self.level2_key {
            Some(k) if k == level2_key => {
                return Ok(());
            },
            _ => {},
        }
        match self.refresh_level1_cache() {
            Ok(()) => {},
            Err(e) => {
                return Err(e);
            },
        }
        let top = level2_key / level2_entries;
        let table_len = self.qcow.level1_table.len();
        proof {
            assert(self.level1_key == Some(top));
            assert((top as int) < table_len as int);
        }
        let entry = self.qcow.level1_table[top as usize];
        let ghost ci = level2_key as int;
        let ghost e = self.qcow@.level2_entries() as int;
        if entry.offset == 0 {
            // The whole level-one bucket is unallocated: the cluster reads
            // as zero-filled bytes.
            self.level2_key = None;
            self.cluster_bytes = zero_vec(self.cluster_size as usize);
            self.level2_key = Some(level2_key);
            proof {
                let q = self.qcow@;
                let src = self.reader.bytes();
                assert(ci / e == top as int);
                assert(cluster_resolvable(q, src, ci));
                assert(self.cluster_bytes@ =~= cluster_bytes_at(q, src, ci));
            }
            return Ok(());
        }
        proof {
            let q = self.qcow@;
            let src = self.reader.bytes();
            let c = q.cluster_size() as int;
            // The cached table is exactly the model's table for `top`, so
            // it has one entry per word of the cluster.
            assert(ci / e == top as int);
            assert(self.level2_table_cache@ == level2_table_at(q, src, top as int));
            assert(q.level1_table[top as int].offset as int + c <= src.len());
            assert(src.subrange(
                q.level1_table[top as int].offset as int,
                q.level1_table[top as int].offset as int + c,
            ).len() == c);
            lemma_fundamental_div_mod_converse(c, 8, e, 0);
            assert(self.level2_table_cache@.len() == e);
            assert(level2_index as int == ci % e);
        }
        let value = self.level2_table_cache[level2_index as usize];
        proof {
            assert(value == level2_entry_at(self.qcow@, self.reader.bytes(), ci));
        }
        let bytes = match read_cluster(
            &mut self.reader,
            value.offset,
            self.cluster_size,
            &self.qcow.header.compression_method,
            &value.is_compressed,
        ) {
            Ok(b) => b,
            Err(e2) => {
                return Err(e2);
            },
        };
        self.level2_key = None;
        self.cluster_bytes = bytes;
        self.level2_key = Some(level2_key);
        proof {
            let q = self.qcow@;
            let src = self.reader.bytes();
            assert(cluster_resolvable(q, src, ci));
            assert(self.cluster_bytes@ == cluster_bytes_at(q, src, ci));
        }
        Ok(())
    }

    /// Set the cursor. Absolute seeks always succeed; end-relative and
    /// current-relative seeks fail with `InvalidOffset` when the computed
    /// position leaves the 64-bit range, leaving the cursor unchanged.
    /// Seeking never touches the caches or the source; the next read
    /// resolves lazily.
    pub fn seek(&mut self, position: SeekFrom) -> (r: Result<u64, CalfError>)
        requires
            old(self).wf(),
        ensures
            final(self).wf(),
            final(self).session() == old(self).session(),
            final(self).source() == old(self).source(),
            match position {
                SeekFrom::Start(s) => r == Ok::<u64, CalfError>(s) && final(self).pos() == s,
                SeekFrom::End(e) => {
                    let t = old(self).session().header.size + e;
                    if 0 <= t <= u64::MAX {
                        r == Ok::<u64, CalfError>(t as u64) && final(self).pos() == t
                    } else {
                        r == Err::<u64, CalfError>(CalfError::InvalidOffset) && final(self).pos()
                            == old(self).pos()
                    }
                },
                SeekFrom::Current(c) => {
                    let t = old(self).pos() + c;
                    if 0 <= t <= u64::MAX {
                        r == Ok::<u64, CalfError>(t as u64) && final(self).pos() == t
                    } else {
                        r == Err::<u64, CalfError>(CalfError::InvalidOffset) && final(self).pos()
                            == old(self).pos()
                    }
                },
            },
    {
        match position {
            SeekFrom::Start(start_position) => {
                self.position = start_position;
            },
            SeekFrom::End(end_position) => {
                self.position = match Self::offset_by(self.os_size, end_position) {
                    Some(p) => p,
                    None => {
                        return Err(CalfError::InvalidOffset);
                    },
                };
            },
            SeekFrom::Current(relative_position) => {
                self.position = match Self::offset_by(self.position, relative_position) {
                    Some(p) => p,
                    None => {
                        return Err(CalfError::InvalidOffset);
                    },
                };
            },
        }
        Ok(self.position)
    }

    /// `base + delta` as a 64-bit position, or `None` when the sum is
    /// negative or overflows.
    fn offset_by(base: u64, delta: i64) -> (r: Option<u64>)
        ensures
            if 0 <= base + delta <= u64::MAX {
                r == Some((base + delta) as u64)
            } else {
                r is None
            },
    {
        if delta >= 0 {
            let d = delta as u64;
            if base > u64::MAX - d {
                None
            } else {
                Some(base + d)
            }
        } else {
            let mag: u64 = if delta == i64::MIN {
                9223372036854775808u64
            } else {
                (-delta) as u64
            };
            if base < mag {
                None
            } else {
                Some(base - mag)
            }
        }
    }

    /// Read up to `len` bytes at the cursor: at most the remainder of the
    /// cluster the cursor falls in (the standard short-read contract). On
    /// success the returned bytes are exactly the guest bytes at the old
    /// position and the cursor advances by their count. A read inside an
    /// unallocated bucket touches no backing source and always succeeds,
    /// yielding zero-filled bytes.
    pub fn read(&mut self, len: usize) -> (r: Result<Vec<u8>, CalfError>)
        requires
            old(self).wf(),
        ensures
            final(self).wf(),
            final(self).session() == old(self).session(),
            final(self).source() == old(self).source(),
            r is Err ==> final(self).pos() == old(self).pos(),
            r matches Ok(v) ==> ({
                let q = old(self).session();
                let src = old(self).source();
                let c = q.cluster_size() as int;
                let p = old(self).pos() as int;
                let avail = c - p % c;
                let k = if len as int <= avail {
                    len as int
                } else {
                    avail
                };
                &&& v@ == guest_range(q, src, p, k)
                &&& v@.len() == k
                &&& final(self).pos() == p + k
                &&& cluster_resolvable(q, src, p / c)
            }),
            (old(self).pos() as int / old(self).session().cluster_size() as int) / old(
                self,
            ).session().level2_entries() as int >= old(self).session().level1_table.len() ==> r
                == Err::<Vec<u8>, CalfError>(CalfError::Level),
            ({
                let q = old(self).session();
                let c = q.cluster_size() as int;
                let p = old(self).pos() as int;
                let avail = c - p % c;
                let k = if len as int <= avail {
                    len as int
                } else {
                    avail
                };
                position_unallocated(q, p) && p + k <= u64::MAX
            }) ==> r is Ok,
    {
        match self.refresh_level2_cache() {
            Ok(()) => {},
            Err(e) => {
                return Err(e);
            },
        }
        proof {
            lemma_wf_sizes(self.qcow@);
        }
        let position_in_cluster = self.position % self.cluster_size;
        let cluster_bytes_remaining = self.cluster_size - position_in_cluster;
        let read_len = if (len as u64) < cluster_bytes_remaining {
            len as u64
        } else {
            cluster_bytes_remaining
        };
        if self.position > u64::MAX - read_len {
            return Err(CalfError::InvalidOffset);
        }
        proof {
            let q = self.qcow@;
            let src = self.reader.bytes();
            let ci = self.position as int / q.cluster_size() as int;
            assert(self.level2_key == Some(self.position / self.cluster_size));
            assert(cluster_resolvable(q, src, ci));
            assert(self.cluster_bytes@ == cluster_bytes_at(q, src, ci));
            assert(cluster_bytes_at(q, src, ci).len() == q.cluster_size());
        }
        let start = position_in_cluster as usize;
        let count = read_len as usize;
        let mut out: Vec<u8> = Vec::new();
        let mut i: usize = 0;
        while i < count
            invariant
                i <= count,
                start + count <= self.cluster_bytes@.len(),
                self.cluster_bytes@.len() <= usize::MAX,
                out@ == self.cluster_bytes@.subrange(start as int, start as int + i as int),
            decreases count - i,
        {
            out.push(self.cluster_bytes[start + i]);
            i = i + 1;
        }
        proof {
            let q = self.qcow@;
            let src = self.reader.bytes();
            let c = q.cluster_size() as int;
            let p = self.position as int;
            let ci = p / c;
            lemma_fundamental_div_mod(p, c);
            assert forall|j: int| 0 <= j < read_len implies #[trigger] guest_byte(q, src, p + j)
                == self.cluster_bytes@[p % c + j] by {
                lemma_fundamental_div_mod_converse(p + j, c, ci, p % c + j);
            }
            assert(out@ =~= guest_range(q, src, p, read_len as int));
        }
        self.position = self.position + read_len;
        Ok(out)
    }

    /// Read exactly `len` bytes at the cursor, looping over cluster
    /// boundaries. On success the returned bytes are exactly the guest
    /// bytes at the old position and the cursor has advanced by `len`; on
    /// failure the cursor may have advanced by part of the range. A range
    /// of unallocated buckets touches no backing source and always
    /// succeeds, yielding zero-filled bytes.
    #[verifier::loop_isolation(false)]
    pub fn read_exact(&mut self, len: usize) -> (r: Result<Vec<u8>, CalfError>)
        requires
            old(self).wf(),
        ensures
            final(self).wf(),
            final(self).session() == old(self).session(),
            final(self).source() == old(self).source(),
            r matches Ok(v) ==> ({
                let q = old(self).session();
                let src = old(self).source();
                &&& v@ == guest_range(q, src, old(self).pos() as int, len as int)
                &&& v@.len() == len
                &&& final(self).pos() == old(self).pos() + len
                &&& (len > 0 ==> cluster_resolvable(
                    q,
                    src,
                    (old(self).pos() + len - 1) as int / q.cluster_size() as int,
                ))
            }),
            range_unallocated(old(self).session(), old(self).pos() as int, len as int) && old(
                self,
            ).pos() + len <= u64::MAX ==> r is Ok,
    {
        let ghost q = self.session();
        let ghost src = self.source();
        let ghost p0 = self.pos() as int;
        let mut out: Vec<u8> = Vec::new();
        while out.len() < len
            invariant
                self.wf(),
                self.session() == q,
                self.source() == src,
                out@.len() <= len,
                out@ == guest_range(q, src, p0, out@.len() as int),
                self.pos() == p0 + out@.len(),
                out@.len() > 0 ==> cluster_resolvable(
                    q,
                    src,
                    (p0 + out@.len() - 1) / q.cluster_size() as int,
                ),
            decreases len - out@.len(),
        {
            let want = len - out.len();
            let ghost pc = self.pos() as int;
            let ghost before = out@.len() as int;
            let mut chunk = match self.read(want) {
                Ok(v) => v,
                Err(e) => {
                    proof {
                        // A read inside an unallocated range cannot have
                        // failed: its position lies in an unallocated
                        // bucket and its count stays within the range.
                        if range_unallocated(q, p0, len as int) && p0 + len <= u64::MAX {
                            lemma_wf_sizes(q);
                            let c = q.cluster_size() as int;
                            assert(position_unallocated(q, p0 + before));
                            let avail = c - pc % c;
                            let k = if want as int <= avail {
                                want as int
                            } else {
                                avail
                            };
                            assert(pc + k <= p0 + len);
                            assert(false);
                        }
                    }
                    return Err(e);
                },
            };
            proof {
                lemma_wf_sizes(q);
                let c = q.cluster_size() as int;
                // The chunk is non-empty: at least one byte remains in the
                // cluster the cursor falls in.
                assert(c - pc % c >= 1);
                // The last byte of the chunk lies in the cluster that the
                // read resolved.
                let k = chunk@.len() as int;
                assert(1 <= k <= c - pc % c);
                assert(0 <= pc % c + k - 1 < c);
                lemma_fundamental_div_mod(pc, c);
                lemma_fundamental_div_mod_converse(pc + k - 1, c, pc / c, pc % c + k - 1);
            }
            out.append(&mut chunk);
            proof {
                assert(out@ =~= guest_range(q, src, p0, out@.len() as int));
            }
        }
        proof {
            assert(out@ =~= guest_range(q, src, p0, len as int));
        }
        Ok(out)
    }
}

/// A guest stream is itself a byte source: its content is the whole
/// addressable guest space, and a positioned read is an absolute seek
/// followed by an exact read.
impl<S: ByteSource> ByteSource for OsReader<S> {
    closed spec fn inv(&self) -> bool {
        self.wf()
    }

    closed spec fn bytes(&self) -> Seq<u8> {
        guest_space(self.session(), self.source())
    }

    fn read_at(&mut self, offset: u64, len: usize) -> (r: Result<Vec<u8>, CalfError>)
        ensures
            range_unallocated(old(self).session(), offset as int, len as int) && offset + len
                <= u64::MAX ==> r is Ok,
    {
        match self.seek(SeekFrom::Start(offset)) {
            Ok(_) => {},
            Err(e) => {
                return Err(e);
            },
        }
        let v = match self.read_exact(len) {
            Ok(v) => v,
            Err(e) => {
                return Err(e);
            },
        };
        proof {
            if len > 0 {
                let q = self.session();
                let src = self.source();
                let c = q.cluster_size() as int;
                let e = q.level2_entries() as int;
                let cap = q.level1_table.len() * e * c;
                let last = offset as int + len - 1;
                let ci = last / c;
                lemma_wf_sizes(q);
                assert(cluster_resolvable(q, src, ci));
                // The level-one index of the last byte is in range, so the
                // whole read lies below the table's capacity.
                let l = q.level1_table.len() as int;
                let de = ci / e;
                let re = ci % e;
                lemma_fundamental_div_mod(ci, e);
                assert(ci + 1 <= l * e) by (nonlinear_arith)
                    requires
                        de + 1 <= l,
                        ci == e * de + re,
                        0 <= re < e,
                        e >= 1,
                ;
                lemma_fundamental_div_mod(last, c);
                assert(last < l * e * c) by (nonlinear_arith)
                    requires
                        ci + 1 <= l * e,
                        last == c * ci + last % c,
                        0 <= last % c < c,
                        c >= 1,
                ;
                assert(last < cap);
                assert(v@ =~= guest_space(q, src).subrange(
                    offset as int,
                    offset as int + len as int,
                ));
            }
        }
        Ok(v)
    }
}

impl<S: ByteSource> OsReader<S> {
    /// Determine the boot information of the guest: decode the master boot
    /// record and every extended chain over this translated stream.
    pub fn get_boot_info(&mut self) -> (r: Result<
        crate::bootsector::boot::BootInfo,
        CalfError,
    >)
        requires
            old(self).wf(),
        ensures
            final(self).wf(),
            guest_space(final(self).session(), final(self).source()) == guest_space(
                old(self).session(),
                old(self).source(),
            ),
            r matches Ok(b) ==> crate::bootsector::boot::boot_info_model(
                guest_space(old(self).session(), old(self).source()),
                crate::bootsector::boot::MAX_EXTENDED_RECORDS as nat,
            ) == Some((b.boot_type, b.partitions@)),
    {
        crate::bootsector::boot::boot_info(self)
    }
}

} // verus!
