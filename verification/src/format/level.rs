use crate::error::CalfError;
use crate::source::ByteSource;
use crate::utils::bytes::be_u64_at;
use crate::utils::read::read_bytes;
use vstd::prelude::*;

verus! {

/// One indirection-table entry. A level-one entry's offset points at a
/// level-two table; a level-two entry's offset points at a data cluster.
/// An offset of zero is a valid value and means "unallocated".
#[derive(Debug, Clone, Copy, PartialEq, Eq, Structural)]
pub struct Level {
    pub offset: u64,
    pub is_copied: bool,
    pub is_compressed: bool,
}

/// Bits 9 through 55 of a table word hold the physical offset; bits 0
/// through 8 are reserved, bit 62 marks compression and bit 63 a copied
/// cluster.
pub const LEVEL_OFFSET_MASK: u64 = 0x00ff_ffff_ffff_fe00;

/// Bit 63 of a table word: the cluster is not shared with a parent image.
pub const LEVEL_COPIED_BIT: u64 = 0x8000_0000_0000_0000;

/// Bit 62 of a table word: the cluster bytes are stored compressed.
pub const LEVEL_COMPRESSED_BIT: u64 = 0x4000_0000_0000_0000;

/// The entry encoded by one table word.
pub open spec fn level_of_word(w: u64) -> Level {
    Level {
        offset: w & LEVEL_OFFSET_MASK,
        is_copied: w & LEVEL_COPIED_BIT != 0,
        is_compressed: w & LEVEL_COMPRESSED_BIT != 0,
    }
}

/// The entries encoded by a table region: one per full 8-byte big-endian
/// word, in order. Trailing bytes short of a full word carry no entry.
pub open spec fn levels_of_bytes(data: Seq<u8>) -> Seq<Level> {
    Seq::new(data.len() / 8, |i: int| level_of_word(be_u64_at(data, 8 * i)))
}

/// The word that encodes a table entry: the offset (restricted to the mask)
/// in bits 9 through 55, the copied flag in bit 63, the compressed flag in
/// bit 62.
pub open spec fn word_of_level(offset: u64, is_copied: bool, is_compressed: bool) -> u64 {
    (offset & LEVEL_OFFSET_MASK) | (if is_copied {
        LEVEL_COPIED_BIT
    } else {
        0u64
    }) | (if is_compressed {
        LEVEL_COMPRESSED_BIT
    } else {
        0u64
    })
}

/// The 8-byte big-endian encoding of a 64-bit word.
pub open spec fn be_u64_bytes(w: u64) -> Seq<u8> {
    seq![
        (w >> 56) as u8,
        (w >> 48) as u8,
        (w >> 40) as u8,
        (w >> 32) as u8,
        (w >> 24) as u8,
        (w >> 16) as u8,
        (w >> 8) as u8,
        w as u8,
    ]
}

/// The big-endian byte encoding of a word decodes back to that word.
pub proof fn lemma_be_u64_bytes_round_trip(w: u64)
    ensures
        be_u64_bytes(w).len() == 8,
        be_u64_at(be_u64_bytes(w), 0) == w,
{
    let s = be_u64_bytes(w);
    assert(((w >> 56) as u8 as u64) << 56 | ((w >> 48) as u8 as u64) << 48 | ((w
        >> 40) as u8 as u64) << 40 | ((w >> 32) as u8 as u64) << 32 | ((w >> 24) as u8 as u64) << 24
        | ((w >> 16) as u8 as u64) << 16 | ((w >> 8) as u8 as u64) << 8 | (w as u8 as u64) == w)
        by (bit_vector);
}

/// Law: a table entry round-trips. Encoding an offset together with the two
/// control flags into an 8-byte big-endian word and decoding that word as a
/// table region yields exactly the entry that was encoded. Offsets with
/// bits outside the offset mask (the reserved low nine bits) are excluded:
/// decoding strips such bits.
pub proof fn lemma_table_entry_round_trip(offset: u64, is_copied: bool, is_compressed: bool)
    requires
        offset & LEVEL_OFFSET_MASK == offset,
    ensures
        ({
            let words = be_u64_bytes(word_of_level(offset, is_copied, is_compressed));
            &&& levels_of_bytes(words).len() == 1
            &&& levels_of_bytes(words)[0] == (Level { offset, is_copied, is_compressed })
        }),
{
    let w = word_of_level(offset, is_copied, is_compressed);
    lemma_be_u64_bytes_round_trip(w);
    let words = be_u64_bytes(w);
    assert(levels_of_bytes(words).len() == 1);
    assert(levels_of_bytes(words)[0] == level_of_word(w));
    if is_copied {
        if is_compressed {
            assert((offset & 0x00ff_ffff_ffff_fe00 | 0x8000_0000_0000_0000
                | 0x4000_0000_0000_0000) & 0x00ff_ffff_ffff_fe00 == offset
                & 0x00ff_ffff_ffff_fe00 && (offset & 0x00ff_ffff_ffff_fe00 | 0x8000_0000_0000_0000
                | 0x4000_0000_0000_0000) & 0x8000_0000_0000_0000 != 0 && (offset
                & 0x00ff_ffff_ffff_fe00 | 0x8000_0000_0000_0000 | 0x4000_0000_0000_0000)
                & 0x4000_0000_0000_0000 != 0) by (bit_vector);
        } else {
            assert((offset & 0x00ff_ffff_ffff_fe00 | 0x8000_0000_0000_0000 | 0u64)
                & 0x00ff_ffff_ffff_fe00 == offset & 0x00ff_ffff_ffff_fe00 && (offset
                & 0x00ff_ffff_ffff_fe00 | 0x8000_0000_0000_0000 | 0u64) & 0x8000_0000_0000_0000
                != 0 && (offset & 0x00ff_ffff_ffff_fe00 | 0x8000_0000_0000_0000 | 0u64)
                & 0x4000_0000_0000_0000 == 0) by (bit_vector);
        }
    } else {
        if is_compressed {
            assert((offset & 0x00ff_ffff_ffff_fe00 | 0u64 | 0x4000_0000_0000_0000)
                & 0x00ff_ffff_ffff_fe00 == offset & 0x00ff_ffff_ffff_fe00 && (offset
                & 0x00ff_ffff_ffff_fe00 | 0u64 | 0x4000_0000_0000_0000) & 0x8000_0000_0000_0000
                == 0 && (offset & 0x00ff_ffff_ffff_fe00 | 0u64 | 0x4000_0000_0000_0000)
                & 0x4000_0000_0000_0000 != 0) by (bit_vector);
        } else {
            assert((offset & 0x00ff_ffff_ffff_fe00 | 0u64 | 0u64) & 0x00ff_ffff_ffff_fe00 == offset
                & 0x00ff_ffff_ffff_fe00 && (offset & 0x00ff_ffff_ffff_fe00 | 0u64 | 0u64)
                & 0x8000_0000_0000_0000 == 0 && (offset & 0x00ff_ffff_ffff_fe00 | 0u64 | 0u64)
                & 0x4000_0000_0000_0000 == 0) by (bit_vector);
        }
    }
}

impl Level {
    /// Decode successive 8-byte big-endian words until fewer than eight
    /// bytes remain. An offset of zero is kept, not skipped: it denotes an
    /// unallocated cluster.
    pub fn get_levels(data: &[u8]) -> (levels: Vec<Level>)
        ensures
            levels@ == levels_of_bytes(data@),
    {
        let mut levels: Vec<Level> = Vec::new();
        let mut pos: usize = 0;
        while data.len() - pos >= 8
            invariant
                pos <= data@.len(),
                pos % 8 == 0,
                levels@ == levels_of_bytes(data@).subrange(0, pos as int / 8),
            decreases data@.len() - pos,
        {
            let w = crate::utils::bytes::read_be_u64(data, pos);
            let level = Level {
                offset: w & LEVEL_OFFSET_MASK,
                is_copied: w & LEVEL_COPIED_BIT != 0,
                is_compressed: w & LEVEL_COMPRESSED_BIT != 0,
            };
            levels.push(level);
            pos = pos + 8;
            assert(levels@ =~= levels_of_bytes(data@).subrange(0, pos as int / 8));
        }
        assert(levels@ =~= levels_of_bytes(data@));
        levels
    }
}

/// Read one full table from the backing source: a cluster's worth of bytes
/// (`1 << cluster_bits`) at `offset`, decoded into its entries.
pub fn read_level<S: ByteSource>(reader: &mut S, cluster_bits: &u32, offset: &u64) -> (r: Result<
    Vec<Level>,
    CalfError,
>)
    requires
        old(reader).inv(),
        *cluster_bits < 64,
    ensures
        final(reader).inv(),
        final(reader).bytes() == old(reader).bytes(),
        r matches Ok(v) ==> *offset + (1u64 << *cluster_bits) <= final(reader).bytes().len(),
        r matches Ok(v) ==> v@ == levels_of_bytes(
            final(reader).bytes().subrange(
                *offset as int,
                *offset as int + (1u64 << *cluster_bits) as int,
            ),
        ),
{
    let size = 1u64 << *cluster_bits;
    proof {
        let b = *cluster_bits;
        assert(b < 64 ==> 1u64 << b >= 1) by (bit_vector);
    }
    let buf = match read_bytes(*offset, size, reader) {
        Ok(b) => b,
        Err(e) => {
            return Err(e);
        },
    };
    Ok(Level::get_levels(buf.as_slice()))
}

/// Decodes indirection tables from the backing source.
pub trait CalfLevel: crate::calf::CalfSource {
    /// Return the table entries stored in the `level_entries`-byte region
    /// at `offset` of the backing source.
    fn levels(&mut self, offset: &u64, level_entries: &u32) -> (r: Result<Vec<Level>, CalfError>)
        requires
            old(self).source_inv(),
        ensures
            final(self).source_inv(),
            final(self).source_bytes() == old(self).source_bytes(),
            r matches Ok(v) ==> (*level_entries > 0 ==> *offset + *level_entries <= old(
                self,
            ).source_bytes().len() && v@ == levels_of_bytes(
                old(self).source_bytes().subrange(
                    *offset as int,
                    *offset as int + *level_entries as int,
                ),
            )),
            r matches Ok(v) ==> (*level_entries == 0 ==> v@ == Seq::<Level>::empty()),
    ;
}

impl<S: ByteSource> CalfLevel for crate::calf::CalfReader<S> {
    fn levels(&mut self, offset: &u64, level_entries: &u32) -> (r: Result<Vec<Level>, CalfError>) {
        let bytes = match read_bytes(*offset, *level_entries as u64, &mut self.fs) {
            Ok(b) => b,
            Err(e) => {
                return Err(e);
            },
        };
        Ok(Level::get_levels(bytes.as_slice()))
    }
}

} // verus!
