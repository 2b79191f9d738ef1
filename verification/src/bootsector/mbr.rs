use crate::bootsector::boot::{BootInfo, BootType, Partition, PartitionType};
use crate::error::CalfError;
use crate::utils::bytes::{le_u32_at, read_le_u32};
use vstd::prelude::*;
use vstd::slice::slice_subrange;

verus! {

/// The 24-bit cylinder-head-sector value stored at position `i`.
pub open spec fn chs_at(b: Seq<u8>, i: int) -> u32
    recommends
        0 <= i,
        i + 3 <= b.len(),
{
    (((b[i] as u32) << 16) + ((b[i + 1] as u32) << 8) + (b[i + 2] as u32)) as u32
}

/// The partition type selected by a type code byte.
pub open spec fn partition_type_of(code: u8) -> PartitionType {
    if code == 0x00 {
        PartitionType::Empty
    } else if code == 0x07 || code == 0x27 {
        PartitionType::Ntfs
    } else if code == 0x83 {
        PartitionType::Linux
    } else if code == 0x82 {
        PartitionType::LinuxSwap
    } else if code == 0x8e {
        PartitionType::LinuxLvm
    } else if code == 0x0c {
        PartitionType::Fat32
    } else if code == 0xee || code == 0xef {
        PartitionType::Protective
    } else if code == 0x05 || code == 0x0f {
        PartitionType::Extended
    } else {
        PartitionType::Unknown
    }
}

/// The partition encoded by the 16-byte entry at position `base` of `b`:
/// bootable flag, CHS start, type code, CHS end, then the little-endian
/// first logical sector and sector count, each scaled by the 512-byte
/// sector size into byte values.
pub open spec fn partition_at(b: Seq<u8>, base: int) -> Partition
    recommends
        0 <= base,
        base + 16 <= b.len(),
{
    Partition {
        partition_type: partition_type_of(b[base + 4]),
        partition_type_value: b[base + 4],
        first_sector_offset: chs_at(b, base + 1),
        last_sector_offset: chs_at(b, base + 5),
        first_logical_offset: le_u32_at(b, base + 8),
        offset_start: ((le_u32_at(b, base + 8) as int) * 512) as u64,
        sectors_in_partition: le_u32_at(b, base + 12),
        partition_size: ((le_u32_at(b, base + 12) as int) * 512) as u64,
        bootable: b[base] == 0x80,
    }
}

/// The boot type and the four primary partitions encoded by a 512-byte
/// master boot record, or `None` when the sector is too short. The boot
/// type is the GUID partition table exactly when some primary entry is of
/// protective type.
pub open spec fn mbr_model(data: Seq<u8>) -> Option<(BootType, Seq<Partition>)> {
    if data.len() < 512 {
        Option::None
    } else {
        let parts = Seq::new(4, |i: int| partition_at(data, 446 + 16 * i));
        let bt = if parts[0].partition_type == PartitionType::Protective
            || parts[1].partition_type == PartitionType::Protective || parts[2].partition_type
            == PartitionType::Protective || parts[3].partition_type == PartitionType::Protective {
            BootType::GuidPartitionTable
        } else {
            BootType::MasterBootRecord
        };
        Option::Some((bt, parts))
    }
}

/// The two partitions and the continuation flag encoded by a 512-byte
/// extended boot record, or `None` when the sector is too short or an
/// adjusted offset leaves the 64-bit range.
///
/// The first entry describes the logical partition of this record; its
/// absolute offset is relative to the record itself (`extended_offset`),
/// except that a first entry of extended type (which should never occur)
/// is taken relative to the chain root. The second entry points at the
/// next record in the chain, relative to the chain root. The flag is set
/// exactly when either entry is of extended type.
pub open spec fn ebr_pair_model(data: Seq<u8>, root_offset: u64, extended_offset: u64) -> Option<
    (Seq<Partition>, bool),
> {
    if data.len() < 512 {
        Option::None
    } else {
        let e1 = partition_at(data, 446);
        let e2 = partition_at(data, 462);
        let has_ext = e1.partition_type == PartitionType::Extended || e2.partition_type
            == PartitionType::Extended;
        let first_off: int = if e1.partition_type == PartitionType::Extended {
            e1.offset_start + root_offset
        } else if has_ext || e2.partition_type == PartitionType::Empty {
            (e1.first_logical_offset + extended_offset as int / 512) * 512
        } else {
            e1.offset_start as int
        };
        let second_off: int = if has_ext || e2.partition_type == PartitionType::Empty {
            e2.offset_start + root_offset
        } else {
            e2.offset_start as int
        };
        if first_off > u64::MAX || second_off > u64::MAX {
            Option::None
        } else {
            Option::Some(
                (
                    seq![
                        Partition { offset_start: first_off as u64, ..e1 },
                        Partition { offset_start: second_off as u64, ..e2 },
                    ],
                    has_ext,
                ),
            )
        }
    }
}

/// Determine the partition type from its code byte; only a handful of
/// codes are recognised, everything else maps to `Unknown`.
pub fn get_partition_type(part: u8) -> (r: PartitionType)
    ensures
        r == partition_type_of(part),
{
    if part == 0x00 {
        PartitionType::Empty
    } else if part == 0x07 || part == 0x27 {
        PartitionType::Ntfs
    } else if part == 0x83 {
        PartitionType::Linux
    } else if part == 0x82 {
        PartitionType::LinuxSwap
    } else if part == 0x8e {
        PartitionType::LinuxLvm
    } else if part == 0x0c {
        PartitionType::Fat32
    } else if part == 0xee || part == 0xef {
        PartitionType::Protective
    } else if part == 0x05 || part == 0x0f {
        PartitionType::Extended
    } else {
        PartitionType::Unknown
    }
}

/// Read the 24-bit cylinder-head-sector value at `pos`.
fn read_chs(data: &[u8], pos: usize) -> (r: u32)
    requires
        pos + 3 <= data@.len(),
    ensures
        r == chs_at(data@, pos as int),
{
    let b0 = data[pos];
    let b1 = data[pos + 1];
    let b2 = data[pos + 2];
    proof {
        assert((b0 as u32) << 16 <= 0xff0000) by (bit_vector);
        assert((b1 as u32) << 8 <= 0xff00) by (bit_vector);
    }
    ((b0 as u32) << 16) + ((b1 as u32) << 8) + (b2 as u32)
}

/// Parse one 16-byte partition entry. The returned flag is set exactly
/// when the entry is of protective type, which signals a GUID partition
/// table.
pub fn parse_partition(data: &[u8]) -> (r: Result<(Partition, bool), CalfError>)
    ensures
        r is Ok <==> data@.len() >= 16,
        r matches Ok(p) ==> p.0 == partition_at(data@, 0),
        r matches Ok(p) ==> p.1 == (partition_at(data@, 0).partition_type
            == PartitionType::Protective),
        r is Err ==> r == Err::<(Partition, bool), CalfError>(CalfError::ParseMbr),
{
    if data.len() < 16 {
        return Err(CalfError::ParseMbr);
    }
    let bootable = data[0];
    let partition_type = data[4];
    let first_sector_offset = read_chs(data, 1);
    let last_sector_offset = read_chs(data, 5);
    let first_logical_offset = read_le_u32(data, 8);
    let sectors_in_partition = read_le_u32(data, 12);
    let part = Partition {
        partition_type: get_partition_type(partition_type),
        partition_type_value: partition_type,
        first_sector_offset,
        last_sector_offset,
        first_logical_offset,
        offset_start: first_logical_offset as u64 * 512,
        sectors_in_partition,
        partition_size: sectors_in_partition as u64 * 512,
        bootable: bootable == 0x80,
    };
    let is_gpt = part.partition_type == PartitionType::Protective;
    Ok((part, is_gpt))
}

/// Parse the master boot record: a 440-byte bootstrap region, a 4-byte
/// disk signature and a 2-byte reserved field are skipped, then exactly
/// four 16-byte partition entries are decoded. Succeeds exactly on inputs
/// of at least 512 bytes and always yields four partitions.
pub fn parse_mbr(data: &[u8]) -> (r: Result<BootInfo, CalfError>)
    ensures
        r is Ok <==> data@.len() >= 512,
        r matches Ok(b) ==> mbr_model(data@) == Some((b.boot_type, b.partitions@)),
        r matches Ok(b) ==> b.partitions@.len() == 4,
        r is Err ==> r == Err::<BootInfo, CalfError>(CalfError::ParseMbr),
{
    if data.len() < 512 {
        return Err(CalfError::ParseMbr);
    }
    let mut partitions: Vec<Partition> = Vec::new();
    let mut is_gpt = false;
    let mut count: usize = 0;
    while count < 4
        invariant
            count <= 4,
            data@.len() >= 512,
            partitions@.len() == count,
            forall|j: int| 0 <= j < count ==> partitions@[j] == partition_at(data@, 446 + 16 * j),
            is_gpt == (count >= 1 && partition_at(data@, 446).partition_type
                == PartitionType::Protective || count >= 2 && partition_at(
                data@,
                462,
            ).partition_type == PartitionType::Protective || count >= 3 && partition_at(
                data@,
                478,
            ).partition_type == PartitionType::Protective || count >= 4 && partition_at(
                data@,
                494,
            ).partition_type == PartitionType::Protective),
        decreases 4 - count,
    {
        let entry = slice_subrange(data, 446 + 16 * count, 446 + 16 * count + 16);
        let (part, entry_gpt) = match parse_partition(entry) {
            Ok(p) => p,
            Err(e) => {
                return Err(e);
            },
        };
        proof {
            lemma_partition_at_subrange(data@, 446 + 16 * count);
        }
        partitions.push(part);
        if entry_gpt {
            is_gpt = true;
        }
        count = count + 1;
    }
    let boot_type = if is_gpt {
        BootType::GuidPartitionTable
    } else {
        BootType::MasterBootRecord
    };
    let info = BootInfo { boot_type, partitions };
    proof {
        let parts = Seq::new(4, |i: int| partition_at(data@, 446 + 16 * i));
        assert(info.partitions@ =~= parts);
    }
    Ok(info)
}

/// The partition encoded by a 16-byte window equals the partition encoded
/// in place at the window's base.
proof fn lemma_partition_at_subrange(b: Seq<u8>, base: int)
    requires
        0 <= base,
        base + 16 <= b.len(),
    ensures
        partition_at(b.subrange(base, base + 16), 0) == partition_at(b, base),
{
    let s = b.subrange(base, base + 16);
    assert(s[0] == b[base]);
    assert(s[1] == b[base + 1]);
    assert(s[2] == b[base + 2]);
    assert(s[3] == b[base + 3]);
    assert(s[4] == b[base + 4]);
    assert(s[5] == b[base + 5]);
    assert(s[6] == b[base + 6]);
    assert(s[7] == b[base + 7]);
    assert(s[8] == b[base + 8]);
    assert(s[9] == b[base + 9]);
    assert(s[10] == b[base + 10]);
    assert(s[11] == b[base + 11]);
    assert(s[12] == b[base + 12]);
    assert(s[13] == b[base + 13]);
    assert(s[14] == b[base + 14]);
    assert(s[15] == b[base + 15]);
}

/// Parse one extended boot record: a 446-byte bootstrap region is skipped
/// and the first two 16-byte entries are decoded; the remaining two slots
/// carry nothing. Offsets are adjusted as `ebr_pair_model` states: the
/// logical partition relative to this record, the chain pointer relative
/// to the chain root. Fails on sectors shorter than 512 bytes and on
/// offset arithmetic that leaves the 64-bit range.
pub fn parse_extended(data: &[u8], root_offset: u64, extended_offset: u64) -> (r: Result<
    (Vec<Partition>, bool),
    CalfError,
>)
    ensures
        r is Ok <==> ebr_pair_model(data@, root_offset, extended_offset) is Some,
        r matches Ok(p) ==> ebr_pair_model(data@, root_offset, extended_offset) == Some(
            (p.0@, p.1),
        ),
        r is Err ==> r == Err::<(Vec<Partition>, bool), CalfError>(CalfError::ExtendedPartition),
{
    if data.len() < 512 {
        return Err(CalfError::ExtendedPartition);
    }
    let first_entry = slice_subrange(data, 446, 462);
    let (mut first_part, _) = match parse_partition(first_entry) {
        Ok(p) => p,
        Err(_) => {
            return Err(CalfError::ExtendedPartition);
        },
    };
    let second_entry = slice_subrange(data, 462, 478);
    let (mut extended_part, _) = match parse_partition(second_entry) {
        Ok(p) => p,
        Err(_) => {
            return Err(CalfError::ExtendedPartition);
        },
    };
    proof {
        lemma_partition_at_subrange(data@, 446);
        lemma_partition_at_subrange(data@, 462);
    }
    let mut has_extended = false;
    // The first entry of an extended boot record should never itself be of
    // extended type; when it is, its offset counts from the chain root and
    // the walk continues from it.
    if first_part.partition_type == PartitionType::Extended {
        has_extended = true;
        if first_part.offset_start > u64::MAX - root_offset {
            return Err(CalfError::ExtendedPartition);
        }
        first_part.offset_start = first_part.offset_start + root_offset;
    }
    if extended_part.partition_type == PartitionType::Extended {
        has_extended = true;
    }
    // The last record of a chain carries an empty second entry.
    if has_extended || extended_part.partition_type == PartitionType::Empty {
        if extended_part.offset_start > u64::MAX - root_offset {
            return Err(CalfError::ExtendedPartition);
        }
        extended_part.offset_start = extended_part.offset_start + root_offset;
        if first_part.partition_type != PartitionType::Extended {
            let sectors = first_part.first_logical_offset as u64 + extended_offset / 512;
            if sectors > u64::MAX / 512 {
                return Err(CalfError::ExtendedPartition);
            }
            first_part.offset_start = sectors * 512;
        }
    }
    let mut parts: Vec<Partition> = Vec::new();
    parts.push(first_part);
    parts.push(extended_part);
    proof {
        let m = ebr_pair_model(data@, root_offset, extended_offset);
        assert(m matches Some(p) && p.0 =~= parts@ && p.1 == has_extended);
    }
    Ok((parts, has_extended))
}

} // verus!
