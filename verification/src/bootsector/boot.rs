use crate::bootsector::mbr::{ebr_pair_model, mbr_model, parse_extended, parse_mbr};
use crate::error::CalfError;
use crate::source::ByteSource;
use vstd::prelude::*;

verus! {

/// The partition layout discovered in a guest's boot sector.
#[derive(Debug)]
pub struct BootInfo {
    pub boot_type: BootType,
    pub partitions: Vec<Partition>,
}

#[derive(Debug, PartialEq, Eq, Structural)]
pub enum BootType {
    MasterBootRecord,
    /// A primary entry of protective type was seen. Detection only: GUID
    /// partition table entries are never parsed.
    GuidPartitionTable,
}

/// One decoded 16-byte partition entry. The CHS fields are display
/// approximations; offset arithmetic uses the logical sector fields.
#[derive(Debug, Clone, Copy)]
pub struct Partition {
    pub partition_type: PartitionType,
    pub partition_type_value: u8,
    pub first_sector_offset: u32,
    pub last_sector_offset: u32,
    pub first_logical_offset: u32,
    /// Absolute byte offset to the partition data.
    pub offset_start: u64,
    pub sectors_in_partition: u32,
    pub partition_size: u64,
    pub bootable: bool,
}

#[derive(Debug, Clone, Copy, PartialEq, Eq, Structural)]
pub enum PartitionType {
    Ntfs,
    Linux,
    Unknown,
    Fat16,
    Fat32,
    ExFat,
    Protective,
    Extended,
    LinuxSwap,
    LinuxLvm,
    Empty,
}

/// The most extended boot records one walk will read. A chain of records
/// that points back at an earlier record would otherwise be walked forever:
/// the walk fails with `ExtendedPartition` when this guard trips.
pub const MAX_EXTENDED_RECORDS: usize = 1024;

/// The byte offsets of the extended-typed entries of `parts`, in order.
pub open spec fn ext_offsets(parts: Seq<Partition>) -> Seq<u64>
    decreases parts.len(),
{
    if parts.len() == 0 {
        Seq::empty()
    } else {
        (if parts[0].partition_type == PartitionType::Extended {
            seq![parts[0].offset_start]
        } else {
            Seq::empty()
        }) + ext_offsets(parts.skip(1))
    }
}

/// The extended offsets of a decoded record pair, written out.
proof fn lemma_ext_offsets_pair(parts: Seq<Partition>)
    requires
        parts.len() == 2,
    ensures
        ext_offsets(parts) == (if parts[0].partition_type == PartitionType::Extended {
            seq![parts[0].offset_start]
        } else {
            Seq::empty()
        }) + (if parts[1].partition_type == PartitionType::Extended {
            seq![parts[1].offset_start]
        } else {
            Seq::empty()
        }),
{
    let s1 = parts.skip(1);
    assert(s1.len() == 1);
    assert(s1[0] == parts[1]);
    let s2 = s1.skip(1);
    assert(s2.len() == 0);
    assert(ext_offsets(s2) == Seq::<u64>::empty());
    assert(ext_offsets(s1) =~= (if parts[1].partition_type == PartitionType::Extended {
        seq![parts[1].offset_start]
    } else {
        Seq::<u64>::empty()
    }));
}

/// One chain walk over extended boot records, as a queue in first-in
/// first-out order: each pending record contributes its two entries, and,
/// when it signals continuation, the offsets of its extended-typed entries
/// join the back of the queue. `None` when a record lies outside the
/// space, a record fails to decode, or the walk exceeds its fuel.
pub open spec fn walk_model(src: Seq<u8>, root: u64, pending: Seq<u64>, fuel: nat) -> Option<
    Seq<Partition>,
>
    decreases fuel,
{
    if pending.len() == 0 {
        Option::Some(Seq::empty())
    } else if fuel == 0 {
        Option::None
    } else {
        let off = pending[0];
        if off + 512 > src.len() {
            Option::None
        } else {
            match ebr_pair_model(src.subrange(off as int, off as int + 512), root, off) {
                Option::None => Option::None,
                Option::Some(pm) => {
                    let next = if pm.1 {
                        ext_offsets(pm.0)
                    } else {
                        Seq::empty()
                    };
                    match walk_model(src, root, pending.skip(1) + next, (fuel - 1) as nat) {
                        Option::None => Option::None,
                        Option::Some(rest) => Option::Some(pm.0 + rest),
                    }
                },
            }
        }
    }
}

/// The chained partitions of every extended primary entry of `primaries`
/// from index `i` on, each walked from its own offset as chain root, in
/// order.
pub open spec fn chains_model(src: Seq<u8>, primaries: Seq<Partition>, i: int, fuel: nat) -> Option<
    Seq<Partition>,
>
    decreases primaries.len() - i,
{
    if i < 0 || i >= primaries.len() {
        Option::Some(Seq::empty())
    } else if primaries[i].partition_type != PartitionType::Extended {
        chains_model(src, primaries, i + 1, fuel)
    } else {
        match walk_model(src, primaries[i].offset_start, seq![primaries[i].offset_start], fuel) {
            Option::None => Option::None,
            Option::Some(parts) => match chains_model(src, primaries, i + 1, fuel) {
                Option::None => Option::None,
                Option::Some(rest) => Option::Some(parts + rest),
            },
        }
    }
}

/// The boot information encoded in a guest byte space: the master boot
/// record's type and four primary partitions, followed by the chained
/// partitions of each extended primary entry.
pub open spec fn boot_info_model(src: Seq<u8>, fuel: nat) -> Option<(BootType, Seq<Partition>)> {
    if src.len() < 512 {
        Option::None
    } else {
        match mbr_model(src.subrange(0, 512)) {
            Option::None => Option::None,
            Option::Some(m) => match chains_model(src, m.1, 0, fuel) {
                Option::None => Option::None,
                Option::Some(extra) => Option::Some((m.0, m.1 + extra)),
            },
        }
    }
}

/// Walk one chain of extended boot records from its root: a queue of
/// record offsets in first-in first-out order, reading and decoding each
/// record, collecting its two entries, and following the extended-typed
/// entries of records that signal continuation. Bounded by
/// `MAX_EXTENDED_RECORDS`; a longer (or circular) chain fails with
/// `ExtendedPartition`.
#[verifier::loop_isolation(false)]
fn walk_chain<S: ByteSource>(reader: &mut S, root_offset: u64) -> (r: Result<
    Vec<Partition>,
    CalfError,
>)
    requires
        old(reader).inv(),
    ensures
        final(reader).inv(),
        final(reader).bytes() == old(reader).bytes(),
        r matches Ok(v) ==> walk_model(
            old(reader).bytes(),
            root_offset,
            seq![root_offset],
            MAX_EXTENDED_RECORDS as nat,
        ) == Some(v@),
{
    let ghost src = reader.bytes();
    let ghost fueln = MAX_EXTENDED_RECORDS as nat;
    let mut parts: Vec<Partition> = Vec::new();
    let mut queue: Vec<u64> = Vec::new();
    queue.push(root_offset);
    let mut head: usize = 0;
    let mut fuel: usize = MAX_EXTENDED_RECORDS;
    proof {
        assert(queue@.skip(0) =~= seq![root_offset]);
        assert(walk_model(src, root_offset, queue@.skip(0), fueln) matches Some(rest)
            ==> walk_model(src, root_offset, seq![root_offset], fueln) == Some(parts@ + rest)) by {
            if let Option::Some(rest) = walk_model(src, root_offset, queue@.skip(0), fueln) {
                assert(parts@ + rest =~= rest);
            }
        }
    }
    while head < queue.len()
        invariant
            reader.inv(),
            reader.bytes() == src,
            head <= queue@.len(),
            walk_model(src, root_offset, queue@.skip(head as int), fuel as nat) matches Some(rest)
                ==> walk_model(src, root_offset, seq![root_offset], fueln) == Some(parts@ + rest),
        decreases fuel,
    {
        if fuel == 0 {
            return Err(CalfError::ExtendedPartition);
        }
        let ghost fuel0 = fuel as nat;
        let ghost suffix = queue@.skip(head as int);
        let ghost collected = parts@;
        let off = queue[head];
        let sector = match reader.read_at(off, 512) {
            Ok(s) => s,
            Err(_) => {
                return Err(CalfError::ReadFile);
            },
        };
        let (mut pair, more) = match parse_extended(sector.as_slice(), root_offset, off) {
            Ok(p) => p,
            Err(_) => {
                return Err(CalfError::ExtendedPartition);
            },
        };
        proof {
            assert(sector@ == src.subrange(off as int, off as int + 512));
            assert(ebr_pair_model(src.subrange(off as int, off as int + 512), root_offset, off)
                == Some((pair@, more)));
            assert(pair@.len() == 2);
        }
        let ghost pairview = pair@;
        if more {
            let p0 = pair[0];
            let p1 = pair[1];
            if p0.partition_type == PartitionType::Extended {
                queue.push(p0.offset_start);
            }
            if p1.partition_type == PartitionType::Extended {
                queue.push(p1.offset_start);
            }
            proof {
                lemma_ext_offsets_pair(pairview);
                assert(queue@.skip(head as int + 1) =~= suffix.skip(1) + ext_offsets(pairview));
            }
        } else {
            proof {
                assert(queue@.skip(head as int + 1) =~= suffix.skip(1) + Seq::<u64>::empty());
            }
        }
        parts.append(&mut pair);
        head = head + 1;
        fuel = fuel - 1;
        proof {
            let next = if more {
                ext_offsets(pairview)
            } else {
                Seq::<u64>::empty()
            };
            assert(queue@.skip(head as int) =~= suffix.skip(1) + next);
            assert(walk_model(src, root_offset, queue@.skip(head as int), fuel as nat) matches Some(
                rest,
            ) ==> walk_model(src, root_offset, seq![root_offset], fueln) == Some(parts@ + rest))
                by {
                if let Option::Some(rest) = walk_model(
                    src,
                    root_offset,
                    queue@.skip(head as int),
                    fuel as nat,
                ) {
                    assert(walk_model(src, root_offset, suffix, fuel0) == Some(pairview + rest));
                    assert(collected + (pairview + rest) =~= (collected + pairview) + rest);
                    assert(parts@ == collected + pairview);
                }
            }
        }
    }
    proof {
        assert(queue@.skip(head as int) =~= Seq::<u64>::empty());
        assert(walk_model(src, root_offset, queue@.skip(head as int), fuel as nat) == Some(
            Seq::<Partition>::empty(),
        ));
        assert(parts@ + Seq::<Partition>::empty() =~= parts@);
    }
    Ok(parts)
}

/// Read the boot information from a stream over a guest byte space: decode
/// the master boot record at offset 0, then walk the chain of extended
/// boot records of every extended primary entry, breadth first and bounded
/// by `MAX_EXTENDED_RECORDS` per chain. The whole parse fails atomically:
/// no partial result is returned.
#[verifier::loop_isolation(false)]
pub fn boot_info<S: ByteSource>(reader: &mut S) -> (r: Result<BootInfo, CalfError>)
    requires
        old(reader).inv(),
    ensures
        final(reader).inv(),
        final(reader).bytes() == old(reader).bytes(),
        r matches Ok(b) ==> boot_info_model(old(reader).bytes(), MAX_EXTENDED_RECORDS as nat)
            == Some((b.boot_type, b.partitions@)),
        old(reader).bytes().len() < 512 ==> r is Err,
{
    let ghost src = reader.bytes();
    let sector = match reader.read_at(0, 512) {
        Ok(s) => s,
        Err(_) => {
            return Err(CalfError::ReadFile);
        },
    };
    let mut boot = match parse_mbr(sector.as_slice()) {
        Ok(b) => b,
        Err(_) => {
            return Err(CalfError::ParseMbr);
        },
    };
    let ghost prim = boot.partitions@;
    let ghost bt0 = boot.boot_type;
    let ghost fueln = MAX_EXTENDED_RECORDS as nat;
    proof {
        assert(sector@ == src.subrange(0, 512));
        assert(mbr_model(src.subrange(0, 512)) == Some((bt0, prim)));
    }
    let mut extra: Vec<Partition> = Vec::new();
    let mut pidx: usize = 0;
    proof {
        assert(chains_model(src, prim, 0, fueln) matches Some(rest) ==> chains_model(
            src,
            prim,
            0,
            fueln,
        ) == Some(extra@ + rest)) by {
            if let Option::Some(rest) = chains_model(src, prim, 0, fueln) {
                assert(extra@ + rest =~= rest);
            }
        }
    }
    while pidx < boot.partitions.len()
        invariant
            reader.inv(),
            reader.bytes() == src,
            boot.partitions@ == prim,
            boot.boot_type == bt0,
            pidx <= prim.len(),
            chains_model(src, prim, pidx as int, fueln) matches Some(rest) ==> chains_model(
                src,
                prim,
                0,
                fueln,
            ) == Some(extra@ + rest),
        decreases prim.len() - pidx,
    {
        let ptype = boot.partitions[pidx].partition_type;
        if ptype == PartitionType::Extended {
            // All chained records of this primary entry are addressed
            // relative to its offset, the chain root.
            let root_offset = boot.partitions[pidx].offset_start;
            let ghost base = extra@;
            let mut chain = match walk_chain(reader, root_offset) {
                Ok(v) => v,
                Err(e) => {
                    return Err(e);
                },
            };
            let ghost chainview = chain@;
            extra.append(&mut chain);
            proof {
                assert(walk_model(src, root_offset, seq![root_offset], fueln) == Some(chainview));
                assert(prim[pidx as int].offset_start == root_offset);
                assert(chains_model(src, prim, pidx as int + 1, fueln) matches Some(rest)
                    ==> chains_model(src, prim, 0, fueln) == Some(extra@ + rest)) by {
                    if let Option::Some(rest) = chains_model(src, prim, pidx as int + 1, fueln) {
                        assert(chains_model(src, prim, pidx as int, fueln) == Some(
                            chainview + rest,
                        ));
                        assert(base + (chainview + rest) =~= extra@ + rest);
                    }
                }
            }
        } else {
            proof {
                assert(chains_model(src, prim, pidx as int, fueln) == chains_model(
                    src,
                    prim,
                    pidx as int + 1,
                    fueln,
                ));
            }
        }
        pidx = pidx + 1;
    }
    proof {
        assert(chains_model(src, prim, pidx as int, fueln) == Some(Seq::<Partition>::empty()));
        assert(extra@ + Seq::<Partition>::empty() =~= extra@);
        assert(chains_model(src, prim, 0, fueln) == Some(extra@));
    }
    boot.partitions.append(&mut extra);
    proof {
        assert(boot.partitions@ == prim + chains_model(src, prim, 0, fueln).unwrap());
    }
    Ok(boot)
}

} // verus!
