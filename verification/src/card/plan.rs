//! Read planning: from a logical request to the physical reads that serve it.
//!
//! A request names a start block and a length in bytes. One read command
//! carries at most the profile's packet size. A request within that limit is
//! one physical read. A longer one is cut into consecutive chunks of the
//! packet size, the last one holding what is left, and the block address of
//! each chunk is derived from its byte offset and the profile's block size.

use vstd::prelude::*;
use vstd::arithmetic::div_mod::{lemma_div_is_ordered, lemma_fundamental_div_mod, lemma_mod_bound};
use vstd::arithmetic::mul::lemma_mul_inequality;
use crate::card::classify::TechnologyProfile;

verus! {

/// One read command's worth of work: `length` bytes starting at `block`.
#[derive(Clone, Copy, Debug, PartialEq, Eq, Structural)]
pub struct PhysicalRead {
    pub block: u16,
    pub length: u8,
}

/// Number of chunks that a request of `length` bytes is cut into: `length`
/// divided by the packet size, rounded up.
pub open spec fn chunk_count(length: int, max_packet: int) -> int
    recommends
        max_packet > 0,
{
    (length + max_packet - 1) / max_packet
}

/// Block address of chunk `index`: the start block advanced by the whole
/// blocks that lie before the chunk's byte offset.
pub open spec fn chunk_block(start: int, index: int, max_packet: int, block_size: int) -> int
    recommends
        block_size > 0,
{
    start + (index * max_packet) / block_size
}

/// Length of chunk `index`: the packet size for every chunk but the last,
/// which holds the rest.
pub open spec fn chunk_length(length: int, index: int, max_packet: int) -> int {
    if index + 1 < chunk_count(length, max_packet) {
        max_packet
    } else {
        length - index * max_packet
    }
}

/// A request is addressable when the block address of each of its chunks
/// fits in sixteen bits. A request within the packet size always is.
pub open spec fn addressable(profile: TechnologyProfile, start: u16, length: u8) -> bool {
    length <= profile.max_packet_size || chunk_block(
        start as int,
        chunk_count(length as int, profile.max_packet_size as int) - 1,
        profile.max_packet_size as int,
        profile.block_size as int,
    ) <= u16::MAX
}

/// The physical reads that serve a request, in the order in which they are
/// carried out.
pub open spec fn plan_spec(profile: TechnologyProfile, start: u16, length: u8) -> Seq<
    PhysicalRead,
> {
    if length <= profile.max_packet_size {
        seq![PhysicalRead { block: start, length }]
    } else {
        Seq::new(
            chunk_count(length as int, profile.max_packet_size as int) as nat,
            |i: int|
                PhysicalRead {
                    block: chunk_block(
                        start as int,
                        i,
                        profile.max_packet_size as int,
                        profile.block_size as int,
                    ) as u16,
                    length: chunk_length(length as int, i, profile.max_packet_size as int) as u8,
                },
        )
    }
}

/// Byte address at which a physical read begins on a card whose blocks hold
/// `block_size` bytes.
pub open spec fn byte_address(read: PhysicalRead, block_size: int) -> int {
    read.block as int * block_size
}

/// The chunks of a request cover it: all but the last are full, and the last
/// begins inside the request and ends with it.
pub proof fn lemma_chunk_count_bounds(length: int, max_packet: int)
    requires
        max_packet > 0,
        length > 0,
    ensures
        chunk_count(length, max_packet) >= 1,
        (chunk_count(length, max_packet) - 1) * max_packet < length,
        length <= chunk_count(length, max_packet) * max_packet,
{
    let x = length + max_packet - 1;
    let c = x / max_packet;
    lemma_fundamental_div_mod(x, max_packet);
    lemma_mod_bound(x, max_packet);
    assert(c * max_packet == max_packet * c) by (nonlinear_arith);
    assert((c - 1) * max_packet == c * max_packet - max_packet) by (nonlinear_arith);
    assert(c >= 1) by (nonlinear_arith)
        requires
            c * max_packet >= length,
            length > 0,
            max_packet > 0,
    ;
}

/// Chunk `index` of a request begins inside the request, has a length
/// between one byte and the packet size, and its block address is no higher
/// than that of the last chunk.
pub proof fn lemma_chunk_in_request(
    start: int,
    length: int,
    max_packet: int,
    block_size: int,
    index: int,
)
    requires
        max_packet > 0,
        block_size > 0,
        length > 0,
        0 <= index < chunk_count(length, max_packet),
    ensures
        0 <= index * max_packet < length,
        0 < chunk_length(length, index, max_packet) <= max_packet,
        index * max_packet + chunk_length(length, index, max_packet) <= length,
        index + 1 == chunk_count(length, max_packet) ==> index * max_packet + chunk_length(
            length,
            index,
            max_packet,
        ) == length,
        start <= chunk_block(start, index, max_packet, block_size) <= chunk_block(
            start,
            chunk_count(length, max_packet) - 1,
            max_packet,
            block_size,
        ),
{
    let c = chunk_count(length, max_packet);
    lemma_chunk_count_bounds(length, max_packet);
    lemma_mul_inequality(index, c - 1, max_packet);
    lemma_mul_inequality(0, index, max_packet);
    lemma_div_is_ordered(index * max_packet, (c - 1) * max_packet, block_size);
    lemma_div_is_ordered(0, index * max_packet, block_size);
    if index + 1 < c {
        lemma_mul_inequality(index + 1, c - 1, max_packet);
        assert((index + 1) * max_packet == index * max_packet + max_packet) by (nonlinear_arith);
    } else {
        assert(c * max_packet == (c - 1) * max_packet + max_packet) by (nonlinear_arith);
    }
}

/// Where the packet size is a multiple of the block size, the chunks of a
/// split request tile it: chunk `index` begins at byte `index` times the
/// packet size of the request, so each chunk begins where the one before it
/// ends, the first begins where the request begins and the last ends where it
/// ends. Nothing is left out, read twice or read out of order.
pub proof fn lemma_plan_tiles_request(profile: TechnologyProfile, start: u16, length: u8)
    requires
        profile.wf(),
        length > profile.max_packet_size,
        profile.max_packet_size % profile.block_size == 0,
        addressable(profile, start, length),
    ensures
        ({
            let plan = plan_spec(profile, start, length);
            let bs = profile.block_size as int;
            let mps = profile.max_packet_size as int;
            &&& plan.len() == chunk_count(length as int, mps)
            &&& plan.len() >= 2
            &&& forall|i: int|
                0 <= i < plan.len() ==> byte_address(#[trigger] plan[i], bs) == byte_address(
                    PhysicalRead { block: start, length },
                    bs,
                ) + i * mps
            &&& forall|i: int| 0 <= i < plan.len() - 1 ==> (#[trigger] plan[i]).length == mps
            &&& forall|i: int|
                0 <= i < plan.len() - 1 ==> byte_address(#[trigger] plan[i + 1], bs)
                    == byte_address(plan[i], bs) + plan[i].length
            &&& byte_address(plan.last(), bs) + plan.last().length == byte_address(
                PhysicalRead { block: start, length },
                bs,
            ) + length
            &&& plan.last().length > 0
        }),
{
    let plan = plan_spec(profile, start, length);
    let bs = profile.block_size as int;
    let mps = profile.max_packet_size as int;
    let c = chunk_count(length as int, mps);
    lemma_chunk_count_bounds(length as int, mps);
    assert(c >= 2) by (nonlinear_arith)
        requires
            length <= c * mps,
            length > mps,
            mps > 0,
    ;
    assert forall|i: int| 0 <= i < plan.len() implies byte_address(#[trigger] plan[i], bs)
        == start * bs + i * mps && plan[i].length == chunk_length(length as int, i, mps) by {
        lemma_chunk_in_request(start as int, length as int, mps, bs, i);
        lemma_whole_blocks(i, mps, bs);
        assert((start + (i * mps) / bs) * bs == start * bs + ((i * mps) / bs) * bs)
            by (nonlinear_arith);
    }
    assert forall|i: int| 0 <= i < plan.len() - 1 implies byte_address(#[trigger] plan[i + 1], bs)
        == byte_address(plan[i], bs) + plan[i].length by {
        assert((i + 1) * mps == i * mps + mps) by (nonlinear_arith);
    }
    lemma_chunk_in_request(start as int, length as int, mps, bs, c - 1);
}

/// A whole number of packets is a whole number of blocks where the packet
/// size is a multiple of the block size.
proof fn lemma_whole_blocks(index: int, max_packet: int, block_size: int)
    requires
        index >= 0,
        max_packet > 0,
        block_size > 0,
        max_packet % block_size == 0,
    ensures
        ((index * max_packet) / block_size) * block_size == index * max_packet,
{
    let q = max_packet / block_size;
    lemma_fundamental_div_mod(max_packet, block_size);
    assert(max_packet == block_size * q);
    assert(index * max_packet == (index * q) * block_size) by (nonlinear_arith)
        requires
            max_packet == block_size * q,
    ;
    vstd::arithmetic::div_mod::lemma_div_by_multiple(index * q, block_size);
    assert(index * q >= 0) by (nonlinear_arith)
        requires
            index >= 0,
            q >= 0,
    ;
}

/// Tells whether a request is addressable under a profile.
pub fn is_addressable(profile: &TechnologyProfile, start: u16, length: u8) -> (ok: bool)
    requires
        profile.wf(),
    ensures
        ok == addressable(*profile, start, length),
{
    if length <= profile.max_packet_size {
        return true;
    }
    let mps: u32 = profile.max_packet_size as u32;
    let bs: u32 = profile.block_size as u32;
    let count: u32 = (length as u32 + mps - 1) / mps;
    proof {
        lemma_chunk_count_bounds(length as int, mps as int);
    }
    let last_offset: u32 = (count - 1) * mps;
    let last_block: u32 = start as u32 + last_offset / bs;
    last_block <= 0xFFFF
}

/// Cuts a request into the physical reads that serve it.
///
/// A request of at most the packet size, one of length zero included, is
/// passed on as a single read. A longer one is cut into chunks.
pub fn plan_read(profile: &TechnologyProfile, start: u16, length: u8) -> (plan: Vec<PhysicalRead>)
    requires
        profile.wf(),
        addressable(*profile, start, length),
    ensures
        plan@ == plan_spec(*profile, start, length),
        plan@.len() >= 1,
{
    let mut plan: Vec<PhysicalRead> = Vec::new();
    if length <= profile.max_packet_size {
        plan.push(PhysicalRead { block: start, length });
        assert(plan@ =~= plan_spec(*profile, start, length));
        return plan;
    }
    let mps: u16 = profile.max_packet_size as u16;
    let bs: u16 = profile.block_size as u16;
    let count: u16 = (length as u16 + mps - 1) / mps;
    proof {
        lemma_chunk_count_bounds(length as int, mps as int);
    }
    let mut i: u16 = 0;
    while i < count
        invariant
            profile.wf(),
            length > profile.max_packet_size,
            addressable(*profile, start, length),
            mps == profile.max_packet_size,
            bs == profile.block_size,
            count == chunk_count(length as int, mps as int),
            count >= 1,
            i <= count,
            plan@.len() == i,
            forall|j: int| 0 <= j < i ==> plan@[j] == plan_spec(*profile, start, length)[j],
        decreases count - i,
    {
        proof {
            lemma_chunk_in_request(start as int, length as int, mps as int, bs as int, i as int);
        }
        let offset: u16 = i * mps;
        let block: u16 = start + offset / bs;
        let size: u8 = if i + 1 < count {
            profile.max_packet_size
        } else {
            (length as u16 - offset) as u8
        };
        plan.push(PhysicalRead { block, length: size });
        i += 1;
    }
    assert(plan@ =~= plan_spec(*profile, start, length));
    plan
}

} // verus!
