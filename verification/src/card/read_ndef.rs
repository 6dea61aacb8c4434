//! Reading the default range of a card: every data block of its first
//! sixteen sectors.
//!
//! A sector holds four blocks. The last block of each sector is its trailer
//! and block 0 holds manufacturer data; neither is read. What is left is
//! read block by block, sixteen bytes each, in ascending order.

use vstd::prelude::*;
use crate::apdu::KEY_TYPE_B;
use crate::card::classify::{classify, classify_spec};
use crate::card::engine::{BlockReader, ReadOutcome, ReadState, ReadStep};
use crate::card::plan::PhysicalRead;

verus! {

/// Number of sectors that the default range spans.
pub const SECTOR_COUNT: u16 = 16;

/// Number of blocks in a sector, its trailer included.
pub const BLOCKS_PER_SECTOR: u16 = 4;

/// Number of bytes in one block of the default range.
pub const DATA_BLOCK_LENGTH: u8 = 16;

/// Number of blocks in the default range.
pub const DATA_BLOCK_COUNT: usize = 47;

/// A block belongs to the default range when it lies in the first sixteen
/// sectors and is neither block 0 nor a sector trailer.
pub open spec fn is_data_block(block: int) -> bool {
    0 < block < SECTOR_COUNT * BLOCKS_PER_SECTOR && block % (BLOCKS_PER_SECTOR as int)
        != BLOCKS_PER_SECTOR - 1
}

/// The block at position `position` of the default range.
pub open spec fn data_block_at(position: int) -> int {
    ((position + 1) / 3) * 4 + (position + 1) % 3
}

/// The physical reads of the default range.
pub open spec fn default_range_spec() -> Seq<PhysicalRead> {
    Seq::new(
        DATA_BLOCK_COUNT as nat,
        |i: int| PhysicalRead { block: data_block_at(i) as u16, length: DATA_BLOCK_LENGTH },
    )
}

/// How the read of the default range begins on the card that gave `atr`: as
/// a failure where the card is of no readable family, and else as the
/// exchange over the default range with key B.
pub open spec fn read_ndef_spec(atr: Seq<u8>) -> ReadOutcome {
    match classify_spec(atr) {
        Ok(profile) => ReadState::begin(
            profile.command_class,
            profile.read_instruction,
            KEY_TYPE_B,
            default_range_spec(),
        ),
        Err(e) => ReadOutcome::Failed(e),
    }
}

/// The default range holds each data block once, in ascending order, and
/// nothing else.
pub proof fn lemma_default_range_is_the_data_blocks()
    ensures
        forall|i: int|
            0 <= i < default_range_spec().len() ==> is_data_block(
                (#[trigger] default_range_spec()[i]).block as int,
            ),
        forall|i: int, j: int|
            0 <= i < j < default_range_spec().len() ==> (#[trigger] default_range_spec()[i]).block
                < (#[trigger] default_range_spec()[j]).block,
        forall|block: int|
            is_data_block(block) ==> exists|i: int|
                0 <= i < default_range_spec().len() && (#[trigger] default_range_spec()[i]).block
                    == block,
{
    assert forall|i: int, j: int| 0 <= i < j < default_range_spec().len() implies (
    #[trigger] default_range_spec()[i]).block < (#[trigger] default_range_spec()[j]).block by {
        assert(data_block_at(i) < data_block_at(j));
    }
    assert forall|block: int| is_data_block(block) implies exists|i: int|
        0 <= i < default_range_spec().len() && (#[trigger] default_range_spec()[i]).block
            == block by {
        let i = (block / 4) * 3 + block % 4 - 1;
        assert(data_block_at(i) == block);
        assert(default_range_spec()[i].block == block);
    }
}

/// Lists the physical reads of the default range.
pub fn default_range() -> (plan: Vec<PhysicalRead>)
    ensures
        plan@ == default_range_spec(),
{
    let mut plan: Vec<PhysicalRead> = Vec::new();
    let mut sector: u16 = 0;
    while sector < SECTOR_COUNT
        invariant
            sector <= SECTOR_COUNT,
            plan@.len() == if sector == 0 {
                0int
            } else {
                sector * 3 - 1
            },
            forall|i: int| 0 <= i < plan@.len() ==> plan@[i] == default_range_spec()[i],
        decreases SECTOR_COUNT - sector,
    {
        let mut offset: u16 = 0;
        while offset < BLOCKS_PER_SECTOR - 1
            invariant
                sector < SECTOR_COUNT,
                offset <= BLOCKS_PER_SECTOR - 1,
                plan@.len() == if sector == 0 && offset == 0 {
                    0int
                } else {
                    sector * 3 + offset - 1
                },
                forall|i: int| 0 <= i < plan@.len() ==> plan@[i] == default_range_spec()[i],
            decreases BLOCKS_PER_SECTOR - 1 - offset,
        {
            let block: u16 = sector * BLOCKS_PER_SECTOR + offset;
            if block != 0 {
                assert(data_block_at(plan@.len() as int) == block);
                plan.push(PhysicalRead { block, length: DATA_BLOCK_LENGTH });
            }
            offset += 1;
        }
        sector += 1;
    }
    assert(plan@ =~= default_range_spec());
    plan
}

/// Begins the read of the default range from the card that gave `atr`.
pub fn read_ndef(atr: &[u8]) -> (step: ReadStep)
    ensures
        step@ == read_ndef_spec(atr@),
        step.wf(),
        !(step is Done),
{
    match classify(atr) {
        Ok(profile) => BlockReader::begin(&profile, KEY_TYPE_B, default_range()),
        Err(e) => ReadStep::Failed(e),
    }
}

} // verus!
