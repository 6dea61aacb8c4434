//! Reading a window of a card: the block read engine's entry points.

use vstd::prelude::*;
use crate::apdu::KEY_TYPE_A;
use crate::card::classify::{classify, classify_spec, TechnologyProfile};
use crate::card::engine::{BlockReader, ReadOutcome, ReadState, ReadStep};
use crate::card::plan::{addressable, plan_read, plan_spec};

verus! {

/// Number of bytes that `read_block` reads.
pub const BLOCK_READ_LENGTH: u8 = 16;

/// How the read of `length` bytes from `start_block` begins: as the exchange
/// over the physical reads that the request is cut into.
pub open spec fn read_spec(profile: TechnologyProfile, key_type: u8, start_block: u16, length: u8)
    -> ReadOutcome {
    ReadState::begin(
        profile.command_class,
        profile.read_instruction,
        key_type,
        plan_spec(profile, start_block, length),
    )
}

/// How the read of one window at `block_number` begins on the card that gave
/// `atr`: as a failure where the card is of no readable family, so that no
/// command is ever sent to it, and else as the read of sixteen bytes with
/// key A under the card's profile.
pub open spec fn read_block_spec(atr: Seq<u8>, block_number: u16) -> ReadOutcome {
    match classify_spec(atr) {
        Ok(profile) => read_spec(profile, KEY_TYPE_A, block_number, BLOCK_READ_LENGTH),
        Err(e) => ReadOutcome::Failed(e),
    }
}

/// Begins the read of `length` bytes from `start_block`.
///
/// The first step always asks for a transmission: the authenticate command
/// for the first physical read. A length of zero is not refused; it is
/// passed on to the card as a read command that asks for no bytes.
pub fn read(profile: &TechnologyProfile, key_type: u8, start_block: u16, length: u8) -> (step:
    ReadStep)
    requires
        profile.wf(),
        addressable(*profile, start_block, length),
    ensures
        step@ == read_spec(*profile, key_type, start_block, length),
        step.wf(),
        step is Transmit,
{
    let plan = plan_read(profile, start_block, length);
    BlockReader::begin(profile, key_type, plan)
}

/// Begins the read of one window of sixteen bytes at `block_number` from the
/// card that gave `atr`.
pub fn read_block(atr: &[u8], block_number: u16) -> (step: ReadStep)
    ensures
        step@ == read_block_spec(atr@, block_number),
        step.wf(),
        !(step is Done),
{
    match classify(atr) {
        Ok(profile) => read(&profile, KEY_TYPE_A, block_number, BLOCK_READ_LENGTH),
        Err(e) => ReadStep::Failed(e),
    }
}

} // verus!
