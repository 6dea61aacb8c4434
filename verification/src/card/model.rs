//! What an exchange comes to against a card, and why cutting a request into
//! chunks does not change what is read.
//!
//! Nothing here runs. A card is modelled as a function from commands to
//! answers, an exchange is played against it to its end, and the laws of the
//! read engine are stated and proved over that.

use vstd::prelude::*;
use crate::apdu::{payload, succeeded, READ_COMMAND_LEN};
use crate::card::classify::TechnologyProfile;
use crate::card::engine::{lemma_step_makes_progress, ReadOutcome, ReadState};
use crate::card::plan::{
    addressable,
    byte_address,
    chunk_count,
    lemma_chunk_in_request,
    lemma_plan_tiles_request,
    plan_spec,
    PhysicalRead,
};
use crate::errors::{ReaderError, TransportError};

verus! {

/// Plays an exchange against `card` from `state` to its end: each pending
/// command is answered by the card, and the answer decides how the exchange
/// goes on. The result is the bytes read, or the failure that ended it.
pub open spec fn run(
    state: ReadState,
    card: spec_fn(Seq<u8>) -> Result<Seq<u8>, TransportError>,
) -> Result<Seq<u8>, ReaderError>
    recommends
        state.wf(),
    decreases state.remaining_exchanges(),
{
    if !state.wf() {
        Err(ReaderError::ReadFailed)
    } else {
        match state.step(card(state.pending_command())) {
            ReadOutcome::Transmit(next) => run(next, card),
            ReadOutcome::Done(data) => Ok(data),
            ReadOutcome::Failed(e) => Err(e),
        }
    }
}

/// Plays an exchange against `card` from its first step.
pub open spec fn run_from(
    outcome: ReadOutcome,
    card: spec_fn(Seq<u8>) -> Result<Seq<u8>, TransportError>,
) -> Result<Seq<u8>, ReaderError> {
    match outcome {
        ReadOutcome::Transmit(state) => run(state, card),
        ReadOutcome::Done(data) => Ok(data),
        ReadOutcome::Failed(e) => Err(e),
    }
}

/// What a memory card answers to one command.
///
/// The card holds `memory`, laid out in blocks of `block_size` bytes. A read
/// command names a block and a length; the card answers with that many bytes
/// from the start of the block and the status word `0x9000`, or with a
/// status word of refusal where the range leaves its memory. It accepts
/// every authentication.
pub open spec fn memory_card_response(memory: Seq<u8>, block_size: int, command: Seq<u8>) -> Seq<
    u8,
> {
    if command.len() == READ_COMMAND_LEN {
        let address = (command[2] as int * 256 + command[3] as int) * block_size;
        let length = command[4] as int;
        if address + length <= memory.len() {
            memory.subrange(address, address + length) + seq![0x90u8, 0x00u8]
        } else {
            seq![0x6Au8, 0x82u8]
        }
    } else {
        seq![0x90u8, 0x00u8]
    }
}

/// A memory card as an exchange sees it.
pub open spec fn memory_card(memory: Seq<u8>, block_size: int) -> spec_fn(Seq<u8>) -> Result<
    Seq<u8>,
    TransportError,
> {
    |command: Seq<u8>| Ok(memory_card_response(memory, block_size, command))
}

/// The bytes that the reads of `plan` from position `from` on take out of a
/// memory card, in plan order; nothing where one of them leaves the memory.
pub open spec fn plan_bytes(plan: Seq<PhysicalRead>, from: int, memory: Seq<u8>, block_size: int)
    -> Option<Seq<u8>>
    decreases plan.len() - from,
{
    if from < 0 || from >= plan.len() {
        Some(Seq::empty())
    } else {
        let address = byte_address(plan[from], block_size);
        let length = plan[from].length as int;
        if address + length > memory.len() {
            None
        } else {
            match plan_bytes(plan, from + 1, memory, block_size) {
                Some(rest) => Some(memory.subrange(address, address + length) + rest),
                None => None,
            }
        }
    }
}

/// One physical read against a memory card: the authentication is accepted,
/// and the read either adds its range of the memory to the bytes read or
/// fails the exchange.
proof fn lemma_run_one_read(state: ReadState, memory: Seq<u8>, block_size: int)
    requires
        state.wf(),
        !state.authenticated,
        block_size > 0,
    ensures
        ({
            let card = memory_card(memory, block_size);
            let address = byte_address(state.current(), block_size);
            let length = state.current().length as int;
            let data = state.data + memory.subrange(address, address + length);
            let next = ReadState { index: state.index + 1, authenticated: false, data, ..state };
            if address + length > memory.len() {
                run(state, card) == Err::<Seq<u8>, ReaderError>(ReaderError::ReadFailed)
            } else if state.index + 1 < state.plan.len() {
                run(state, card) == run(next, card)
            } else {
                run(state, card) == Ok::<Seq<u8>, ReaderError>(data)
            }
        }),
{
    let card = memory_card(memory, block_size);
    let read = state.current();
    let address = byte_address(read, block_size);
    let length = read.length as int;

    let first = state.pending_command();
    assert(first.len() == 10);
    let accepted = memory_card_response(memory, block_size, first);
    assert(card(first) == Ok::<Seq<u8>, TransportError>(accepted));
    assert(succeeded(accepted));
    let authenticated = ReadState { authenticated: true, ..state };
    assert(state.step(card(first)) == ReadOutcome::Transmit(authenticated));
    assert(run(state, card) == run(authenticated, card));

    let second = authenticated.pending_command();
    assert(second.len() == 5);
    assert(second[2] as int * 256 + second[3] as int == read.block as int);
    assert(second[4] == read.length);
    let answer = memory_card_response(memory, block_size, second);
    assert(card(second) == Ok::<Seq<u8>, TransportError>(answer));
    if address + length > memory.len() {
        assert(!succeeded(answer));
    } else {
        let range = memory.subrange(address, address + length);
        assert(answer == range + seq![0x90u8, 0x00u8]);
        assert(answer.len() == length + 2);
        assert(answer[answer.len() - 2] == 0x90u8);
        assert(answer[answer.len() - 1] == 0x00u8);
        assert(succeeded(answer));
        assert(payload(answer) =~= range);
    }
}

/// Against a memory card an exchange reads exactly the ranges that its plan
/// names, in plan order, after the bytes that it has read already; it fails
/// the read where one of those ranges leaves the memory.
pub proof fn lemma_run_reads_plan(state: ReadState, memory: Seq<u8>, block_size: int)
    requires
        state.wf(),
        !state.authenticated,
        block_size > 0,
    ensures
        run(state, memory_card(memory, block_size)) == match plan_bytes(
            state.plan,
            state.index,
            memory,
            block_size,
        ) {
            Some(bytes) => Ok::<Seq<u8>, ReaderError>(state.data + bytes),
            None => Err::<Seq<u8>, ReaderError>(ReaderError::ReadFailed),
        },
    decreases state.plan.len() - state.index,
{
    let address = byte_address(state.current(), block_size);
    let length = state.current().length as int;
    lemma_run_one_read(state, memory, block_size);
    if address + length <= memory.len() {
        let range = memory.subrange(address, address + length);
        if state.index + 1 < state.plan.len() {
            let next = ReadState {
                index: state.index + 1,
                authenticated: false,
                data: state.data + range,
                ..state
            };
            lemma_run_reads_plan(next, memory, block_size);
            match plan_bytes(state.plan, state.index + 1, memory, block_size) {
                Some(rest) => {
                    assert((state.data + range) + rest =~= state.data + (range + rest));
                },
                None => {},
            }
        } else {
            assert(plan_bytes(state.plan, state.index + 1, memory, block_size) == Some(
                Seq::<u8>::empty(),
            ));
            assert(state.data + range =~= state.data + (range + Seq::<u8>::empty()));
        }
    }
}

/// The chunks of a split request, from chunk `from` on, take out of a memory
/// card what lies between the start of that chunk and the end of the
/// request.
proof fn lemma_split_plan_bytes(
    profile: TechnologyProfile,
    start: u16,
    length: u8,
    memory: Seq<u8>,
    from: int,
)
    requires
        profile.wf(),
        length > profile.max_packet_size,
        profile.max_packet_size % profile.block_size == 0,
        addressable(profile, start, length),
        0 <= from < chunk_count(length as int, profile.max_packet_size as int),
    ensures
        ({
            let bs = profile.block_size as int;
            let origin = start as int * bs;
            let end = origin + length;
            plan_bytes(plan_spec(profile, start, length), from, memory, bs) == if end
                <= memory.len() {
                Some(memory.subrange(origin + from * profile.max_packet_size, end))
            } else {
                None
            }
        }),
    decreases chunk_count(length as int, profile.max_packet_size as int) - from,
{
    let bs = profile.block_size as int;
    let mps = profile.max_packet_size as int;
    let plan = plan_spec(profile, start, length);
    let origin = start as int * bs;
    let end = origin + length;
    lemma_plan_tiles_request(profile, start, length);
    let address = byte_address(plan[from], bs);
    let size = plan[from].length as int;
    assert(address == origin + from * mps);
    if from + 1 < plan.len() {
        lemma_split_plan_bytes(profile, start, length, memory, from + 1);
        lemma_chunk_in_request(start as int, length as int, mps, bs, from + 1);
        assert(byte_address(plan[from + 1], bs) == address + size);
        if end <= memory.len() {
            assert(memory.subrange(address, address + size) + memory.subrange(address + size, end)
                =~= memory.subrange(address, end));
        }
    } else {
        assert(plan[from] == plan.last());
        assert(plan_bytes(plan, from + 1, memory, bs) == Some(Seq::<u8>::empty()));
        if end <= memory.len() {
            assert(memory.subrange(address, end) + Seq::<u8>::empty() =~= memory.subrange(
                address,
                end,
            ));
        }
    }
}

/// Chunking is transparent. Take a request longer than the packet size,
/// under a profile whose packet size is a multiple of its block size. Played
/// against any memory card, the exchange over the chunks of the request and
/// the exchange over one read command for the whole request come to the same
/// result: the bytes of the requested range, once each and in order, where
/// the range lies in the card's memory, and a failed read where it does not.
pub proof fn lemma_chunking_is_transparent(
    profile: TechnologyProfile,
    key_type: u8,
    start: u16,
    length: u8,
    memory: Seq<u8>,
)
    requires
        profile.wf(),
        length > profile.max_packet_size,
        profile.max_packet_size % profile.block_size == 0,
        addressable(profile, start, length),
    ensures
        ({
            let card = memory_card(memory, profile.block_size as int);
            let split = ReadState::begin(
                profile.command_class,
                profile.read_instruction,
                key_type,
                plan_spec(profile, start, length),
            );
            let unsplit = ReadState::begin(
                profile.command_class,
                profile.read_instruction,
                key_type,
                seq![PhysicalRead { block: start, length }],
            );
            let origin = start as int * profile.block_size;
            &&& run_from(split, card) == run_from(unsplit, card)
            &&& run_from(split, card) == if origin + length <= memory.len() {
                Ok::<Seq<u8>, ReaderError>(memory.subrange(origin, origin + length))
            } else {
                Err::<Seq<u8>, ReaderError>(ReaderError::ReadFailed)
            }
        }),
{
    let bs = profile.block_size as int;
    let card = memory_card(memory, bs);
    let origin = start as int * bs;
    let end = origin + length;

    let plan = plan_spec(profile, start, length);
    lemma_plan_tiles_request(profile, start, length);
    let first = ReadState {
        command_class: profile.command_class,
        read_instruction: profile.read_instruction,
        key_type,
        plan,
        index: 0,
        authenticated: false,
        data: Seq::empty(),
    };
    lemma_run_reads_plan(first, memory, bs);
    lemma_split_plan_bytes(profile, start, length, memory, 0);
    assert(origin + 0 * (profile.max_packet_size as int) == origin);

    let whole = seq![PhysicalRead { block: start, length }];
    let only = ReadState {
        command_class: profile.command_class,
        read_instruction: profile.read_instruction,
        key_type,
        plan: whole,
        index: 0,
        authenticated: false,
        data: Seq::empty(),
    };
    lemma_run_reads_plan(only, memory, bs);
    assert(plan_bytes(whole, 1, memory, bs) == Some(Seq::<u8>::empty()));
    if end <= memory.len() {
        let range = memory.subrange(origin, end);
        assert(Seq::<u8>::empty() + range =~= range);
        assert(Seq::<u8>::empty() + (range + Seq::<u8>::empty()) =~= range);
    }
}

/// An exchange against any card ends in the bytes read or in one of three
/// failures: what the transport reported, a failed authentication or a
/// failed read.
pub proof fn lemma_run_fails_only_three_ways(
    state: ReadState,
    card: spec_fn(Seq<u8>) -> Result<Seq<u8>, TransportError>,
)
    requires
        state.wf(),
    ensures
        run(state, card) matches Err(e) ==> e is TransportError || e
            == ReaderError::AuthenticationFailed || e == ReaderError::ReadFailed,
    decreases state.remaining_exchanges(),
{
    let response = card(state.pending_command());
    lemma_step_makes_progress(state, response);
    match state.step(response) {
        ReadOutcome::Transmit(next) => {
            lemma_run_fails_only_three_ways(next, card);
        },
        _ => {},
    }
}

} // verus!
