//! Command frames and status words of the reader's vendor command set.
//!
//! A command is a short fixed-layout byte sequence. A response ends in a
//! two-byte status word, most significant byte first; whatever precedes it is
//! payload. A response of fewer than two bytes has no status word at all.

use vstd::prelude::*;
use vstd::slice::slice_subrange;
use crate::errors::ReaderError;

verus! {

/// Class byte of the reader's vendor commands.
pub const VENDOR_CLASS: u8 = 0xff;

/// Instruction byte of the authenticate command.
pub const INS_AUTHENTICATE: u8 = 0x86;

/// Key type byte that selects key A.
pub const KEY_TYPE_A: u8 = 0x60;

/// Key type byte that selects key B.
pub const KEY_TYPE_B: u8 = 0x61;

/// The status word that reports success.
pub const STATUS_SUCCESS: u16 = 0x9000;

/// Length in bytes of an authenticate command.
pub const AUTHENTICATE_COMMAND_LEN: usize = 10;

/// Length in bytes of a read command.
pub const READ_COMMAND_LEN: usize = 5;

/// The status word of a response: its last two bytes read as a big-endian
/// number, or nothing where the response is too short to hold one.
pub open spec fn status_word(response: Seq<u8>) -> Option<u16> {
    if response.len() < 2 {
        None
    } else {
        Some(
            (response[response.len() - 2] as int * 256 + response[response.len() - 1] as int) as u16,
        )
    }
}

/// The bytes of a response that precede its status word.
pub open spec fn payload(response: Seq<u8>) -> Seq<u8>
    recommends
        response.len() >= 2,
{
    response.take(response.len() - 2)
}

/// A response counts as success exactly when it holds a status word and that
/// word is `0x9000`.
pub open spec fn succeeded(response: Seq<u8>) -> bool {
    status_word(response) == Some(STATUS_SUCCESS)
}

/// The authenticate command for `block` with the key slot `key_type`.
///
/// Bytes 6 and 7 carry the block address, most significant byte first, as the
/// PC/SC general-authenticate layout has it.
pub open spec fn authenticate_command_spec(block: u16, key_type: u8) -> Seq<u8> {
    seq![
        VENDOR_CLASS,
        INS_AUTHENTICATE,
        0x00u8,
        0x00u8,
        0x05u8,
        0x01u8,
        (block / 256) as u8,
        (block % 256) as u8,
        key_type,
        0x00u8,
    ]
}

/// The read command that asks for `length` bytes starting at `block`.
pub open spec fn read_command_spec(class: u8, instruction: u8, block: u16, length: u8) -> Seq<u8> {
    seq![class, instruction, (block / 256) as u8, (block % 256) as u8, length]
}

/// What an authenticate response amounts to.
pub open spec fn authentication_outcome(response: Seq<u8>) -> Result<(), ReaderError> {
    if succeeded(response) {
        Ok(())
    } else {
        Err(ReaderError::AuthenticationFailed)
    }
}

/// What a read response amounts to.
pub open spec fn read_outcome(response: Seq<u8>) -> Result<Seq<u8>, ReaderError> {
    if succeeded(response) {
        Ok(payload(response))
    } else {
        Err(ReaderError::ReadFailed)
    }
}

/// A response succeeds exactly when it has at least two bytes and ends in
/// `0x90 0x00`.
pub proof fn lemma_success_is_trailing_9000(response: Seq<u8>)
    ensures
        succeeded(response) <==> (response.len() >= 2 && response[response.len() - 2] == 0x90
            && response[response.len() - 1] == 0x00),
{
}

/// Decodes the status word of a response.
pub fn decode_status_word(response: &[u8]) -> (word: Option<u16>)
    ensures
        word == status_word(response@),
{
    let n = response.len();
    if n < 2 {
        None
    } else {
        let hi: u16 = response[n - 2] as u16;
        let lo: u16 = response[n - 1] as u16;
        Some(hi * 256 + lo)
    }
}

/// Tells whether a response reports success.
pub fn is_success(response: &[u8]) -> (ok: bool)
    ensures
        ok == succeeded(response@),
{
    match decode_status_word(response) {
        Some(word) => word == STATUS_SUCCESS,
        None => false,
    }
}

/// Builds the ten-byte authenticate command for `block`.
pub fn authenticate_command(block: u16, key_type: u8) -> (command: Vec<u8>)
    ensures
        command@ == authenticate_command_spec(block, key_type),
{
    let hi: u8 = (block / 256) as u8;
    let lo: u8 = (block % 256) as u8;
    let command = vec![
        VENDOR_CLASS,
        INS_AUTHENTICATE,
        0x00u8,
        0x00u8,
        0x05u8,
        0x01u8,
        hi,
        lo,
        key_type,
        0x00u8,
    ];
    assert(command@ =~= authenticate_command_spec(block, key_type));
    command
}

/// Builds the five-byte read command for `length` bytes at `block`.
pub fn read_command(class: u8, instruction: u8, block: u16, length: u8) -> (command: Vec<u8>)
    ensures
        command@ == read_command_spec(class, instruction, block, length),
{
    let hi: u8 = (block / 256) as u8;
    let lo: u8 = (block % 256) as u8;
    let command = vec![class, instruction, hi, lo, length];
    assert(command@ =~= read_command_spec(class, instruction, block, length));
    command
}

/// Judges an authenticate response: success only on status word `0x9000`;
/// any other word, and any response too short to hold one, is a failed
/// authentication.
pub fn check_authentication(response: &[u8]) -> (outcome: Result<(), ReaderError>)
    ensures
        outcome == authentication_outcome(response@),
{
    if is_success(response) {
        Ok(())
    } else {
        Err(ReaderError::AuthenticationFailed)
    }
}

/// Judges a read response: on status word `0x9000` the payload, every byte
/// but the trailing two; on any other word, and on a response too short to
/// hold one, a failed read.
pub fn extract_payload(response: &[u8]) -> (outcome: Result<Vec<u8>, ReaderError>)
    ensures
        match outcome {
            Ok(data) => read_outcome(response@) == Ok::<Seq<u8>, ReaderError>(data@),
            Err(e) => read_outcome(response@) == Err::<Seq<u8>, ReaderError>(e),
        },
{
    if is_success(response) {
        let body = slice_subrange(response, 0, response.len() - 2);
        let mut data: Vec<u8> = Vec::new();
        data.extend_from_slice(body);
        assert(data@ =~= payload(response@));
        Ok(data)
    } else {
        Err(ReaderError::ReadFailed)
    }
}

} // verus!
