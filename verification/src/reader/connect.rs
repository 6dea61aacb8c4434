//! Reader selection: which of the connected readers a session is opened on.
//!
//! Only the first reader that the transport lists is looked at, and it is
//! accepted only if its name shows it to be of the supported model.

use vstd::prelude::*;
use vstd::string::StringSliceAdditionalSpecFns;
use vstd::slice::slice_to_vec;
use crate::errors::ReaderError;

verus! {

/// The bytes `ACR122`, which the name of a supported reader contains.
pub const SUPPORTED_MODEL: [u8; 6] = [0x41, 0x43, 0x52, 0x31, 0x32, 0x32];

/// `needle` occurs in `hay` as a run of consecutive bytes.
pub open spec fn occurs_in(needle: Seq<u8>, hay: Seq<u8>) -> bool {
    exists|i: int| occurs_at(needle, hay, i)
}

/// `needle` occurs in `hay` at position `i`.
pub open spec fn occurs_at(needle: Seq<u8>, hay: Seq<u8>, i: int) -> bool {
    0 <= i && i + needle.len() <= hay.len() && hay.subrange(i, i + needle.len()) == needle
}

/// A reader is of the supported model when the bytes of its name contain the
/// model's.
pub open spec fn is_supported_reader(name: Seq<char>) -> bool {
    occurs_in(SUPPORTED_MODEL@, vstd::utf8::encode_utf8(name))
}

/// The reader that a session is opened on, or why there is none: no reader
/// at all, or a first reader of another model, named in the failure.
pub open spec fn connect_spec(readers: Seq<String>) -> Result<String, ReaderError> {
    if readers.len() == 0 {
        Err(ReaderError::NoReadersFound)
    } else if is_supported_reader(readers[0]@) {
        Ok(readers[0])
    } else {
        Err(ReaderError::UnsupportedReader(readers[0]))
    }
}

/// A reader name can be handed to the transport when none of its bytes is
/// zero: the transport takes names as zero-terminated strings.
pub open spec fn is_encodable_name(name: Seq<char>) -> bool {
    !vstd::utf8::encode_utf8(name).contains(0u8)
}

/// Tells whether `needle` occurs in `hay` at position `at`.
fn matches_at(hay: &[u8], needle: &[u8], at: usize) -> (found: bool)
    requires
        at + needle.len() <= hay.len(),
    ensures
        found == occurs_at(needle@, hay@, at as int),
{
    let mut j: usize = 0;
    while j < needle.len()
        invariant
            j <= needle.len(),
            at + needle.len() <= hay.len(),
            forall|k: int| 0 <= k < j ==> hay@[at + k] == needle@[k],
        decreases needle.len() - j,
    {
        if hay[at + j] != needle[j] {
            assert(hay@.subrange(at as int, at + needle@.len())[j as int] != needle@[j as int]);
            return false;
        }
        j += 1;
    }
    assert(hay@.subrange(at as int, at + needle@.len()) =~= needle@);
    true
}

/// Tells whether `needle` occurs anywhere in `hay`.
pub fn contains_bytes(hay: &[u8], needle: &[u8]) -> (found: bool)
    ensures
        found == occurs_in(needle@, hay@),
{
    if needle.len() > hay.len() {
        return false;
    }
    let last: usize = hay.len() - needle.len();
    let mut i: usize = 0;
    while i < last
        invariant
            i <= last,
            last == hay.len() - needle.len(),
            needle.len() <= hay.len(),
            forall|k: int| 0 <= k < i ==> !occurs_at(needle@, hay@, k),
        decreases last - i,
    {
        if matches_at(hay, needle, i) {
            return true;
        }
        i += 1;
    }
    matches_at(hay, needle, last)
}

/// Tells whether a reader name shows the supported model.
pub fn is_supported(name: &str) -> (supported: bool)
    ensures
        supported == is_supported_reader(name@),
{
    contains_bytes(name.as_bytes(), SUPPORTED_MODEL.as_slice())
}

/// Selects the reader to work with from the names that the transport lists.
///
/// Fails with `NoReadersFound` on an empty list. Else the first name decides:
/// it is returned if it shows the supported model, and it fails the
/// selection with `UnsupportedReader` if it does not.
pub fn connect(readers: &Vec<String>) -> (outcome: Result<String, ReaderError>)
    ensures
        outcome == connect_spec(readers@),
{
    if readers.len() == 0 {
        return Err(ReaderError::NoReadersFound);
    }
    let name = readers[0].clone();
    if is_supported(name.as_str()) {
        Ok(name)
    } else {
        Err(ReaderError::UnsupportedReader(name))
    }
}

/// Puts a reader name into the bytes that the transport takes, without the
/// terminating zero. Fails with `InvalidReaderName` exactly when the name
/// holds a zero byte.
pub fn encode_reader_name(name: &str) -> (outcome: Result<Vec<u8>, ReaderError>)
    ensures
        match outcome {
            Ok(bytes) => is_encodable_name(name@) && bytes@ == vstd::utf8::encode_utf8(name@),
            Err(e) => !is_encodable_name(name@) && e == ReaderError::InvalidReaderName,
        },
{
    let bytes = name.as_bytes();
    let mut i: usize = 0;
    while i < bytes.len()
        invariant
            i <= bytes.len(),
            bytes@ == vstd::utf8::encode_utf8(name@),
            forall|k: int| 0 <= k < i ==> bytes@[k] != 0u8,
        decreases bytes.len() - i,
    {
        if bytes[i] == 0 {
            assert(bytes@[i as int] == 0u8);
            return Err(ReaderError::InvalidReaderName);
        }
        i += 1;
    }
    Ok(slice_to_vec(bytes))
}

/// A session with one reader of the supported model. It holds the reader's
/// name and nothing about any card.
pub struct RusticReader {
    reader: String,
}

impl RusticReader {
    #[verifier::type_invariant]
    spec fn inv(self) -> bool {
        is_supported_reader(self.reader@)
    }

    /// The name of the session's reader.
    pub closed spec fn name(self) -> String {
        self.reader
    }

    /// Opens a session on the reader that `connect` selects from `readers`,
    /// and fails as `connect` does where it selects none.
    pub fn new(readers: &Vec<String>) -> (outcome: Result<RusticReader, ReaderError>)
        ensures
            match outcome {
                Ok(session) => connect_spec(readers@) == Ok::<String, ReaderError>(session.name()),
                Err(e) => connect_spec(readers@) == Err::<String, ReaderError>(e),
            },
    {
        match connect(readers) {
            Ok(reader) => Ok(RusticReader { reader }),
            Err(e) => Err(e),
        }
    }

    /// The name of the session's reader.
    pub fn reader_name(&self) -> (name: &String)
        ensures
            *name == self.name(),
            is_supported_reader(name@),
    {
        proof {
            use_type_invariant(self);
        }
        &self.reader
    }

    /// The reader's name as the transport takes it.
    pub fn transport_name(&self) -> (outcome: Result<Vec<u8>, ReaderError>)
        ensures
            match outcome {
                Ok(bytes) => is_encodable_name(self.name()@) && bytes@ == vstd::utf8::encode_utf8(
                    self.name()@,
                ),
                Err(e) => !is_encodable_name(self.name()@) && e == ReaderError::InvalidReaderName,
            },
    {
        encode_reader_name(self.reader.as_str())
    }
}

} // verus!
