//! Card classification: from the answer-to-reset to a technology profile.
//!
//! A card is recognised by the leading bytes of its answer-to-reset. Two
//! signatures are known. Only the first has a profile that can be read.

use vstd::prelude::*;
use crate::errors::ReaderError;

verus! {

/// Leading bytes of the answer-to-reset of a contactless memory card, class A.
pub const ATR_MEMORY_CARD_A: [u8; 6] = [0x3B, 0x8F, 0x80, 0x01, 0x80, 0x4F];

/// Leading bytes of the answer-to-reset of a contactless IC card, class B.
pub const ATR_IC_CARD_B: [u8; 7] = [0xF0, 0x01, 0x02, 0x03, 0x04, 0x05, 0x06];

/// The technology family of a card.
#[derive(Clone, Copy, Debug, PartialEq, Eq, Structural)]
pub enum CardTechnology {
    /// Contactless memory card, class A.
    MemoryCardA,
    /// Contactless IC card, class B; recognised, but it cannot be read.
    IcCardB,
}

/// How a card of one family is addressed: the class and instruction bytes of
/// its read command, the size of one block, and the most bytes that a single
/// read command may ask for.
#[derive(Clone, Copy, Debug, PartialEq, Eq, Structural)]
pub struct TechnologyProfile {
    pub command_class: u8,
    pub read_instruction: u8,
    pub block_size: u8,
    pub max_packet_size: u8,
}

impl TechnologyProfile {
    /// A profile is usable when neither of its two sizes is zero.
    pub open spec fn wf(&self) -> bool {
        self.block_size > 0 && self.max_packet_size > 0
    }

    /// The profile of a contactless memory card, class A.
    pub open spec fn memory_card_a_spec() -> TechnologyProfile {
        TechnologyProfile {
            command_class: 0xff,
            read_instruction: 0x0b,
            block_size: 4,
            max_packet_size: 16,
        }
    }

    /// The profile of a contactless memory card, class A: vendor class
    /// `0xff`, read instruction `0x0b`, blocks of 4 bytes, at most 16 bytes
    /// per read command.
    pub fn memory_card_a() -> (profile: TechnologyProfile)
        ensures
            profile == Self::memory_card_a_spec(),
            profile.wf(),
    {
        TechnologyProfile {
            command_class: 0xff,
            read_instruction: 0x0b,
            block_size: 4,
            max_packet_size: 16,
        }
    }

    /// Tells whether the profile is usable.
    pub fn is_wf(&self) -> (ok: bool)
        ensures
            ok == self.wf(),
    {
        self.block_size > 0 && self.max_packet_size > 0
    }
}

impl CardTechnology {
    /// The profile by which a family is read, where it has one.
    pub open spec fn profile_spec(self) -> Option<TechnologyProfile> {
        match self {
            CardTechnology::MemoryCardA => Some(TechnologyProfile::memory_card_a_spec()),
            CardTechnology::IcCardB => None,
        }
    }

    /// The profile by which a family is read; none for class B.
    pub fn profile(self) -> (profile: Option<TechnologyProfile>)
        ensures
            profile == self.profile_spec(),
            profile matches Some(p) ==> p.wf(),
    {
        match self {
            CardTechnology::MemoryCardA => Some(TechnologyProfile::memory_card_a()),
            CardTechnology::IcCardB => None,
        }
    }
}

/// The family that an answer-to-reset belongs to: decided by its leading
/// bytes alone.
pub open spec fn technology_of(atr: Seq<u8>) -> Option<CardTechnology> {
    if ATR_MEMORY_CARD_A@.is_prefix_of(atr) {
        Some(CardTechnology::MemoryCardA)
    } else if ATR_IC_CARD_B@.is_prefix_of(atr) {
        Some(CardTechnology::IcCardB)
    } else {
        None
    }
}

/// The profile that an answer-to-reset selects, or the failure that it leads
/// to: every answer-to-reset but that of a class A memory card is refused.
pub open spec fn classify_spec(atr: Seq<u8>) -> Result<TechnologyProfile, ReaderError> {
    match technology_of(atr) {
        Some(technology) => match technology.profile_spec() {
            Some(profile) => Ok(profile),
            None => Err(ReaderError::UnsupportedCardType),
        },
        None => Err(ReaderError::UnsupportedCardType),
    }
}

/// Tells whether `bytes` begins with `prefix`.
pub fn starts_with(bytes: &[u8], prefix: &[u8]) -> (found: bool)
    ensures
        found == prefix@.is_prefix_of(bytes@),
{
    if prefix.len() > bytes.len() {
        return false;
    }
    let mut i: usize = 0;
    while i < prefix.len()
        invariant
            i <= prefix.len() <= bytes.len(),
            forall|j: int| 0 <= j < i ==> prefix@[j] == bytes@[j],
        decreases prefix.len() - i,
    {
        if prefix[i] != bytes[i] {
            assert(prefix@[i as int] != bytes@.subrange(0, prefix@.len() as int)[i as int]);
            return false;
        }
        i += 1;
    }
    assert(prefix@ =~= bytes@.subrange(0, prefix@.len() as int));
    true
}

/// Names the family of the card that gave this answer-to-reset.
pub fn identify(atr: &[u8]) -> (technology: Option<CardTechnology>)
    ensures
        technology == technology_of(atr@),
{
    if starts_with(atr, ATR_MEMORY_CARD_A.as_slice()) {
        Some(CardTechnology::MemoryCardA)
    } else if starts_with(atr, ATR_IC_CARD_B.as_slice()) {
        Some(CardTechnology::IcCardB)
    } else {
        None
    }
}

/// Selects the profile for the card that gave this answer-to-reset.
///
/// The result depends on the bytes alone, and they are only read: the same
/// answer-to-reset always selects the same profile.
pub fn classify(atr: &[u8]) -> (outcome: Result<TechnologyProfile, ReaderError>)
    ensures
        outcome == classify_spec(atr@),
        outcome matches Ok(profile) ==> profile.wf(),
{
    match identify(atr) {
        Some(technology) => match technology.profile() {
            Some(profile) => Ok(profile),
            None => Err(ReaderError::UnsupportedCardType),
        },
        None => Err(ReaderError::UnsupportedCardType),
    }
}

/// Classification looks at no byte beyond the longest signature: two
/// answers-to-reset that agree on their first seven bytes select the same
/// profile.
pub proof fn lemma_classification_reads_prefix_only(first: Seq<u8>, second: Seq<u8>)
    requires
        first.len() >= 7,
        second.len() >= 7,
        first.take(7) == second.take(7),
    ensures
        technology_of(first) == technology_of(second),
        classify_spec(first) == classify_spec(second),
{
    assert forall|s: Seq<u8>, t: Seq<u8>, p: Seq<u8>|
        s.len() >= 7 && t.len() >= 7 && s.take(7) == t.take(7) && p.len() <= 7
            && #[trigger] p.is_prefix_of(s) implies #[trigger] p.is_prefix_of(t) by {
        assert forall|j: int| 0 <= j < p.len() implies p[j] == t.subrange(0, p.len() as int)[j] by {
            assert(p[j] == s.subrange(0, p.len() as int)[j]);
            assert(s[j] == s.take(7)[j]);
            assert(t[j] == t.take(7)[j]);
        }
        assert(p =~= t.subrange(0, p.len() as int));
    }
    assert(ATR_MEMORY_CARD_A@.len() == 6);
    assert(ATR_IC_CARD_B@.len() == 7);
}

} // verus!
