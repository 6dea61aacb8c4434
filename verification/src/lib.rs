//! Protocol engine for reading contactless cards through an ACR122 reader.
//!
//! The crate holds the decisions of the protocol and none of its transport:
//! which reader is accepted, when a card counts as inserted, which profile an
//! answer-to-reset selects, which commands are sent in which order, and how
//! each response is judged. A caller performs the exchanges and hands the
//! results back.

pub mod apdu;
pub mod card;
pub mod errors;
pub mod reader;

pub use card::classify::{classify, CardTechnology, TechnologyProfile};
pub use card::engine::{BlockReader, ReadStep};
pub use card::plan::PhysicalRead;
pub use card::read;
pub use card::read::read_block;
pub use card::read_ndef::read_ndef;
pub use errors::{ReaderError, TransportError};
pub use reader::connect::{connect, encode_reader_name, RusticReader};
pub use reader::monitor::{PresenceEvent, PresenceMonitor, PresenceState, StatusReport};
