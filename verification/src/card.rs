//! What is decided once a card is present: its profile, the reads that a
//! request comes to, and the exchange that carries them out.

pub mod classify;
pub mod engine;
pub mod model;
pub mod plan;
pub mod read;
pub mod read_ndef;
