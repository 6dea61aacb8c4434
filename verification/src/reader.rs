//! What is decided about the reader itself: which one is accepted, and when
//! a card counts as inserted or removed.

pub mod connect;
pub mod monitor;
