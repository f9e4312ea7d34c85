//! Verified core of an input-method switcher.
//!
//! The library covers the logic of reading and changing the active input
//! method of a desktop session: parsing a key chord into an event batch,
//! extracting a normalized state token from indicator labels, and the
//! bounded poll/resend confirmation engine that drives an asynchronous,
//! externally observed switch to a requested target state.
//!
//! Everything that touches the operating system (injecting events, walking
//! the live accessibility tree, sleeping) stays outside; the library works
//! on plain values handed in by that outer layer.

pub mod chord;
pub mod controller;
pub mod error;
pub mod locale;
pub mod pattern;
pub mod platform;
pub mod probe;
pub mod text;
