//! A turn-based cave-exploration game engine behind a foreign-call-ready
//! boundary: the engine, its action/response types, a byte-level codec for
//! the exchange format, and a guarded state container whose operations keep
//! the most recent response and outbound string.

pub mod boundary;
pub mod engine;
pub mod events;
pub mod json;
pub mod rng;
