//! A backpressure-aware byte pump between a host-side byte stream and a
//! serial link.
//!
//! The core is [`pump::Pump`]: it drives bytes between a [`endpoint::ByteSource`]
//! or [`endpoint::ByteSink`] and a [`link::SerialLink`] while respecting the
//! link's hardware FIFO occupancy, an optional total-byte limit, and the
//! presence or absence of a blocking read timeout. In-memory endpoints and an
//! in-memory link live in [`mem`]; adapters over real devices and streams are
//! left to the embedding program.

pub mod endpoint;
pub mod link;
pub mod mem;
pub mod pump;
