//! Fixed-width numeric values on a byte channel that delivers or accepts
//! bytes in arbitrary partial chunks.
//!
//! The crate has three layers:
//!
//! - [`endian`] names the byte orderings a value can be laid out in.
//! - [`codec`] is the pure byte-order codec: it maps a numeric value to its
//!   wire bytes under an ordering and back, for every supported width, with
//!   proved round-trip and truncation laws.
//! - [`decode`] and [`encode`] hold the resumable accumulators: state
//!   machines that gather or flush one fixed-width buffer across any number
//!   of partial transfers and suspensions, fed by the caller with one channel
//!   event at a time. The surrounding runtime performs the actual I/O and
//!   hands each result in as an event; the accumulators decide everything
//!   else.

pub mod codec;
pub mod decode;
pub mod encode;
pub mod endian;
pub mod io;
