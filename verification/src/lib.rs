//! A typed bit-packing engine: carve a fixed-width unsigned integer into
//! named, non-overlapping bit ranges ("fields"), attach a logical value type
//! to each range, and convert between the raw integer and the typed fields
//! losslessly.
//!
//! The raw word is held as a `u64`; a bitfield type narrower than 64 bits
//! records its width in each of its field descriptors, so the same verified
//! engine serves 8-, 16-, 32- and 64-bit bitfields.

pub mod example;
pub mod from_bits;
pub mod interrupt;
pub mod pack;
pub mod registry;
pub mod render;
pub mod value;
