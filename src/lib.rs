//! Colour codec for sRGB byte triples written as hexadecimal strings
//! (`#RGB` or `#RRGGBB`), the entry point of the ΔE2000 colour-difference
//! pipeline.

pub mod hex;

pub use hex::{hex_to_rgb, rgb_to_hex, HexError};
