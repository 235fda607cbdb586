//! A deterministic 2-D scalar-field diffusion engine.
//!
//! A square grid of IEEE-754 double-precision values is created from a
//! 64-bit seed, advanced by discrete diffusion steps with periodic
//! boundaries, and read back as metadata, a canonical SHA-256 digest, or a
//! rectangular window of values.
//!
//! Every cell is held as the 64-bit IEEE-754 bit pattern of its value, so
//! that the engine's logic is stated and verified over plain integers; the
//! floating-point operations themselves are performed by a software
//! implementation of IEEE-754 binary64 arithmetic that rounds to nearest,
//! ties to even, exactly as hardware doubles do.

pub mod float_bits;
pub mod rng;
pub mod engine;
pub mod reader;
pub mod api;
