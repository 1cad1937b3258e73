//! A verified interpreter for the Universal Machine: a 32-bit register
//! virtual machine with eight registers, dynamically allocated arrays of
//! 32-bit words, and a program array that can be replaced at run time.
//!
//! The machine consumes a program image given as bytes (big-endian words),
//! a byte input channel given up front as a buffer, and produces a byte
//! output buffer.  The host is expected to supply the buffers and perform
//! the actual file and stream transport.

pub mod errors;
pub mod instructions;
pub mod machine;
pub mod semantics;
