//! A simulator of a pinboard-programmed decimal calculating machine.
//!
//! Programs are wired onto pinboards, one instruction to a position. The
//! machine works on a ten-by-ten memory of twelve-digit decimal words through
//! an accumulator, a secondary accumulator and four single-digit control
//! registers.

pub mod ints;
pub mod pinboards;
pub mod parse;
pub mod policy;
pub mod cpu;
