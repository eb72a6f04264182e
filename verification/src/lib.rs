//! A minimal CHIP-8-style virtual machine: a 16-register file, 4 KiB of
//! byte-addressable memory, a 16-slot call stack, and a fetch-decode-execute
//! loop over 16-bit big-endian instruction words.
//!
//! The supported instructions are halt (the all-zero word), register addition
//! with a carry flag, subroutine call, and subroutine return.  Every fault the
//! interpreter can hit (stack overflow, stack underflow, an unrecognized
//! opcode, a fetch outside memory) is reported as an explicit error value.

pub mod laws;
pub mod machine;
pub mod model;
pub mod opcode;
