//! Cross-validation of a static call-graph analysis against a dynamically
//! observed execution trace.
//!
//! The crate decodes the line-oriented, delta-encoded trace format written by
//! an instruction-level profiler, aggregates the call edges reported by a
//! static analyzer, and reconciles the two: every dynamically observed target
//! of a statically flagged indirect call site should be contained in the
//! statically predicted target set for that site.

pub mod cwe_checker;
pub mod load_from_callee_csv;
pub mod numtext;
pub mod soudness_test;
pub mod valgrind;
pub mod valgrind_parser;

use vstd::prelude::*;

verus! {

/// Reinterpretation of a `u64` as an `i64`, two's complement.
pub open spec fn spec_as_signed64(x: u64) -> i64 {
    if x > i64::MAX {
        (x - 0x1_0000_0000_0000_0000) as i64
    } else {
        x as i64
    }
}

/// Executable two's-complement reinterpretation, proved against
/// [`spec_as_signed64`].
pub fn as_signed64(x: u64) -> (r: i64)
    ensures
        r == spec_as_signed64(x),
{
    if x > 0x7fff_ffff_ffff_ffffu64 {
        let hi: u64 = x - 0x8000_0000_0000_0000u64;
        let r: i64 = (hi as i64) + (-0x7fff_ffff_ffff_ffffi64 - 1);
        r
    } else {
        x as i64
    }
}

/// Wrapping subtraction of a signed offset from an address, modulo 2^64.
///
/// The static analysis and the trace name addresses in their own address
/// spaces; rebasing subtracts the load offset that separates the two.
pub open spec fn spec_sub_offset(addr: u64, offset: i64) -> u64 {
    vstd::wrapping::u64_specs::wrapping_sub(
        addr,
        if offset >= 0 {
            offset as u64
        } else {
            (offset + 0x1_0000_0000_0000_0000) as u64
        },
    )
}

/// Rebase a trace address into the static analysis's address space.
pub fn sub_offset(addr: u64, offset: i64) -> (r: u64)
    ensures
        r == spec_sub_offset(addr, offset),
{
    if offset >= 0 {
        addr.wrapping_sub(offset as u64)
    } else {
        let mag: u64 = if offset == i64::MIN {
            0x8000_0000_0000_0000u64
        } else {
            (-offset) as u64
        };
        let r = addr.wrapping_add(mag);
        proof {
            let big: u64 = (offset + 0x1_0000_0000_0000_0000) as u64;
            assert(mag + big == 0x1_0000_0000_0000_0000);
            assert(r == vstd::wrapping::u64_specs::wrapping_sub(addr, big));
        }
        r
    }
}

} // verus!
