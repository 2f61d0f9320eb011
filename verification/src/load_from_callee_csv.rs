//! Loading observed calls from a pre-extracted table of callee rows.
//!
//! An external batch extractor writes one row per observed call: the origin
//! address in hexadecimal, the target address in hexadecimal, and the name
//! of the object file the call was seen in. Rows are filtered to one
//! binary's name and rebased by a fixed load offset; the result feeds the
//! same reconciliation as a decoded trace, with an empty name cache.

use vstd::prelude::*;

verus! {

use crate::valgrind::{RealCall, ValgrindNameCache, ValgrindResult};
use crate::valgrind_parser::{spec_parse_hex64, parse_hex64_at};
use crate::numtext::str_to_char_vec;

/// The fixed offset the extractor's addresses are rebased by.
pub const CSV_LOAD_OFFSET: u64 = 0x400000;

/// `"0x"` followed by hexadecimal digits.
pub open spec fn spec_parse_hex_prefixed(s: Seq<char>, pos: int) -> Option<(u64, int)> {
    if pos + 2 <= s.len() && s[pos] == '0' && s[pos + 1] == 'x' {
        spec_parse_hex64(s, pos + 2)
    } else {
        None
    }
}

/// Parse a `0x`-prefixed hexadecimal address at the start of the input;
/// trailing text is left unconsumed.
pub fn parse_hex(input: &str) -> (r: Option<(u64, usize)>)
    ensures
        r is None ==> spec_parse_hex_prefixed(input@, 0) is None,
        r matches Some(v) ==> spec_parse_hex_prefixed(input@, 0) == Some((v.0, v.1 as int)),
{
    let chars = str_to_char_vec(input);
    if chars.len() >= 2 && chars[0] == '0' && chars[1] == 'x' {
        parse_hex64_at(&chars, 2)
    } else {
        None
    }
}

/// The origin and target addresses one row denotes, when both parse.
pub open spec fn spec_row_addresses(row: (String, String, String)) -> Option<(u64, u64)> {
    match (spec_parse_hex_prefixed(row.0@, 0), spec_parse_hex_prefixed(row.1@, 0)) {
        (Some((f, _)), Some((t, _))) => Some((f, t)),
        _ => None,
    }
}

/// The calls a row sequence denotes for one binary: every row must parse;
/// rows of other binaries are dropped; addresses are rebased by
/// [`CSV_LOAD_OFFSET`], modulo 2^64. `None` when any row is malformed.
pub open spec fn spec_rows_calls(rows: Seq<(String, String, String)>, name: Seq<char>) -> Option<
    Seq<RealCall>,
>
    decreases rows.len(),
{
    if rows.len() == 0 {
        Some(Seq::empty())
    } else {
        match spec_rows_calls(rows.drop_last(), name) {
            None => None,
            Some(cs) => match spec_row_addresses(rows.last()) {
                None => None,
                Some((f, t)) => if rows.last().2@ == name {
                    Some(
                        cs.push(
                            RealCall {
                                from_instr: vstd::wrapping::u64_specs::wrapping_add(
                                    f,
                                    CSV_LOAD_OFFSET,
                                ),
                                to_instr: vstd::wrapping::u64_specs::wrapping_add(
                                    t,
                                    CSV_LOAD_OFFSET,
                                ),
                                in_fn: 0,
                                target_fn: 0,
                                does_jump_object_file: false,
                            },
                        ),
                    )
                } else {
                    Some(cs)
                },
            },
        }
    }
}

/// A malformed row anywhere makes the whole row sequence malformed.
proof fn lemma_rows_calls_none_prefix(rows: Seq<(String, String, String)>, name: Seq<char>, i: int)
    requires
        0 <= i <= rows.len(),
        spec_rows_calls(rows.take(i), name) is None,
    ensures
        spec_rows_calls(rows, name) is None,
    decreases rows.len(),
{
    if i == rows.len() {
        assert(rows.take(i) =~= rows);
    } else {
        assert(rows.drop_last().take(i) =~= rows.take(i));
        lemma_rows_calls_none_prefix(rows.drop_last(), name, i);
    }
}

/// Turn extracted callee rows into an observed-call result for one binary,
/// as [`spec_rows_calls`] says: `None` when a row's addresses do not
/// parse, otherwise the matching rows' calls in row order, rebased, with
/// an empty name cache and no base addresses.
pub fn load_callee_from_rows(rows: &Vec<(String, String, String)>, binary_name: &str) -> (r:
    Option<ValgrindResult>)
    ensures
        match r {
            None => spec_rows_calls(rows@, binary_name@) is None,
            Some(v) => {
                &&& spec_rows_calls(rows@, binary_name@) == Some(v.calls@)
                &&& v.valgrind_name_cache.wf()
                &&& v.valgrind_name_cache@.names == Map::<u64, Seq<char>>::empty()
                &&& v.valgrind_name_cache@.order == Seq::<u64>::empty()
                &&& v.base_address_mapping@ == Map::<u64, u64>::empty()
            },
        },
{
    let mut calls: Vec<RealCall> = Vec::new();
    let n = rows.len();
    let mut i: usize = 0;
    proof {
        assert(rows@.take(0) =~= Seq::<(String, String, String)>::empty());
    }
    while i < n
        invariant
            i <= n == rows.len(),
            spec_rows_calls(rows@.take(i as int), binary_name@) == Some(calls@),
        decreases n - i,
    {
        proof {
            assert(rows@.take(i as int + 1).drop_last() =~= rows@.take(i as int));
            assert(rows@.take(i as int + 1).last() == rows@[i as int]);
        }
        let from = match parse_hex(rows[i].0.as_str()) {
            Some(v) => v.0,
            None => {
                proof {
                    assert(spec_rows_calls(rows@.take(i as int + 1), binary_name@) is None);
                    lemma_rows_calls_none_prefix(rows@, binary_name@, i as int + 1);
                }
                return None;
            },
        };
        let to = match parse_hex(rows[i].1.as_str()) {
            Some(v) => v.0,
            None => {
                proof {
                    assert(spec_rows_calls(rows@.take(i as int + 1), binary_name@) is None);
                    lemma_rows_calls_none_prefix(rows@, binary_name@, i as int + 1);
                }
                return None;
            },
        };
        if crate::numtext::str_eq(rows[i].2.as_str(), binary_name) {
            calls.push(
                RealCall {
                    from_instr: from.wrapping_add(CSV_LOAD_OFFSET),
                    to_instr: to.wrapping_add(CSV_LOAD_OFFSET),
                    in_fn: 0,
                    target_fn: 0,
                    does_jump_object_file: false,
                },
            );
        }
        i = i + 1;
    }
    proof {
        assert(rows@.take(n as int) =~= rows@);
    }
    let cache = ValgrindNameCache::new();
    let bases: std::collections::HashMap<u64, u64> = std::collections::HashMap::new();
    Some(ValgrindResult { calls, valgrind_name_cache: cache, base_address_mapping: bases })
}

} // verus!
