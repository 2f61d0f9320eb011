//! Decoding a parsed trace into resolved call events.
//!
//! The trace format is delta encoded: cost lines move a running instruction
//! pointer, `fn=` lines open a function context, and call records resolve
//! their origin against the running pointer and their target against that
//! origin. The decoder is a single left-to-right pass, modelled as a fold
//! ([`spec_decode`]) over the parsed line sequence.

use vstd::prelude::*;

verus! {

broadcast use vstd::std_specs::hash::group_hash_axioms;

use std::collections::HashMap;
use crate::valgrind_parser::{
    InstrCounter,
    PositionName,
    SpecPositionName,
    SpecValgrindLine,
    ValgrindLine,
    lines_views,
    spec_resolve,
};
use crate::numtext::{spec_dec_chars, u64_to_dec_string, spec_i64_dec_chars, i64_to_dec_string,
    spec_hex_chars, u64_to_hex_string, str_eq};

/// One dynamically observed call with fully resolved absolute addresses:
/// where it was issued, where it went, the ids of the caller's and the
/// callee's names, and whether the record crossed into another object file.
#[derive(Clone, Copy, Debug, PartialEq, Eq, Structural)]
pub struct RealCall {
    pub from_instr: u64,
    pub to_instr: u64,
    pub in_fn: i64,
    pub target_fn: i64,
    pub does_jump_object_file: bool,
}

/// The display form of a call: `0x<from> -> 0x<to> @ <caller id>`.
pub open spec fn spec_real_call_display(c: RealCall) -> Seq<char> {
    seq!['0', 'x'] + spec_hex_chars(c.from_instr as nat) + seq![' ', '-', '>', ' ', '0', 'x']
        + spec_hex_chars(c.to_instr as nat) + seq![' ', '@', ' '] + spec_i64_dec_chars(c.in_fn)
}

impl RealCall {
    /// Human-readable form of the call, origin and target in hexadecimal.
    pub fn display_string(&self) -> (s: String)
        ensures
            s@ == spec_real_call_display(*self),
    {
        proof {
            reveal_strlit("0x");
            reveal_strlit(" -> 0x");
            reveal_strlit(" @ ");
        }
        let mut s: String = "0x".to_owned();
        let h1 = u64_to_hex_string(self.from_instr);
        s.append(h1.as_str());
        s.append(" -> 0x");
        let h2 = u64_to_hex_string(self.to_instr);
        s.append(h2.as_str());
        s.append(" @ ");
        let d = i64_to_dec_string(self.in_fn);
        s.append(d.as_str());
        proof {
            assert(s@ =~= spec_real_call_display(*self));
        }
        s
    }
}

/// The name cache built while decoding: each numeric id the trace assigns
/// is mapped to its textual name. Ids are also kept in first-assignment
/// order, so that lookups by name are deterministic.
#[derive(Debug, Clone)]
pub struct ValgrindNameCache {
    pub name_cache: HashMap<u64, String>,
    pub insertion_order: Vec<u64>,
}

/// Mathematical model of a [`ValgrindNameCache`].
pub struct SpecNameCache {
    pub names: Map<u64, Seq<char>>,
    pub order: Seq<u64>,
}

/// The character-sequence view of a map of `String` names.
pub open spec fn names_view(m: Map<u64, String>) -> Map<u64, Seq<char>> {
    Map::new(|k: u64| m.contains_key(k), |k: u64| m[k]@)
}

impl View for ValgrindNameCache {
    type V = SpecNameCache;

    open spec fn view(&self) -> SpecNameCache {
        SpecNameCache { names: names_view(self.name_cache@), order: self.insertion_order@ }
    }
}

/// The order list names each cached id exactly once.
pub open spec fn spec_cache_wf(c: SpecNameCache) -> bool {
    &&& c.order.no_duplicates()
    &&& forall|k: u64| c.names.contains_key(k) <==> c.order.contains(k)
}

/// Registering a position name: only a name that carries both an id and a
/// label is cached; a later assignment for the same id overwrites the name
/// but keeps the id's place in the order.
pub open spec fn spec_cache_add(c: SpecNameCache, pn: SpecPositionName) -> SpecNameCache {
    match (pn.number, pn.trailing) {
        (Some(n), Some(t)) => SpecNameCache {
            names: c.names.insert(n, t),
            order: if c.names.contains_key(n) {
                c.order
            } else {
                c.order.push(n)
            },
        },
        _ => c,
    }
}

/// Looking an id up: a cached id yields its name, an unknown id falls back
/// to the id's decimal digits — never an error.
pub open spec fn spec_cache_get(c: SpecNameCache, index: u64) -> Seq<char> {
    if c.names.contains_key(index) {
        c.names[index]
    } else {
        spec_dec_chars(index as nat)
    }
}

/// The first id, in first-assignment order, whose cached name is `name`.
pub open spec fn spec_first_id_with(order: Seq<u64>, names: Map<u64, Seq<char>>, name: Seq<char>)
    -> Option<u64>
    decreases order.len(),
{
    if order.len() == 0 {
        None
    } else if names.contains_key(order[0]) && names[order[0]] == name {
        Some(order[0])
    } else {
        spec_first_id_with(order.drop_first(), names, name)
    }
}

impl ValgrindNameCache {
    pub open spec fn wf(&self) -> bool {
        spec_cache_wf(self@)
    }

    /// An empty cache.
    pub fn new() -> (r: ValgrindNameCache)
        ensures
            r.wf(),
            r@.names == Map::<u64, Seq<char>>::empty(),
            r@.order == Seq::<u64>::empty(),
    {
        let r = ValgrindNameCache { name_cache: HashMap::new(), insertion_order: Vec::new() };
        proof {
            assert(r@.names =~= Map::<u64, Seq<char>>::empty());
        }
        r
    }

    /// Register a position name, as [`spec_cache_add`] says.
    pub(crate) fn add(&mut self, pos: &PositionName)
        requires
            old(self).wf(),
        ensures
            final(self).wf(),
            final(self)@ == spec_cache_add(old(self)@, pos@),
    {
        match (&pos.number, &pos.trailing) {
            (Some(n), Some(name)) => {
                let there = self.name_cache.contains_key(n);
                if !there {
                    self.insertion_order.push(*n);
                }
                self.name_cache.insert(*n, name.clone());
                proof {
                    broadcast use vstd::seq_lib::lemma_seq_contains_after_push;
                    broadcast use vstd::seq_lib::lemma_seq_contains;

                    let oldv = old(self)@;
                    let newv = spec_cache_add(old(self)@, pos@);
                    assert(self@.names =~= newv.names);
                    assert(self@.order == newv.order);
                    assert(self@ == newv);
                    if !there {
                        assert(!oldv.order.contains(*n));
                        assert forall|i: int, j: int|
                            0 <= i < j < self@.order.len() implies self@.order[i]
                            != self@.order[j] by {
                            if j < oldv.order.len() {
                            } else {
                                assert(self@.order[j] == *n);
                                assert(oldv.order[i] == self@.order[i]);
                            }
                        }
                    }
                    assert(self@.order.no_duplicates());
                }
            },
            _ => {},
        }
    }

    /// Look an id up, falling back to its decimal digits.
    pub(crate) fn get(&self, index: u64) -> (r: String)
        ensures
            r@ == spec_cache_get(self@, index),
    {
        match self.name_cache.get(&index) {
            Some(s) => s.clone(),
            None => u64_to_dec_string(index),
        }
    }

    /// The first id, in first-assignment order, whose name is `name`.
    pub fn find_id_of_name(&self, name: &str) -> (r: Option<u64>)
        ensures
            r == spec_first_id_with(self@.order, self@.names, name@),
    {
        let n = self.insertion_order.len();
        let mut i: usize = 0;
        proof {
            assert(self@.order.skip(0) =~= self@.order);
        }
        while i < n
            invariant
                i <= n == self.insertion_order.len(),
                spec_first_id_with(self@.order, self@.names, name@) == spec_first_id_with(
                    self@.order.skip(i as int),
                    self@.names,
                    name@,
                ),
            decreases n - i,
        {
            let id = self.insertion_order[i];
            proof {
                assert(self@.order.skip(i as int)[0] == self@.order[i as int]);
                assert(self@.order.skip(i as int).drop_first() =~= self@.order.skip(i as int + 1));
            }
            match self.name_cache.get(&id) {
                Some(s) => {
                    if str_eq(s.as_str(), name) {
                        return Some(id);
                    }
                },
                None => {},
            }
            i = i + 1;
        }
        proof {
            assert(self@.order.skip(n as int).len() == 0);
        }
        None
    }
}

/// Everything a decoded trace yields: the observed calls in trace order,
/// the id-to-name cache, and for each function id the first instruction
/// address resolved in its context (its base address).
#[derive(Debug, Clone)]
pub struct ValgrindResult {
    pub calls: Vec<RealCall>,
    pub valgrind_name_cache: ValgrindNameCache,
    pub base_address_mapping: HashMap<u64, u64>,
}

/// The decoder's running state, threaded through the fold.
pub struct SpecDecodeState {
    pub curr_index: u64,
    pub curr_fn: u64,
    pub pending_fn: Option<u64>,
    pub cache: SpecNameCache,
    pub bases: Map<u64, u64>,
    pub calls: Seq<RealCall>,
}

pub open spec fn spec_decode_init() -> SpecDecodeState {
    SpecDecodeState {
        curr_index: 0,
        curr_fn: 0,
        pending_fn: None,
        cache: SpecNameCache { names: Map::empty(), order: Seq::empty() },
        bases: Map::empty(),
        calls: Seq::empty(),
    }
}

/// When a function assignment is still waiting for its first address, the
/// address just resolved becomes that function's base address; only the
/// first one counts.
pub open spec fn spec_record_base(bases: Map<u64, u64>, pending: Option<u64>, addr: u64) -> Map<
    u64,
    u64,
> {
    match pending {
        Some(id) => if bases.contains_key(id) {
            bases
        } else {
            bases.insert(id, addr)
        },
        None => bases,
    }
}

/// One decoding step.
///
/// A function assignment registers the name and opens the function context.
/// A bare cost line moves the running pointer. A call record registers the
/// callee's name, resolves its origin against the running pointer (also
/// advancing it) and its target against that origin, and emits a call —
/// unless the record carries no numeric callee id, or one beyond `i64`
/// range: such a record still moves the pointer but emits nothing, as a
/// malformed record is skipped, never fabricated.
pub open spec fn spec_decode_step(st: SpecDecodeState, line: SpecValgrindLine) -> SpecDecodeState {
    match line {
        SpecValgrindLine::FnLine(pn) => SpecDecodeState {
            cache: spec_cache_add(st.cache, pn),
            curr_fn: match pn.number {
                Some(n) => n,
                None => st.curr_fn,
            },
            pending_fn: match pn.number {
                Some(n) => Some(n),
                None => st.pending_fn,
            },
            ..st
        },
        SpecValgrindLine::InstrCounter(c) => {
            let a = spec_resolve(c, st.curr_index);
            SpecDecodeState {
                curr_index: a,
                bases: spec_record_base(st.bases, st.pending_fn, a),
                pending_fn: None,
                ..st
            }
        },
        SpecValgrindLine::CfnLine(cfn) => {
            let from = spec_resolve(cfn.from_instr, st.curr_index);
            let to = spec_resolve(cfn.target_instr, from);
            SpecDecodeState {
                curr_index: from,
                pending_fn: None,
                cache: spec_cache_add(st.cache, cfn.position_name),
                bases: spec_record_base(st.bases, st.pending_fn, from),
                calls: match cfn.position_name.number {
                    Some(tn) => if tn <= i64::MAX {
                        st.calls.push(
                            RealCall {
                                from_instr: from,
                                to_instr: to,
                                in_fn: crate::spec_as_signed64(st.curr_fn),
                                target_fn: tn as i64,
                                does_jump_object_file: cfn.next_object_file is Some,
                            },
                        )
                    } else {
                        st.calls
                    },
                    None => st.calls,
                },
                curr_fn: st.curr_fn,
            }
        },
    }
}

/// The decoder: a left fold of [`spec_decode_step`] over the line sequence.
pub open spec fn spec_decode(lines: Seq<SpecValgrindLine>) -> SpecDecodeState
    decreases lines.len(),
{
    if lines.len() == 0 {
        spec_decode_init()
    } else {
        spec_decode_step(spec_decode(lines.drop_last()), lines.last())
    }
}

/// The decoded structures agree with a decoder state.
pub open spec fn result_matches(r: ValgrindResult, st: SpecDecodeState) -> bool {
    &&& r.calls@ == st.calls
    &&& r.valgrind_name_cache@ == st.cache
    &&& r.base_address_mapping@ == st.bases
}

fn record_base(bases: &mut HashMap<u64, u64>, pending: &mut Option<u64>, addr: u64)
    ensures
        final(bases)@ == spec_record_base(old(bases)@, *old(pending), addr),
        *final(pending) is None,
{
    match *pending {
        Some(id) => {
            if !bases.contains_key(&id) {
                bases.insert(id, addr);
            }
        },
        None => {},
    }
    *pending = None;
}

/// Run the decoder over a parsed line sequence.
pub fn decode_valgrind_lines(lines: &Vec<ValgrindLine>) -> (r: ValgrindResult)
    ensures
        r.valgrind_name_cache.wf(),
        result_matches(r, spec_decode(lines_views(lines@))),
{
    let ghost views = lines_views(lines@);
    let mut cache = ValgrindNameCache::new();
    let mut bases: HashMap<u64, u64> = HashMap::new();
    let mut calls: Vec<RealCall> = Vec::new();
    let mut curr_index: u64 = 0;
    let mut curr_fn: u64 = 0;
    let mut pending: Option<u64> = None;
    proof {
        assert(cache@.names =~= spec_decode(views.take(0)).cache.names);
        assert(cache@.order =~= spec_decode(views.take(0)).cache.order);
        assert(bases@ =~= spec_decode(views.take(0)).bases);
        assert(calls@ =~= spec_decode(views.take(0)).calls);
    }
    let n = lines.len();
    let mut i: usize = 0;
    while i < n
        invariant
            i <= n == lines.len(),
            views == lines_views(lines@),
            cache.wf(),
            cache@ == spec_decode(views.take(i as int)).cache,
            bases@ == spec_decode(views.take(i as int)).bases,
            calls@ == spec_decode(views.take(i as int)).calls,
            curr_index == spec_decode(views.take(i as int)).curr_index,
            curr_fn == spec_decode(views.take(i as int)).curr_fn,
            pending == spec_decode(views.take(i as int)).pending_fn,
        decreases n - i,
    {
        proof {
            assert(views.take(i as int + 1).drop_last() =~= views.take(i as int));
            assert(views.take(i as int + 1).last() == views[i as int]);
            assert(views[i as int] == lines@[i as int]@);
        }
        let line = &lines[i];
        match line {
            ValgrindLine::FnLine(pn) => {
                cache.add(pn);
                match pn.number {
                    Some(nid) => {
                        curr_fn = nid;
                        pending = Some(nid);
                    },
                    None => {},
                }
            },
            ValgrindLine::InstrCounter(c) => {
                let a = c.resolve(curr_index);
                curr_index = a;
                record_base(&mut bases, &mut pending, a);
            },
            ValgrindLine::CfnLine(cfn) => {
                cache.add(&cfn.position_name);
                let from = cfn.from_instr.resolve(curr_index);
                let to = cfn.target_instr.resolve(from);
                record_base(&mut bases, &mut pending, from);
                curr_index = from;
                match cfn.position_name.number {
                    Some(tn) => {
                        if tn <= 0x7fff_ffff_ffff_ffffu64 {
                            calls.push(
                                RealCall {
                                    from_instr: from,
                                    to_instr: to,
                                    in_fn: crate::as_signed64(curr_fn),
                                    target_fn: tn as i64,
                                    does_jump_object_file: cfn.next_object_file.is_some(),
                                },
                            );
                        }
                    },
                    None => {},
                }
            },
        }
        i = i + 1;
    }
    proof {
        assert(views.take(n as int) =~= views);
    }
    ValgrindResult { calls, valgrind_name_cache: cache, base_address_mapping: bases }
}

/// Decode a whole trace text: parse it line by line, then fold the decoder
/// over the recognized lines. Returns the result and how many lines were
/// consumed and discarded. Never fails; a truncated or foreign line is
/// skipped.
pub fn decode_valgrind_output(input: &str) -> (r: (ValgrindResult, usize))
    ensures
        r.0.valgrind_name_cache.wf(),
        result_matches(
            r.0,
            spec_decode(
                crate::valgrind_parser::collect_lines(
                    crate::valgrind_parser::spec_parse_file(input@, 0),
                ),
            ),
        ),
        r.1 == crate::valgrind_parser::count_skips(
            crate::valgrind_parser::spec_parse_file(input@, 0),
        ),
{
    let (lines, skipped) = crate::valgrind_parser::parse_valgrind_file(input);
    let result = decode_valgrind_lines(&lines);
    (result, skipped)
}

impl ValgrindResult {
    /// The caller function's name for a call, by the decoder's name cache;
    /// an id that was never assigned a name shows as its decimal digits.
    pub fn get_function_of_call(&self, call: &RealCall) -> (r: String)
        requires
            call.in_fn >= 0,
        ensures
            r@ == spec_cache_get(self.valgrind_name_cache@, call.in_fn as u64),
    {
        self.valgrind_name_cache.get(call.in_fn as u64)
    }

    /// The callee function's name for a call, by the decoder's name cache;
    /// an id that was never assigned a name shows as its decimal digits.
    pub fn get_target_function_of_call(&self, call: &RealCall) -> (r: String)
        requires
            call.target_fn >= 0,
        ensures
            r@ == spec_cache_get(self.valgrind_name_cache@, call.target_fn as u64),
    {
        self.valgrind_name_cache.get(call.target_fn as u64)
    }
}

} // verus!
