//! Reconciling the static call graph with the observed trace.
//!
//! The two sides name addresses in different address spaces, so an offset is
//! computed first, by locating a function named `main` on both sides. Each
//! observed call is then classified: out of scope unless its rebased origin
//! is a statically flagged indirect call site; excluded when its enclosing
//! function is the runtime-startup trampoline or when it crosses object
//! files; otherwise checked against the static target set — sound when the
//! rebased target is predicted, unsound when it is not, and missing when the
//! static graph has no prediction for the site at all.

use vstd::prelude::*;

verus! {

use crate::cwe_checker::{CweCheckerResult, FunctionEntry};
use crate::valgrind::{RealCall, ValgrindResult, spec_first_id_with};
use crate::numtext::{str_eq, spec_i64_dec_chars, i64_to_dec_string};
use crate::{spec_sub_offset, sub_offset, spec_as_signed64, as_signed64};

/// The numeric outcome of a reconciliation run.
#[derive(Debug, Clone, PartialEq, Eq, Structural)]
pub struct SoundnessReport {
    pub checked_calls: i64,
    pub sound_calls: i64,
}

impl SoundnessReport {
    /// The report as a CSV line: checked calls, a comma, sound calls.
    pub fn to_csvline(self: Self) -> (s: String)
        ensures
            s@ == spec_i64_dec_chars(self.checked_calls) + seq![','] + spec_i64_dec_chars(
                self.sound_calls,
            ),
    {
        proof {
            reveal_strlit(",");
        }
        let mut s = i64_to_dec_string(self.checked_calls);
        s.append(",");
        let t = i64_to_dec_string(self.sound_calls);
        s.append(t.as_str());
        proof {
            assert(s@ =~= spec_i64_dec_chars(self.checked_calls) + seq![','] + spec_i64_dec_chars(
                self.sound_calls,
            ));
        }
        s
    }

    /// The global verdict of the run that produced this report: unsound
    /// when some checked call was not sound (it was contradicted or had no
    /// prediction at all).
    pub fn is_unsound(&self) -> (r: bool)
        ensures
            r == (self.sound_calls < self.checked_calls),
    {
        self.sound_calls < self.checked_calls
    }
}

/// How the engine judges one observed call.
#[derive(Debug, Clone, Copy, PartialEq, Eq, Structural)]
pub enum CallClassification {
    /// The rebased origin is not a statically flagged indirect call site.
    OutOfScope,
    /// The enclosing function is the runtime-startup trampoline.
    StartupExcluded,
    /// The record crossed into another object file.
    CrossObjectExcluded,
    /// The static graph has no prediction for the site.
    MissingCallsite,
    /// The rebased target is among the predicted targets.
    Sound,
    /// The site has predictions, but not the observed target.
    Unsound,
}

/// A classification that counts toward `checked_calls`.
pub open spec fn is_checked(c: CallClassification) -> bool {
    match c {
        CallClassification::MissingCallsite => true,
        CallClassification::Sound => true,
        CallClassification::Unsound => true,
        _ => false,
    }
}

/// The recognized function enclosing an address: among the functions whose
/// entry address is strictly below it, one with the greatest address — the
/// earliest listed when several share it.
pub open spec fn spec_enclosing_function(funcs: Seq<FunctionEntry>, addr: u64) -> Option<
    (u64, Seq<char>),
>
    decreases funcs.len(),
{
    if funcs.len() == 0 {
        None
    } else {
        let prev = spec_enclosing_function(funcs.drop_last(), addr);
        let f = funcs.last();
        if f.address < addr && (prev is None || f.address > prev.unwrap().0) {
            Some((f.address, f.name@))
        } else {
            prev
        }
    }
}

/// The entry address of the first listed function named `main`, if any.
pub open spec fn spec_static_main_address(funcs: Seq<FunctionEntry>) -> Option<u64>
    decreases funcs.len(),
{
    if funcs.len() == 0 {
        None
    } else if funcs[0].name@ == "main"@ {
        Some(funcs[0].address)
    } else {
        spec_static_main_address(funcs.drop_first())
    }
}

/// The alignment offset between the trace's and the analysis's address
/// spaces: the difference of the two `main` addresses, modulo 2^64. When
/// `main` cannot be located on either side — or its trace id never
/// resolved an address — the offset degrades to zero.
pub open spec fn spec_offset_of(cwe: CweCheckerResult, trace: ValgrindResult) -> i64 {
    match spec_static_main_address(cwe.metadata.functions@) {
        None => 0,
        Some(sa) => match spec_first_id_with(
            trace.valgrind_name_cache@.order,
            trace.valgrind_name_cache@.names,
            "main"@,
        ) {
            None => 0,
            Some(id) => if trace.base_address_mapping@.contains_key(id) {
                spec_as_signed64(
                    vstd::wrapping::u64_specs::wrapping_sub(trace.base_address_mapping@[id], sa),
                )
            } else {
                0
            },
        },
    }
}

/// The classification of one observed call against the static graph, for a
/// given alignment offset.
pub open spec fn spec_classify(cwe: CweCheckerResult, call: RealCall, offset: i64)
    -> CallClassification {
    let site = spec_sub_offset(call.from_instr, offset);
    if !cwe.metadata.indirect_call_sites@.contains(site) {
        CallClassification::OutOfScope
    } else {
        let is_startup = match spec_enclosing_function(cwe.metadata.functions@, site) {
            Some(e) => e.1 == "__libc_csu_init"@,
            None => false,
        };
        if is_startup {
            CallClassification::StartupExcluded
        } else if call.does_jump_object_file {
            CallClassification::CrossObjectExcluded
        } else if !cwe.call_hash_map_by_call_site@.contains_key(site) {
            CallClassification::MissingCallsite
        } else if cwe.call_hash_map_by_call_site@[site].targets@.contains(
            spec_sub_offset(call.to_instr, offset),
        ) {
            CallClassification::Sound
        } else {
            CallClassification::Unsound
        }
    }
}

/// How many calls of a sequence are checked (sound, unsound or missing).
pub open spec fn spec_count_checked(cwe: CweCheckerResult, calls: Seq<RealCall>, offset: i64)
    -> nat
    decreases calls.len(),
{
    if calls.len() == 0 {
        0
    } else {
        spec_count_checked(cwe, calls.drop_last(), offset) + if is_checked(
            spec_classify(cwe, calls.last(), offset),
        ) {
            1nat
        } else {
            0nat
        }
    }
}

/// How many calls of a sequence are sound.
pub open spec fn spec_count_sound(cwe: CweCheckerResult, calls: Seq<RealCall>, offset: i64) -> nat
    decreases calls.len(),
{
    if calls.len() == 0 {
        0
    } else {
        spec_count_sound(cwe, calls.drop_last(), offset) + if spec_classify(
            cwe,
            calls.last(),
            offset,
        ) == CallClassification::Sound {
            1nat
        } else {
            0nat
        }
    }
}

/// Sound calls are checked calls, so the sound count never exceeds the
/// checked count.
pub proof fn lemma_sound_le_checked(cwe: CweCheckerResult, calls: Seq<RealCall>, offset: i64)
    ensures
        spec_count_sound(cwe, calls, offset) <= spec_count_checked(cwe, calls, offset),
    decreases calls.len(),
{
    if calls.len() > 0 {
        lemma_sound_le_checked(cwe, calls.drop_last(), offset);
    }
}

/// A call that crosses object files is never checked: it is excluded
/// before the static graph is consulted.
pub proof fn lemma_cross_object_never_checked(cwe: CweCheckerResult, call: RealCall, offset: i64)
    requires
        call.does_jump_object_file,
    ensures
        !is_checked(spec_classify(cwe, call, offset)),
{
}

/// A call whose rebased site the static graph does not know is never
/// classified sound or unsound; when it is checked at all, it is the
/// missing-callsite case.
pub proof fn lemma_missing_distinct(cwe: CweCheckerResult, call: RealCall, offset: i64)
    requires
        !cwe.call_hash_map_by_call_site@.contains_key(spec_sub_offset(call.from_instr, offset)),
    ensures
        spec_classify(cwe, call, offset) != CallClassification::Sound,
        spec_classify(cwe, call, offset) != CallClassification::Unsound,
        is_checked(spec_classify(cwe, call, offset)) ==> spec_classify(cwe, call, offset)
            == CallClassification::MissingCallsite,
{
}

/// The recognized function enclosing `addr`, as an index into the list.
fn enclosing_function_index(funcs: &Vec<FunctionEntry>, addr: u64) -> (r: Option<usize>)
    ensures
        match r {
            Some(i) => i < funcs.len() && spec_enclosing_function(funcs@, addr) == Some(
                (funcs@[i as int].address, funcs@[i as int].name@),
            ),
            None => spec_enclosing_function(funcs@, addr) is None,
        },
{
    let n = funcs.len();
    let mut best: Option<usize> = None;
    let mut i: usize = 0;
    proof {
        assert(funcs@.take(0) =~= Seq::<FunctionEntry>::empty());
    }
    while i < n
        invariant
            i <= n == funcs.len(),
            match best {
                Some(b) => b < i && spec_enclosing_function(funcs@.take(i as int), addr) == Some(
                    (funcs@[b as int].address, funcs@[b as int].name@),
                ),
                None => spec_enclosing_function(funcs@.take(i as int), addr) is None,
            },
        decreases n - i,
    {
        proof {
            assert(funcs@.take(i as int + 1).drop_last() =~= funcs@.take(i as int));
            assert(funcs@.take(i as int + 1).last() == funcs@[i as int]);
        }
        let better = funcs[i].address < addr && (match best {
            Some(b) => funcs[i].address > funcs[b].address,
            None => true,
        });
        if better {
            best = Some(i);
        }
        i = i + 1;
    }
    proof {
        assert(funcs@.take(n as int) =~= funcs@);
    }
    best
}

/// The entry address of the first listed function named `main`.
fn static_main_address(funcs: &Vec<FunctionEntry>) -> (r: Option<u64>)
    ensures
        r == spec_static_main_address(funcs@),
{
    let n = funcs.len();
    let mut i: usize = 0;
    proof {
        assert(funcs@.skip(0) =~= funcs@);
    }
    while i < n
        invariant
            i <= n == funcs.len(),
            spec_static_main_address(funcs@) == spec_static_main_address(funcs@.skip(i as int)),
        decreases n - i,
    {
        proof {
            assert(funcs@.skip(i as int)[0] == funcs@[i as int]);
            assert(funcs@.skip(i as int).drop_first() =~= funcs@.skip(i as int + 1));
        }
        if str_eq(funcs[i].name.as_str(), "main") {
            return Some(funcs[i].address);
        }
        i = i + 1;
    }
    proof {
        assert(funcs@.skip(n as int).len() == 0);
    }
    None
}

/// Compute the alignment offset by locating `main` on both sides, as
/// [`spec_offset_of`] says; zero when either side lacks it.
pub fn offset_based_on_main(cwe: &CweCheckerResult, trace: &ValgrindResult) -> (r: i64)
    ensures
        r == spec_offset_of(*cwe, *trace),
{
    match static_main_address(&cwe.metadata.functions) {
        None => 0,
        Some(sa) => match trace.valgrind_name_cache.find_id_of_name("main") {
            None => 0,
            Some(id) => match trace.base_address_mapping.get(&id) {
                Some(da) => as_signed64(da.wrapping_sub(sa)),
                None => 0,
            },
        },
    }
}

/// Classify one observed call against the static graph, as
/// [`spec_classify`] says.
pub fn classify_real_call(cwe: &CweCheckerResult, call: &RealCall, offset: i64) -> (r:
    CallClassification)
    ensures
        r == spec_classify(*cwe, *call, offset),
{
    let site = sub_offset(call.from_instr, offset);
    if !crate::cwe_checker::vec_contains_u64(&cwe.metadata.indirect_call_sites, site) {
        return CallClassification::OutOfScope;
    }
    let is_startup = match enclosing_function_index(&cwe.metadata.functions, site) {
        Some(i) => str_eq(cwe.metadata.functions[i].name.as_str(), "__libc_csu_init"),
        None => false,
    };
    if is_startup {
        CallClassification::StartupExcluded
    } else if call.does_jump_object_file {
        CallClassification::CrossObjectExcluded
    } else {
        match cwe.get_call_site(site) {
            None => CallClassification::MissingCallsite,
            Some(cs) => {
                if cs.has_target(&sub_offset(call.to_instr, offset)) {
                    CallClassification::Sound
                } else {
                    CallClassification::Unsound
                }
            },
        }
    }
}

/// Run the reconciliation: align by `main`, classify every observed call,
/// and count the checked and the sound ones. The report's counts are
/// exactly the checked and sound counts of the call sequence under the
/// computed offset, and the sound count never exceeds the checked count.
pub fn soundness(cwe: &CweCheckerResult, trace: &ValgrindResult) -> (r: SoundnessReport)
    requires
        trace.calls@.len() <= i64::MAX,
    ensures
        r.checked_calls == spec_count_checked(*cwe, trace.calls@, spec_offset_of(*cwe, *trace)),
        r.sound_calls == spec_count_sound(*cwe, trace.calls@, spec_offset_of(*cwe, *trace)),
        0 <= r.sound_calls <= r.checked_calls,
{
    let offset = offset_based_on_main(cwe, trace);
    let mut checked: i64 = 0;
    let mut sound: i64 = 0;
    let n = trace.calls.len();
    let mut i: usize = 0;
    proof {
        assert(trace.calls@.take(0) =~= Seq::<RealCall>::empty());
    }
    while i < n
        invariant
            i <= n == trace.calls@.len() <= i64::MAX,
            offset == spec_offset_of(*cwe, *trace),
            checked == spec_count_checked(*cwe, trace.calls@.take(i as int), offset),
            sound == spec_count_sound(*cwe, trace.calls@.take(i as int), offset),
            0 <= sound <= checked <= i,
        decreases n - i,
    {
        proof {
            assert(trace.calls@.take(i as int + 1).drop_last() =~= trace.calls@.take(i as int));
            assert(trace.calls@.take(i as int + 1).last() == trace.calls@[i as int]);
        }
        let class = classify_real_call(cwe, &trace.calls[i], offset);
        match class {
            CallClassification::Sound => {
                checked = checked + 1;
                sound = sound + 1;
            },
            CallClassification::Unsound => {
                checked = checked + 1;
            },
            CallClassification::MissingCallsite => {
                checked = checked + 1;
            },
            _ => {},
        }
        i = i + 1;
    }
    proof {
        assert(trace.calls@.take(n as int) =~= trace.calls@);
    }
    SoundnessReport { checked_calls: checked, sound_calls: sound }
}


/// The calls are in ascending order of their origin address.
pub open spec fn sorted_by_from(s: Seq<RealCall>) -> bool {
    forall|i: int, j: int| 0 <= i <= j < s.len() ==> s[i].from_instr <= s[j].from_instr
}

/// The observed calls that are in scope: those whose rebased origin is a
/// statically flagged indirect call site, in trace order.
pub open spec fn spec_in_scope_calls(cwe: CweCheckerResult, calls: Seq<RealCall>, offset: i64)
    -> Seq<RealCall> {
    calls.filter(
        |c: RealCall| spec_classify(cwe, c, offset) != CallClassification::OutOfScope,
    )
}

/// Insert a call into a list kept ascending by origin address, before the
/// first call whose origin is greater.
fn sorted_insert_call(v: &mut Vec<RealCall>, c: RealCall)
    requires
        sorted_by_from(old(v)@),
    ensures
        sorted_by_from(final(v)@),
        final(v)@.to_multiset() == old(v)@.to_multiset().insert(c),
        final(v)@.len() == old(v)@.len() + 1,
{
    broadcast use vstd::seq_lib::to_multiset_insert;

    let n = v.len();
    let mut i: usize = 0;
    while i < n && v[i].from_instr <= c.from_instr
        invariant
            i <= n == v.len(),
            v@ == old(v)@,
            forall|k: int| 0 <= k < i ==> v@[k].from_instr <= c.from_instr,
        decreases n - i,
    {
        i = i + 1;
    }
    proof {
        old(v)@.insert_ensures(i as int, c);
    }
    v.insert(i, c);
    proof {
        assert forall|a: int, b: int|
            0 <= a <= b < v@.len() implies v@[a].from_instr <= v@[b].from_instr by {
            let ov = old(v)@;
            if a < i && b < i {
            } else if a == i && b == i {
            } else if a < i && b == i {
                assert(v@[a] == ov[a]);
            } else if a == i && b > i {
                assert(v@[b] == ov[b - 1]);
                assert(i < ov.len() + 1 && b - 1 >= i);
                assert(ov[i as int].from_instr > c.from_instr);
            } else if a < i && b > i {
                assert(v@[a] == ov[a] && v@[b] == ov[b - 1]);
            } else {
                assert(v@[a] == ov[a - 1] && v@[b] == ov[b - 1]);
            }
        }
    }
}

/// The per-call diagnostic trace: every in-scope observed call with its
/// classification, in ascending order of origin address. The calls are
/// exactly the in-scope ones (as a multiset), and each carries the
/// classification the engine gives it under the alignment offset.
pub fn classified_calls(cwe: &CweCheckerResult, trace: &ValgrindResult) -> (r: Vec<
    (RealCall, CallClassification),
>)
    ensures
        ({
            let offset = spec_offset_of(*cwe, *trace);
            &&& r@.map_values(|p: (RealCall, CallClassification)| p.0).to_multiset()
                == spec_in_scope_calls(*cwe, trace.calls@, offset).to_multiset()
            &&& forall|k: int|
                0 <= k < r@.len() ==> #[trigger] r@[k].1 == spec_classify(*cwe, r@[k].0, offset)
            &&& forall|i: int, j: int|
                0 <= i <= j < r@.len() ==> r@[i].0.from_instr <= r@[j].0.from_instr
        }),
{
    broadcast use vstd::seq_lib::group_to_multiset_ensures;

    let offset = offset_based_on_main(cwe, trace);
    let ghost pred = |c: RealCall| spec_classify(*cwe, c, offset) != CallClassification::OutOfScope;
    let mut in_scope: Vec<RealCall> = Vec::new();
    let n = trace.calls.len();
    let mut i: usize = 0;
    proof {
        reveal_with_fuel(Seq::filter, 2);
        assert(trace.calls@.take(0) =~= Seq::<RealCall>::empty());
        assert(trace.calls@.take(0).filter(pred) =~= Seq::<RealCall>::empty());
    }
    while i < n
        invariant
            i <= n == trace.calls@.len(),
            offset == spec_offset_of(*cwe, *trace),
            pred == (|c: RealCall| spec_classify(*cwe, c, offset)
                != CallClassification::OutOfScope),
            sorted_by_from(in_scope@),
            in_scope@.to_multiset() == trace.calls@.take(i as int).filter(pred).to_multiset(),
        decreases n - i,
    {
        let ghost pre = trace.calls@.take(i as int);
        let ghost post = trace.calls@.take(i as int + 1);
        proof {
            reveal_with_fuel(Seq::filter, 2);
            assert(post.drop_last() =~= pre);
            assert(post.last() == trace.calls@[i as int]);
            assert(post.filter(pred) == if pred(post.last()) {
                pre.filter(pred).push(post.last())
            } else {
                pre.filter(pred)
            });
        }
        let class = classify_real_call(cwe, &trace.calls[i], offset);
        if !matches!(class, CallClassification::OutOfScope) {
            sorted_insert_call(&mut in_scope, trace.calls[i]);
            proof {
                pre.filter(pred).to_multiset_ensures();
                assert(pre.filter(pred).push(post.last()).to_multiset() == pre.filter(
                    pred,
                ).to_multiset().insert(post.last()));
                assert(in_scope@.to_multiset() == post.filter(pred).to_multiset());
            }
        }
        i = i + 1;
    }
    proof {
        assert(trace.calls@.take(n as int) =~= trace.calls@);
    }
    let mut r: Vec<(RealCall, CallClassification)> = Vec::new();
    let m = in_scope.len();
    let mut j: usize = 0;
    while j < m
        invariant
            j <= m == in_scope@.len(),
            offset == spec_offset_of(*cwe, *trace),
            sorted_by_from(in_scope@),
            r@.len() == j,
            forall|k: int|
                0 <= k < r@.len() ==> (#[trigger] r@[k]).0 == in_scope@[k] && r@[k].1
                    == spec_classify(*cwe, in_scope@[k], offset),
        decreases m - j,
    {
        let class = classify_real_call(cwe, &in_scope[j], offset);
        r.push((in_scope[j], class));
        j = j + 1;
    }
    proof {
        assert(r@.map_values(|p: (RealCall, CallClassification)| p.0) =~= in_scope@);
    }
    r
}

} // verus!
