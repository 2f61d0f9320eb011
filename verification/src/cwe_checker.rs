//! The static analyzer's call graph, aggregated for lookup.
//!
//! The analyzer reports a flat edge list together with metadata: the address
//! base it analyzed at, the call sites it flagged as indirect, and the
//! functions it recognized. Aggregation groups the edges by call-site
//! address, so that the reconciliation step can ask for the full predicted
//! target set of any site.

use vstd::prelude::*;

verus! {

broadcast use vstd::std_specs::hash::group_hash_axioms;

use std::collections::{HashMap, HashSet};

/// One reported call edge.
#[derive(Debug, Clone, PartialEq, Eq, Structural)]
pub struct Call {
    pub from_instr: u64,
    pub to_instr: u64,
    pub is_indirect: bool,
}

/// One function the analyzer recognized, by name and entry address.
#[derive(Debug, Clone)]
pub struct FunctionEntry {
    pub name: String,
    pub address: u64,
}

/// The analyzer's report metadata.
#[derive(Debug, Clone)]
pub struct Metadata {
    pub address_base_offset: u64,
    pub indirect_call_sites: Vec<u64>,
    pub functions: Vec<FunctionEntry>,
}

/// The analyzer's report: metadata and the flat call-edge list.
#[derive(Debug, Clone)]
pub struct ExportCallGraph {
    pub metadata: Metadata,
    pub calls: Vec<Call>,
}

/// A call site and every target the analyzer predicted for it.
#[derive(Debug)]
pub struct CallSite {
    pub callsite_loc: u64,
    pub targets: HashSet<u64>,
}

impl CallSite {
    /// Whether the analyzer predicted `addr` as a target of this site.
    pub fn has_target(&self, addr: &u64) -> (r: bool)
        ensures
            r == self.targets@.contains(*addr),
    {
        self.targets.contains(addr)
    }
}

/// The target sets an edge list denotes, grouped by call-site address: a
/// site is present exactly when some edge leaves it, and its set holds
/// exactly the targets of those edges.
pub open spec fn call_sites_of(calls: Seq<Call>) -> Map<u64, Set<u64>> {
    Map::new(
        |site: u64| exists|i: int| 0 <= i < calls.len() && (#[trigger] calls[i]).from_instr == site,
        |site: u64|
            Set::new(
                |t: u64|
                    exists|i: int|
                        0 <= i < calls.len() && (#[trigger] calls[i]).from_instr == site
                            && calls[i].to_instr == t,
            ),
    )
}

/// A site map agrees with the mathematical aggregation of an edge list.
pub open spec fn graph_matches(m: Map<u64, CallSite>, sites: Map<u64, Set<u64>>) -> bool {
    &&& forall|k: u64| m.contains_key(k) <==> sites.contains_key(k)
    &&& forall|k: u64| #[trigger] m.contains_key(k) ==> m[k].callsite_loc == k && m[k].targets@
        == sites[k]
}

/// The analyzer's result, ready for lookup by call-site address.
#[derive(Debug)]
pub struct CweCheckerResult {
    pub metadata: Metadata,
    pub call_hash_map_by_call_site: HashMap<u64, CallSite>,
}

impl CweCheckerResult {
    /// Every stored site names its own key and predicts at least one
    /// target: empty target sets are never stored.
    pub open spec fn wf(&self) -> bool {
        forall|k: u64| #[trigger] self.call_hash_map_by_call_site@.contains_key(k)
            ==> self.call_hash_map_by_call_site@[k].callsite_loc == k && exists|t: u64|
            self.call_hash_map_by_call_site@[k].targets@.contains(t)
    }

    /// Group an edge list by call-site address. All edges from a site
    /// accumulate into that site's target set; `is_indirect` does not
    /// filter (the metadata's indirect-site list decides relevance later).
    pub fn from_export_call_graph(export_call_graph: ExportCallGraph) -> (r: Self)
        ensures
            r.metadata == export_call_graph.metadata,
            graph_matches(
                r.call_hash_map_by_call_site@,
                call_sites_of(export_call_graph.calls@),
            ),
            r.wf(),
    {
        let ExportCallGraph { metadata, calls } = export_call_graph;
        let mut m: HashMap<u64, CallSite> = HashMap::new();
        let n = calls.len();
        let mut i: usize = 0;
        proof {
            assert(calls@.take(0) =~= Seq::<Call>::empty());
        }
        while i < n
            invariant
                i <= n == calls.len(),
                graph_matches(m@, call_sites_of(calls@.take(i as int))),
            decreases n - i,
        {
            let ghost pre = calls@.take(i as int);
            let ghost post = calls@.take(i as int + 1);
            let from = calls[i].from_instr;
            let to = calls[i].to_instr;
            let mut cs = match m.remove(&from) {
                Some(cs) => cs,
                None => CallSite { callsite_loc: from, targets: HashSet::new() },
            };
            cs.targets.insert(to);
            m.insert(from, cs);
            proof {
                let c = calls@[i as int];
                assert(post.drop_last() =~= pre);
                assert(post.last() == c);
                assert forall|k: u64|
                    m@.contains_key(k) <==> call_sites_of(post).contains_key(k) by {
                    if call_sites_of(post).contains_key(k) {
                        let w = choose|j: int|
                            0 <= j < post.len() && (#[trigger] post[j]).from_instr == k;
                        if w < i {
                            assert(pre[w] == post[w]);
                            assert(call_sites_of(pre).contains_key(k));
                        }
                    }
                    if m@.contains_key(k) && k != c.from_instr {
                        let w = choose|j: int|
                            0 <= j < pre.len() && (#[trigger] pre[j]).from_instr == k;
                        assert(post[w] == pre[w]);
                    }
                    if k == c.from_instr {
                        assert(post[i as int].from_instr == k);
                    }
                }
                assert forall|k: u64| #[trigger]
                    m@.contains_key(k) implies m@[k].callsite_loc == k && m@[k].targets@
                    == call_sites_of(post)[k] by {
                    if k == c.from_instr {
                        assert forall|t: u64|
                            m@[k].targets@.contains(t) <==> call_sites_of(post)[k].contains(
                                t,
                            ) by {
                            if call_sites_of(post)[k].contains(t) {
                                let w = choose|j: int|
                                    0 <= j < post.len() && (#[trigger] post[j]).from_instr == k
                                        && post[j].to_instr == t;
                                if w < i {
                                    assert(pre[w] == post[w]);
                                    assert(call_sites_of(pre)[k].contains(t));
                                } else {
                                    assert(t == c.to_instr);
                                }
                            }
                            if m@[k].targets@.contains(t) {
                                if t != c.to_instr {
                                    let w = choose|j: int|
                                        0 <= j < pre.len() && (#[trigger] pre[j]).from_instr == k
                                            && pre[j].to_instr == t;
                                    assert(post[w] == pre[w]);
                                    assert(call_sites_of(post)[k].contains(t));
                                } else {
                                    assert(post[i as int].from_instr == k && post[i as int].to_instr
                                        == t);
                                }
                            }
                        }
                        assert(m@[k].targets@ =~= call_sites_of(post)[k]);
                    } else {
                        assert forall|t: u64|
                            m@[k].targets@.contains(t) <==> call_sites_of(post)[k].contains(
                                t,
                            ) by {
                            if call_sites_of(post)[k].contains(t) {
                                let w = choose|j: int|
                                    0 <= j < post.len() && (#[trigger] post[j]).from_instr == k
                                        && post[j].to_instr == t;
                                assert(w < i);
                                assert(pre[w] == post[w]);
                                assert(call_sites_of(pre)[k].contains(t));
                            }
                            if m@[k].targets@.contains(t) {
                                let w = choose|j: int|
                                    0 <= j < pre.len() && (#[trigger] pre[j]).from_instr == k
                                        && pre[j].to_instr == t;
                                assert(post[w] == pre[w]);
                            }
                        }
                        assert(m@[k].targets@ =~= call_sites_of(post)[k]);
                    }
                }
            }
            i = i + 1;
        }
        proof {
            assert(calls@.take(n as int) =~= calls@);
        }
        let r = CweCheckerResult { metadata, call_hash_map_by_call_site: m };
        proof {
            assert forall|k: u64| #[trigger]
                r.call_hash_map_by_call_site@.contains_key(
                    k,
                ) implies r.call_hash_map_by_call_site@[k].callsite_loc == k && exists|t: u64|
                r.call_hash_map_by_call_site@[k].targets@.contains(t) by {
                let w = choose|j: int|
                    0 <= j < calls@.len() && (#[trigger] calls@[j]).from_instr == k;
                assert(call_sites_of(calls@)[k].contains(calls@[w].to_instr));
            }
        }
        r
    }

    /// The site stored for `addr`, copied out; `None` exactly when the
    /// analyzer reported no edge from that address.
    pub fn get_call_site(&self, addr: u64) -> (r: Option<CallSite>)
        ensures
            match r {
                Some(cs) => self.call_hash_map_by_call_site@.contains_key(addr) && cs.callsite_loc
                    == self.call_hash_map_by_call_site@[addr].callsite_loc && cs.targets@
                    == self.call_hash_map_by_call_site@[addr].targets@,
                None => !self.call_hash_map_by_call_site@.contains_key(addr),
            },
    {
        match self.call_hash_map_by_call_site.get(&addr) {
            Some(cs) => Some(
                CallSite { callsite_loc: cs.callsite_loc, targets: clone_hashset_u64(&cs.targets) },
            ),
            None => None,
        }
    }
}

/// Membership in the dereferenced view of a borrowed-element sequence.
pub broadcast proof fn lemma_unref_to_set_contains(s: Seq<&u64>, x: u64)
    ensures
        #[trigger] s.unref().to_set().contains(x) <==> (exists|j: int|
            0 <= j < s.len() && *(#[trigger] s[j]) == x),
{
    if s.unref().to_set().contains(x) {
        assert(s.unref().contains(x));
        let i = choose|i: int| 0 <= i < s.unref().len() && s.unref()[i] == x;
        assert(*s[i] == x);
    }
    if exists|j: int| 0 <= j < s.len() && *(#[trigger] s[j]) == x {
        let j = choose|j: int| 0 <= j < s.len() && *(#[trigger] s[j]) == x;
        assert(s.unref()[j] == x);
        assert(s.unref().contains(x));
    }
}

/// Copy a set of addresses.
fn clone_hashset_u64(s: &HashSet<u64>) -> (r: HashSet<u64>)
    ensures
        r@ == s@,
{
    broadcast use lemma_unref_to_set_contains;

    let mut r: HashSet<u64> = HashSet::new();
    for k in it: s.iter()
        invariant
            it.seq().unref().to_set() == s@,
            forall|x: u64|
                s@.contains(x) <==> (exists|j: int|
                    0 <= j < it.seq().len() && *(#[trigger] it.seq()[j]) == x),
            forall|x: u64|
                r@.contains(x) <==> exists|j: int|
                    0 <= j < it.index() && *(#[trigger] it.seq()[j]) == x,
            it.index() == it.seq().len() ==> r@ =~= s@,
    {
        r.insert(*k);
    }
    r
}

/// Aggregation is idempotent: an edge list loaded twice over denotes the
/// same site map as the list loaded once — every site keeps exactly the
/// same target set.
pub proof fn lemma_idempotent_aggregation(calls: Seq<Call>)
    ensures
        call_sites_of(calls + calls) == call_sites_of(calls),
{
    let both = calls + calls;
    let n = calls.len() as int;
    assert forall|site: u64|
        call_sites_of(both).contains_key(site) <==> call_sites_of(calls).contains_key(site) by {
        if call_sites_of(both).contains_key(site) {
            let j = choose|j: int| 0 <= j < both.len() && (#[trigger] both[j]).from_instr == site;
            if j < n {
                assert(calls[j] == both[j]);
            } else {
                assert(calls[j - n] == both[j]);
            }
        }
        if call_sites_of(calls).contains_key(site) {
            let j = choose|j: int| 0 <= j < calls.len() && (#[trigger] calls[j]).from_instr
                == site;
            assert(both[j] == calls[j]);
        }
    }
    assert forall|site: u64| #[trigger]
        call_sites_of(calls).contains_key(site) implies call_sites_of(both)[site]
        == call_sites_of(calls)[site] by {
        assert forall|t: u64|
            call_sites_of(both)[site].contains(t) <==> call_sites_of(calls)[site].contains(t) by {
            if call_sites_of(both)[site].contains(t) {
                let j = choose|j: int|
                    0 <= j < both.len() && (#[trigger] both[j]).from_instr == site
                        && both[j].to_instr == t;
                if j < n {
                    assert(calls[j] == both[j]);
                } else {
                    assert(calls[j - n] == both[j]);
                }
            }
            if call_sites_of(calls)[site].contains(t) {
                let j = choose|j: int|
                    0 <= j < calls.len() && (#[trigger] calls[j]).from_instr == site
                        && calls[j].to_instr == t;
                assert(both[j] == calls[j]);
            }
        }
        assert(call_sites_of(both)[site] =~= call_sites_of(calls)[site]);
    }
    assert(call_sites_of(both) =~= call_sites_of(calls));
}

/// Whether an address list holds `x`.
pub fn vec_contains_u64(v: &Vec<u64>, x: u64) -> (r: bool)
    ensures
        r == v@.contains(x),
{
    let n = v.len();
    let mut i: usize = 0;
    while i < n
        invariant
            i <= n == v.len(),
            forall|k: int| 0 <= k < i ==> v@[k] != x,
        decreases n - i,
    {
        if v[i] == x {
            return true;
        }
        i = i + 1;
    }
    false
}

} // verus!
