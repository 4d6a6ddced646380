//! The best-first search driver, as a state machine: the host pops an
//! entry, runs the analyzer and executor on it, and hands the resulting
//! candidates back for admission.

use vstd::prelude::*;
use crate::generate::Candidate;
use crate::tree::{Select, SelectV, deep_copy, ser_select, serialize};

verus! {

/// A queued tree: cumulative cost, insertion number, tree and hop count.
#[derive(Debug)]
pub struct QueueEntry {
    pub cost: u64,
    pub seq: u64,
    pub tree: Select,
    pub hop: u64,
}

pub struct EntryV {
    pub cost: nat,
    pub seq: nat,
    pub tree: SelectV,
    pub hop: nat,
}

impl View for QueueEntry {
    type V = EntryV;

    open spec fn view(&self) -> EntryV {
        EntryV { cost: self.cost as nat, seq: self.seq as nat, tree: self.tree@, hop: self.hop as nat }
    }
}

/// The search state.
#[derive(Debug)]
pub struct Search {
    queue: Vec<QueueEntry>,
    visited: Vec<String>,
    next_seq: u64,
    popped: u64,
    analyzed: u64,
    max_hop: u64,
    max_num: u64,
    exhausted: bool,
    original: Select,
}

pub struct SearchV {
    pub queue: Seq<EntryV>,
    pub visited: Seq<Seq<char>>,
    pub next_seq: nat,
    pub popped: nat,
    pub analyzed: nat,
    pub max_hop: nat,
    pub max_num: nat,
    pub exhausted: bool,
    pub original: SelectV,
}

impl View for Search {
    type V = SearchV;

    closed spec fn view(&self) -> SearchV {
        SearchV {
            queue: self.queue@.map_values(|e: QueueEntry| e@),
            visited: self.visited@.map_values(|s: String| s@),
            next_seq: self.next_seq as nat,
            popped: self.popped as nat,
            analyzed: self.analyzed as nat,
            max_hop: self.max_hop as nat,
            max_num: self.max_num as nat,
            exhausted: self.exhausted,
            original: self.original@,
        }
    }
}

/// What the host is to do after a pop.
#[derive(Debug)]
pub enum Step {
    /// Analyze (and, on success, execute) this entry.
    Analyze(QueueEntry),
    /// The entry popped was beyond the hop bound and was dropped.
    Skip,
    /// The queue is empty or the budget is spent: the original tree stands.
    Exhausted,
}

pub enum StepV {
    Analyze(EntryV),
    Skip,
    Exhausted,
}

impl View for Step {
    type V = StepV;

    open spec fn view(&self) -> StepV {
        match self {
            Step::Analyze(e) => StepV::Analyze(e@),
            Step::Skip => StepV::Skip,
            Step::Exhausted => StepV::Exhausted,
        }
    }
}

/// `a` comes before `b`: lower cost, or equal cost and earlier insertion.
pub open spec fn before(a: EntryV, b: EntryV) -> bool {
    a.cost < b.cost || (a.cost == b.cost && a.seq < b.seq)
}

/// Position of the first entry that no other entry comes before.
pub open spec fn min_index(q: Seq<EntryV>) -> int
    decreases q.len(),
{
    if q.len() <= 1 {
        0
    } else {
        let m = min_index(q.drop_last());
        if before(q.last(), q[m]) {
            q.len() - 1
        } else {
            m
        }
    }
}

/// The state after one pop, and what the host is to do.
pub open spec fn pop_v(s: SearchV) -> (SearchV, StepV) {
    if s.exhausted || s.queue.len() == 0 {
        (SearchV { exhausted: true, ..s }, StepV::Exhausted)
    } else {
        let k = min_index(s.queue);
        let e = s.queue[k];
        let rest = s.queue.remove(k);
        if s.popped + 1 > s.max_num {
            (SearchV { queue: rest, exhausted: true, ..s }, StepV::Exhausted)
        } else if e.hop > s.max_hop {
            (SearchV { queue: rest, popped: s.popped + 1, ..s }, StepV::Skip)
        } else {
            (
                SearchV { queue: rest, popped: s.popped + 1, analyzed: s.analyzed + 1, ..s },
                StepV::Analyze(e),
            )
        }
    }
}

/// The state after offering a candidate derived from an entry at
/// `parent_hop`, and whether it was queued: it is dropped when its
/// canonical text was seen before, when it would exceed the hop bound, or
/// when insertion numbers have run out.
pub open spec fn offer_v(s: SearchV, cost: nat, tree: SelectV, parent_hop: nat) -> (SearchV, bool) {
    let key = ser_select(tree);
    if s.visited.contains(key) || parent_hop + 1 > s.max_hop || s.next_seq >= u64::MAX {
        (s, false)
    } else {
        (
            SearchV {
                queue: s.queue.push(EntryV { cost, seq: s.next_seq, tree, hop: parent_hop + 1 }),
                visited: s.visited.push(key),
                next_seq: s.next_seq + 1,
                ..s
            },
            true,
        )
    }
}

/// The state invariant: the budget counters stay within their bounds, every
/// queued entry is within the hop bound, was numbered before the counter,
/// and has its canonical text in the visited set.
pub open spec fn inv_v(v: SearchV) -> bool {
        &&& v.analyzed <= v.popped
        &&& v.popped <= v.max_num
        &&& v.analyzed <= v.max_num
        &&& forall|k: int| 0 <= k < v.queue.len() ==> (#[trigger] v.queue[k]).hop <= v.max_hop
        &&& forall|k: int| 0 <= k < v.queue.len() ==> (#[trigger] v.queue[k]).seq < v.next_seq
        &&& forall|k: int| 0 <= k < v.queue.len() ==> v.visited.contains(ser_select((#[trigger] v.queue[k]).tree))
}

impl Search {
    pub open spec fn wf(&self) -> bool {
        inv_v(self@)
    }

    /// A search from `tree` at cost 0 and hop 0, with the bounds
    /// `max_hop` (edits along a path) and `max_num` (pops).
    pub fn new(tree: &Select, max_hop: u64, max_num: u64) -> (r: Search)
        ensures
            r.wf(),
            r@.queue == seq![EntryV { cost: 0, seq: 0, tree: tree@, hop: 0 }],
            r@.visited == seq![ser_select(tree@)],
            r@.next_seq == 1,
            r@.popped == 0 && r@.analyzed == 0 && !r@.exhausted,
            r@.max_hop == max_hop && r@.max_num == max_num,
            r@.original == tree@,
    {
        let key = serialize(tree);
        let entry = QueueEntry { cost: 0, seq: 0, tree: deep_copy(tree), hop: 0 };
        let r = Search {
            queue: vec![entry],
            visited: vec![key],
            next_seq: 1,
            popped: 0,
            analyzed: 0,
            max_hop,
            max_num,
            exhausted: false,
            original: deep_copy(tree),
        };
        proof {
            assert(r@.queue =~= seq![EntryV { cost: 0, seq: 0, tree: tree@, hop: 0 }]);
            assert(r@.visited =~= seq![ser_select(tree@)]);
            assert(r@.visited[0] == ser_select(tree@));
        }
        r
    }

    /// The tree the search started from: what is returned when no repair
    /// is found.
    pub fn original(&self) -> (r: &Select)
        ensures
            r@ == self@.original,
    {
        &self.original
    }

    /// Number of entries handed out for analysis so far.
    pub fn analyzed(&self) -> (r: u64)
        ensures
            r == self@.analyzed,
    {
        self.analyzed
    }

    /// Pops the entry that comes first by (cost, insertion number) and says
    /// what to do with it.
    pub fn pop(&mut self) -> (r: Step)
        requires
            old(self).wf(),
        ensures
            final(self).wf(),
            (final(self)@, r@) == pop_v(old(self)@),
    {
        let ghost s = self@;
        if self.exhausted || self.queue.len() == 0 {
            self.exhausted = true;
            proof {
                assert(self@ == pop_v(s).0);
            }
            return Step::Exhausted;
        }
        let k = self.min_position();
        let e = self.queue.remove(k);
        proof {
            assert(self@.queue =~= s.queue.remove(k as int));
        }
        if self.popped >= self.max_num {
            self.exhausted = true;
            proof {
                assert(self@ == pop_v(s).0);
            }
            Step::Exhausted
        } else if e.hop > self.max_hop {
            self.popped = self.popped + 1;
            proof {
                assert(self@ == pop_v(s).0);
            }
            Step::Skip
        } else {
            self.popped = self.popped + 1;
            self.analyzed = self.analyzed + 1;
            proof {
                assert(self@ == pop_v(s).0);
            }
            Step::Analyze(e)
        }
    }

    fn min_position(&self) -> (k: usize)
        requires
            self.queue@.len() > 0,
        ensures
            k == min_index(self@.queue),
            k < self.queue@.len(),
    {
        let ghost q = self@.queue;
        let mut best: usize = 0;
        let mut i: usize = 1;
        proof {
            assert(q.subrange(0, 1).len() == 1);
        }
        while i < self.queue.len()
            invariant
                q == self@.queue,
                1 <= i <= q.len(),
                best < i,
                best == min_index(q.subrange(0, i as int)),
            decreases q.len() - i,
        {
            proof {
                let sub = q.subrange(0, i + 1);
                assert(sub.drop_last() =~= q.subrange(0, i as int));
                assert(sub.last() == q[i as int]);
                assert(sub[best as int] == q[best as int]);
            }
            let a = &self.queue[i];
            let b = &self.queue[best];
            if a.cost < b.cost || (a.cost == b.cost && a.seq < b.seq) {
                best = i;
            }
            i = i + 1;
        }
        proof {
            assert(q.subrange(0, q.len() as int) =~= q);
        }
        best
    }

    fn seen(&self, key: &String) -> (r: bool)
        ensures
            r == self@.visited.contains(key@),
    {
        let mut i: usize = 0;
        while i < self.visited.len()
            invariant
                i <= self.visited@.len(),
                forall|k: int| 0 <= k < i ==> self@.visited[k] != key@,
            decreases self.visited@.len() - i,
        {
            if crate::parser::same_text(self.visited[i].as_str(), key.as_str()) {
                proof {
                    assert(self@.visited[i as int] == key@);
                }
                return true;
            }
            i = i + 1;
        }
        false
    }

    /// Offers a candidate derived from an entry at `parent_hop`.
    pub fn offer(&mut self, cand: Candidate, parent_hop: u64) -> (r: bool)
        requires
            old(self).wf(),
        ensures
            final(self).wf(),
            (final(self)@, r) == offer_v(old(self)@, cand.cost as nat, cand.tree@, parent_hop as nat),
    {
        let ghost s = self@;
        let key = serialize(&cand.tree);
        if self.seen(&key) || parent_hop >= self.max_hop || self.next_seq >= u64::MAX {
            return false;
        }
        let entry = QueueEntry { cost: cand.cost, seq: self.next_seq, tree: cand.tree, hop: parent_hop + 1 };
        self.queue.push(entry);
        self.visited.push(key);
        self.next_seq = self.next_seq + 1;
        proof {
            let v = self@;
            assert(v.queue =~= s.queue.push(entry@));
            assert(v.visited =~= s.visited.push(key@));
            assert forall|k: int| 0 <= k < v.queue.len() implies v.visited.contains(ser_select((#[trigger] v.queue[k]).tree)) by {
                if k < s.queue.len() {
                    assert(s.visited.contains(ser_select(s.queue[k].tree)));
                    let j = choose|j: int| 0 <= j < s.visited.len() && s.visited[j] == ser_select(s.queue[k].tree);
                    assert(v.visited[j] == s.visited[j]);
                } else {
                    assert(v.visited[s.visited.len() as int] == key@);
                }
            }
        }
        true
    }
}

/// No entry beyond the hop bound is ever handed out for analysis.
pub proof fn lemma_hop_bound(s: SearchV)
    ensures
        match pop_v(s).1 {
            StepV::Analyze(e) => e.hop <= s.max_hop,
            _ => true,
        },
{
}

/// Pops and offers keep the invariant, and the number of entries handed
/// out for analysis never exceeds the budget `max_num` (within the
/// `max_num + 1` analyzer runs allowed).
pub proof fn lemma_budget_bound(s: SearchV, cost: nat, tree: SelectV, parent_hop: nat)
    requires
        inv_v(s),
    ensures
        inv_v(pop_v(s).0),
        pop_v(s).0.analyzed <= s.max_num,
        inv_v(offer_v(s, cost, tree, parent_hop).0),
        offer_v(s, cost, tree, parent_hop).0.analyzed == s.analyzed,
{
    let (t, _) = pop_v(s);
    if !(s.exhausted || s.queue.len() == 0) {
        let k = min_index(s.queue);
        lemma_min_index_in_range(s.queue);
        let rest = s.queue.remove(k);
        assert forall|j: int| 0 <= j < rest.len() implies s.visited.contains(ser_select((#[trigger] rest[j]).tree)) by {
            if j < k {
                assert(rest[j] == s.queue[j]);
            } else {
                assert(rest[j] == s.queue[j + 1]);
            }
        }
        assert forall|j: int| 0 <= j < rest.len() implies (#[trigger] rest[j]).hop <= s.max_hop && rest[j].seq < s.next_seq by {
            if j < k {
                assert(rest[j] == s.queue[j]);
            } else {
                assert(rest[j] == s.queue[j + 1]);
            }
        }
    }
    let (o, ok) = offer_v(s, cost, tree, parent_hop);
    if ok {
        let q = o.queue;
        assert forall|j: int| 0 <= j < q.len() implies o.visited.contains(ser_select((#[trigger] q[j]).tree)) by {
            if j < s.queue.len() {
                assert(q[j] == s.queue[j]);
                let w = choose|w: int| 0 <= w < s.visited.len() && s.visited[w] == ser_select(s.queue[j].tree);
                assert(o.visited[w] == s.visited[w]);
            } else {
                assert(o.visited[s.visited.len() as int] == ser_select(tree));
            }
        }
    }
}

pub proof fn lemma_min_index_in_range(q: Seq<EntryV>)
    requires
        q.len() > 0,
    ensures
        0 <= min_index(q) < q.len(),
    decreases q.len(),
{
    if q.len() > 1 {
        lemma_min_index_in_range(q.drop_last());
    }
}

/// The entry popped comes first: no queued entry comes before it.
pub proof fn lemma_pop_order(q: Seq<EntryV>)
    requires
        q.len() > 0,
    ensures
        forall|j: int| 0 <= j < q.len() ==> !before(#[trigger] q[j], q[min_index(q)]),
    decreases q.len(),
{
    lemma_min_index_in_range(q);
    if q.len() > 1 {
        let p = q.drop_last();
        lemma_pop_order(p);
        lemma_min_index_in_range(p);
        assert forall|j: int| 0 <= j < q.len() implies !before(#[trigger] q[j], q[min_index(q)]) by {
            if j < q.len() - 1 {
                assert(q[j] == p[j]);
                assert(q[min_index(p)] == p[min_index(p)]);
            }
        }
    }
}

/// A pop and an offer are functions of the search state and their
/// arguments: equal states pop the same entry and take in a candidate the
/// same way. (That a whole run is fixed also needs the oracles' answers to
/// be fixed, which the host provides.)
pub proof fn lemma_determinism(a: SearchV, b: SearchV, cost: nat, tree: SelectV, parent_hop: nat)
    requires
        a == b,
    ensures
        pop_v(a) == pop_v(b),
        offer_v(a, cost, tree, parent_hop) == offer_v(b, cost, tree, parent_hop),
{
}

/// Replacing one queued entry (its tree mutated or swapped) leaves the canonical text of
/// every other queued entry as it was.
pub proof fn lemma_no_aliasing(q: Seq<EntryV>, i: int, e: EntryV)
    requires
        0 <= i < q.len(),
    ensures
        forall|j: int|
            0 <= j < q.len() && j != i ==> ser_select((#[trigger] q.update(i, e)[j]).tree)
                == ser_select(q[j].tree),
{
}

} // verus!
