//! The registry of UDP peers and the two eviction policies.
use vstd::prelude::*;
use crate::addr::{PeerAddr, spec_addr_lt, addr_lt};

verus! {

/// A hash map from peer address to last-seen time.
#[verifier::external_body]
pub struct PeerTable {
    map: hashbrown::HashMap<PeerAddr, u64>,
}

/// What a peer table holds: each tracked address with its last-seen time.
pub uninterp spec fn table_entries(t: PeerTable) -> Map<PeerAddr, u64>;

/// Relies on hashbrown::HashMap::new: a new map is empty.
#[verifier::external_body]
fn table_new() -> (r: PeerTable)
    ensures
        table_entries(r).dom() =~= Set::<PeerAddr>::empty(),
{
    PeerTable { map: hashbrown::HashMap::new() }
}

/// Relies on hashbrown::HashMap::insert: the key afterwards maps to the
/// value, every other key is unchanged.
#[verifier::external_body]
fn table_insert(t: &mut PeerTable, k: PeerAddr, v: u64)
    ensures
        table_entries(*final(t)) == table_entries(*old(t)).insert(k, v),
{
    t.map.insert(k, v);
}

/// Relies on hashbrown::HashMap::remove: the key is absent afterwards, every
/// other key is unchanged.
#[verifier::external_body]
fn table_remove(t: &mut PeerTable, k: &PeerAddr)
    ensures
        table_entries(*final(t)) == table_entries(*old(t)).remove(*k),
{
    t.map.remove(k);
}

/// Relies on hashbrown::HashMap::len: the number of keys.
#[verifier::external_body]
fn table_len(t: &PeerTable) -> (r: usize)
    ensures
        r == table_entries(*t).len(),
{
    t.map.len()
}

/// Relies on hashbrown::HashMap::iter: each entry once, in an order that
/// the map does not promise.
#[verifier::external_body]
fn table_entry_list(t: &PeerTable) -> (r: Vec<(PeerAddr, u64)>)
    ensures
        r@.len() == table_entries(*t).len(),
        forall|i: int, j: int| 0 <= i < j < r@.len() ==> r@[i].0 != r@[j].0,
        forall|i: int|
            0 <= i < r@.len() ==> #[trigger] table_entries(*t).contains_key(r@[i].0)
                && table_entries(*t)[r@[i].0] == r@[i].1,
        forall|k: PeerAddr|
            #[trigger] table_entries(*t).contains_key(k) ==> exists|i: int|
                0 <= i < r@.len() && r@[i].0 == k,
{
    t.map.iter().map(|(k, v)| (*k, *v)).collect()
}

/// A peer last seen at `seen` is idle at `now` when more than `max_age` has
/// passed since. A time after `now` counts as no time passed.
pub open spec fn is_idle(seen: u64, now: u64, max_age: u64) -> bool {
    now - seen > max_age
}

/// Peer `a` seen at `ta` ranks ahead of peer `b` seen at `tb`: it was seen
/// later, or at the same time with the smaller address.
pub open spec fn ranks_ahead(a: PeerAddr, ta: u64, b: PeerAddr, tb: u64) -> bool {
    ta > tb || (ta == tb && spec_addr_lt(a, b))
}

/// The peers of `m` that are not idle at `now`, with their times.
pub open spec fn spec_fresh(m: Map<PeerAddr, u64>, now: u64, max_age: u64) -> Map<PeerAddr, u64> {
    m.restrict(m.dom().filter(|k: PeerAddr| !is_idle(m[k], now, max_age)))
}

/// `kept` holds the `max` peers of `m` that rank ahead of the others (all of
/// `m` when it holds no more than `max`).
pub open spec fn spec_keeps_most_recent(
    m: Map<PeerAddr, u64>,
    kept: Map<PeerAddr, u64>,
    max: nat,
) -> bool {
    &&& kept.submap_of(m)
    &&& kept.len() == if m.len() <= max { m.len() } else { max }
    &&& forall|k: PeerAddr, r: PeerAddr|
        kept.contains_key(k) && m.contains_key(r) && !kept.contains_key(r) ==> ranks_ahead(
            k,
            m[k],
            r,
            m[r],
        )
}

proof fn lemma_ranks_ahead_order(a: PeerAddr, ta: u64, b: PeerAddr, tb: u64, c: PeerAddr, tc: u64)
    ensures
        !(ranks_ahead(a, ta, b, tb) && ranks_ahead(b, tb, a, ta)),
        a != b ==> ranks_ahead(a, ta, b, tb) || ranks_ahead(b, tb, a, ta),
        ranks_ahead(a, ta, b, tb) && ranks_ahead(b, tb, c, tc) ==> ranks_ahead(a, ta, c, tc),
{
}

fn ranks_ahead_exec(a: &PeerAddr, ta: u64, b: &PeerAddr, tb: u64) -> (r: bool)
    ensures
        r == ranks_ahead(*a, ta, *b, tb),
{
    ta > tb || (ta == tb && addr_lt(a, b))
}

/// The tracked UDP peers, each with the time it was last heard from.
pub struct PeerRegistry {
    table: PeerTable,
}

impl View for PeerRegistry {
    type V = Map<PeerAddr, u64>;

    closed spec fn view(&self) -> Map<PeerAddr, u64> {
        table_entries(self.table)
    }
}

impl PeerRegistry {
    pub open spec fn wf(&self) -> bool {
        self@.dom().finite()
    }

    pub fn new() -> (r: PeerRegistry)
        ensures
            r.wf(),
            r@ == Map::<PeerAddr, u64>::empty(),
    {
        let r = PeerRegistry { table: table_new() };
        assert(r@ =~= Map::<PeerAddr, u64>::empty());
        r
    }

    /// Number of tracked peers.
    pub fn len(&self) -> (r: usize)
        ensures
            r == self@.len(),
    {
        table_len(&self.table)
    }

    /// The peer was heard from at `now`: it is tracked from now on with that
    /// time.
    pub fn record_activity(&mut self, peer: PeerAddr, now: u64)
        requires
            old(self).wf(),
        ensures
            final(self).wf(),
            final(self)@ == old(self)@.insert(peer, now),
    {
        table_insert(&mut self.table, peer, now);
    }

    /// The tracked addresses, each once.
    pub fn peers(&self) -> (r: Vec<PeerAddr>)
        requires
            self.wf(),
        ensures
            r@.no_duplicates(),
            r@.to_set() == self@.dom(),
            r@.len() == self@.len(),
    {
        let es = table_entry_list(&self.table);
        let mut out: Vec<PeerAddr> = Vec::new();
        let mut i: usize = 0;
        while i < es.len()
            invariant
                i <= es@.len(),
                out@.len() == i,
                forall|j: int| 0 <= j < i ==> out@[j] == es@[j].0,
            decreases es@.len() - i,
        {
            out.push(es[i].0);
            i = i + 1;
        }
        proof {
            assert forall|k: PeerAddr| out@.contains(k) <==> self@.dom().contains(k) by {
                if self@.contains_key(k) {
                    let j = choose|j: int| 0 <= j < es@.len() && es@[j].0 == k;
                    assert(out@[j] == k);
                }
            }
            assert(out@.to_set() =~= self@.dom());
        }
        out
    }

    /// Removes every peer that is idle at `now`; the others stay with their
    /// times.
    pub fn evict_idle(&mut self, now: u64, max_age: u64)
        requires
            old(self).wf(),
        ensures
            final(self).wf(),
            final(self)@ == spec_fresh(old(self)@, now, max_age),
    {
        let ghost orig = self@;
        let es = table_entry_list(&self.table);
        let mut i: usize = 0;
        while i < es.len()
            invariant
                self.wf(),
                i <= es@.len(),
                es@.len() == orig.len(),
                forall|a: int, b: int| 0 <= a < b < es@.len() ==> es@[a].0 != es@[b].0,
                forall|j: int|
                    0 <= j < es@.len() ==> #[trigger] orig.contains_key(es@[j].0) && orig[es@[j].0]
                        == es@[j].1,
                forall|k: PeerAddr|
                    #[trigger] orig.contains_key(k) ==> exists|j: int|
                        0 <= j < es@.len() && es@[j].0 == k,
                self@.submap_of(orig),
                forall|k: PeerAddr|
                    #[trigger] orig.contains_key(k) && !self@.contains_key(k) ==> is_idle(
                        orig[k],
                        now,
                        max_age,
                    ),
                forall|j: int| i <= j < es@.len() ==> #[trigger] self@.contains_key(es@[j].0),
                forall|j: int|
                    0 <= j < i ==> (#[trigger] self@.contains_key(es@[j].0) <==> !is_idle(
                        es@[j].1,
                        now,
                        max_age,
                    )),
            decreases es@.len() - i,
        {
            let (k, seen) = es[i];
            if now > seen && now - seen > max_age {
                table_remove(&mut self.table, &k);
                proof {
                    assert forall|j: int| 0 <= j < i + 1 implies (#[trigger] self@.contains_key(es@[j].0)
                        <==> !is_idle(es@[j].1, now, max_age)) by {
                        if j < i {
                            assert(es@[j].0 != k);
                        }
                    }
                    assert forall|j: int| i + 1 <= j < es@.len() implies #[trigger] self@.contains_key(es@[j].0) by {
                        assert(es@[j].0 != k);
                    }
                }
            } else {
                assert(!is_idle(seen, now, max_age));
            }
            i = i + 1;
        }
        proof {
            let fresh = spec_fresh(orig, now, max_age);
            assert forall|k: PeerAddr| self@.contains_key(k) <==> fresh.contains_key(k) by {
                if orig.contains_key(k) {
                    let j = choose|j: int| 0 <= j < es@.len() && es@[j].0 == k;
                    assert(self@.contains_key(es@[j].0) <==> !is_idle(es@[j].1, now, max_age));
                }
            }
            assert(self@ =~= fresh);
        }
    }

    /// Keeps only the `max` peers seen most recently, those with the
    /// smaller address first among peers seen at the same time; nothing
    /// changes when no more than `max` are tracked.
    #[verifier::loop_isolation(false)]
    pub fn evict_by_capacity(&mut self, max: usize)
        requires
            old(self).wf(),
        ensures
            final(self).wf(),
            spec_keeps_most_recent(old(self)@, final(self)@, max as nat),
    {
        let ghost orig = self@;
        let mut es = table_entry_list(&self.table);
        let mut n = table_len(&self.table);
        while n > max
            invariant
                self.wf(),
                n == self@.len(),
                es@.len() == n,
                forall|k: PeerAddr|
                    #[trigger] self@.contains_key(k) ==> orig.contains_key(k) && self@[k] == orig[k],
                orig.len() <= max ==> self@ == orig,
                orig.len() > max ==> self@.len() >= max,
                forall|a: int, b: int| 0 <= a < b < es@.len() ==> es@[a].0 != es@[b].0,
                forall|j: int|
                    0 <= j < es@.len() ==> #[trigger] self@.contains_key(es@[j].0) && self@[es@[j].0]
                        == es@[j].1,
                forall|k: PeerAddr|
                    #[trigger] self@.contains_key(k) ==> exists|j: int|
                        0 <= j < es@.len() && es@[j].0 == k,
                forall|k: PeerAddr, r: PeerAddr|
                    self@.contains_key(k) && orig.contains_key(r) && !self@.contains_key(r)
                        ==> ranks_ahead(k, orig[k], r, orig[r]),
            decreases n,
        {
            let mut best: usize = 0;
            let mut j: usize = 1;
            while j < es.len()
                invariant
                    0 < es@.len(),
                    best < j <= es@.len(),
                    forall|a: int, b: int| 0 <= a < b < es@.len() ==> es@[a].0 != es@[b].0,
                    forall|i: int|
                        0 <= i < j && i != best ==> ranks_ahead(
                            es@[i].0,
                            es@[i].1,
                            es@[best as int].0,
                            es@[best as int].1,
                        ),
                decreases es@.len() - j,
            {
                proof {
                    lemma_ranks_ahead_order(
                        es@[best as int].0,
                        es@[best as int].1,
                        es@[j as int].0,
                        es@[j as int].1,
                        es@[j as int].0,
                        es@[j as int].1,
                    );
                }
                if ranks_ahead_exec(&es[best].0, es[best].1, &es[j].0, es[j].1) {
                    proof {
                        assert forall|i: int| 0 <= i < j + 1 && i != j implies ranks_ahead(
                            es@[i].0,
                            es@[i].1,
                            es@[j as int].0,
                            es@[j as int].1,
                        ) by {
                            lemma_ranks_ahead_order(
                                es@[i].0,
                                es@[i].1,
                                es@[best as int].0,
                                es@[best as int].1,
                                es@[j as int].0,
                                es@[j as int].1,
                            );
                        }
                    }
                    best = j;
                }
                j = j + 1;
            }
            let ghost before = self@;
            let ghost old_es = es@;
            let victim = es[best].0;
            table_remove(&mut self.table, &victim);
            es.remove(best);
            n = n - 1;
            proof {
                assert forall|k: PeerAddr, r: PeerAddr|
                    self@.contains_key(k) && orig.contains_key(r) && !self@.contains_key(r)
                        implies ranks_ahead(k, orig[k], r, orig[r]) by {
                    if r == victim {
                        let i = choose|i: int| 0 <= i < old_es.len() && old_es[i].0 == k;
                        assert(i != best);
                        assert(ranks_ahead(
                            old_es[i].0,
                            old_es[i].1,
                            old_es[best as int].0,
                            old_es[best as int].1,
                        ));
                    }
                }
                assert forall|k: PeerAddr| #[trigger] self@.contains_key(k) implies exists|i: int|
                    0 <= i < es@.len() && es@[i].0 == k by {
                    let i = choose|i: int| 0 <= i < old_es.len() && old_es[i].0 == k;
                    if i < best {
                        assert(es@[i].0 == k);
                    } else {
                        assert(es@[i - 1].0 == k);
                    }
                }
                assert forall|j: int| 0 <= j < es@.len() implies #[trigger] self@.contains_key(es@[j].0)
                    && self@[es@[j].0] == es@[j].1 by {
                    if j < best {
                        assert(old_es[j] == es@[j]);
                        assert(old_es[j].0 != old_es[best as int].0);
                        assert(before.contains_key(old_es[j].0));
                    } else {
                        assert(old_es[j + 1] == es@[j]);
                        assert(old_es[j + 1].0 != old_es[best as int].0);
                        assert(before.contains_key(old_es[j + 1].0));
                    }
                }
            }
        }
    }
}

/// Idle eviction: after a pass at `now`, a peer is tracked exactly when it
/// was tracked before and heard from within `max_age`; a peer that stays
/// keeps its time.
pub proof fn idle_eviction_keeps_exactly_the_fresh(m: Map<PeerAddr, u64>, now: u64, max_age: u64, k: PeerAddr)
    ensures
        spec_fresh(m, now, max_age).contains_key(k) <==> m.contains_key(k) && !is_idle(m[k], now, max_age),
        spec_fresh(m, now, max_age).contains_key(k) ==> spec_fresh(m, now, max_age)[k] == m[k],
{
}

/// When no more than `max` peers are tracked, the capacity policy keeps
/// them all.
pub proof fn capacity_eviction_keeps_all_within_bound(m: Map<PeerAddr, u64>, kept: Map<PeerAddr, u64>, max: nat)
    requires
        m.dom().finite(),
        m.len() <= max,
        spec_keeps_most_recent(m, kept, max),
    ensures
        kept == m,
{
    if !(m.dom() =~= kept.dom()) {
        let x = choose|x: PeerAddr| m.contains_key(x) && !kept.contains_key(x);
        assert(kept.dom().subset_of(m.dom().remove(x)));
        vstd::set_lib::lemma_len_subset(kept.dom(), m.dom().remove(x));
    }
    assert(kept =~= m);
}

/// Capacity eviction: beyond `max` peers exactly `max` stay, each one seen
/// later than (or at the same time as, with a smaller address) every peer
/// that was dropped; and which peers those are depends on the tracked
/// peers and their times alone, not on the order they arrived in.
pub proof fn capacity_eviction_keeps_the_most_recent(
    m: Map<PeerAddr, u64>,
    kept: Map<PeerAddr, u64>,
    other: Map<PeerAddr, u64>,
    max: nat,
)
    requires
        m.dom().finite(),
        m.len() > max,
        spec_keeps_most_recent(m, kept, max),
        spec_keeps_most_recent(m, other, max),
    ensures
        kept.len() == max,
        kept.submap_of(m),
        forall|k: PeerAddr, r: PeerAddr|
            #![trigger kept.contains_key(k), kept.contains_key(r)]
            kept.contains_key(k) && m.contains_key(r) && !kept.contains_key(r) ==> m[k] > m[r] || (
            m[k] == m[r] && spec_addr_lt(k, r)),
        kept == other,
{
    lemma_kept_dom_finite(m, kept);
    lemma_kept_dom_finite(m, other);
    if !(kept.dom() =~= other.dom()) {
        if kept.dom().subset_of(other.dom()) {
            let x = choose|x: PeerAddr| other.contains_key(x) && !kept.contains_key(x);
            assert(kept.dom().subset_of(other.dom().remove(x)));
            vstd::set_lib::lemma_len_subset(kept.dom(), other.dom().remove(x));
        } else {
            let k = choose|k: PeerAddr| kept.contains_key(k) && !other.contains_key(k);
            if other.dom().subset_of(kept.dom()) {
                assert(other.dom().subset_of(kept.dom().remove(k)));
                vstd::set_lib::lemma_len_subset(other.dom(), kept.dom().remove(k));
            } else {
                let r = choose|r: PeerAddr| other.contains_key(r) && !kept.contains_key(r);
                assert(ranks_ahead(k, m[k], r, m[r]));
                assert(ranks_ahead(r, m[r], k, m[k]));
                lemma_ranks_ahead_order(k, m[k], r, m[r], k, m[k]);
            }
        }
    }
    assert forall|k: PeerAddr| kept.contains_key(k) implies kept[k] == other[k] by {
        assert(kept.dom().contains(k) && m.dom().contains(k));
        assert(other.dom().contains(k) && m.dom().contains(k));
    }
    assert(kept =~= other);
    assert forall|k: PeerAddr, r: PeerAddr|
        #![trigger kept.contains_key(k), kept.contains_key(r)]
        kept.contains_key(k) && m.contains_key(r) && !kept.contains_key(r) implies m[k] > m[r] || (
        m[k] == m[r] && spec_addr_lt(k, r)) by {
        assert(ranks_ahead(k, m[k], r, m[r]));
    }
}

proof fn lemma_kept_dom_finite(m: Map<PeerAddr, u64>, kept: Map<PeerAddr, u64>)
    requires
        m.dom().finite(),
        kept.submap_of(m),
    ensures
        kept.dom().finite(),
{
    assert(kept.dom().subset_of(m.dom()));
    vstd::set_lib::lemma_len_subset(kept.dom(), m.dom());
}

} // verus!
