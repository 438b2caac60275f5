use vstd::prelude::*;
use std::collections::HashMap;
use std::collections::VecDeque;

verus! {

broadcast use vstd::std_specs::hash::group_hash_axioms, vstd::std_specs::vecdeque::group_vec_dequeue_axioms;

/// Authoritative record of one outstanding query: the timestamp at which it
/// was dispatched, as nanoseconds on the caller's clock.
#[derive(Clone, Copy, Debug, PartialEq, Eq, Structural)]
pub struct QueryInfo {
    pub sent: u64,
}

/// Shared dispatch state: the pool of reusable 16-bit transaction ids and the
/// map of in-flight queries. The two update as one unit; a guard around the
/// whole `Store` (taken out by the embedding program) covers only these
/// manipulations, never network writes.
#[derive(Debug)]
pub struct Store {
    /// Free transaction ids, in return-to-pool order: claims pop the front,
    /// returns push the back, giving round-robin recirculation.
    pub ids: VecDeque<u16>,
    /// In-flight queries: present means dispatched and not yet known answered
    /// or expired.
    pub in_flight: HashMap<u16, QueryInfo>,
}

/// The smaller of a requested batch size and the number of free ids.
pub open spec fn claim_count(n: int, avail: int) -> int {
    if n <= avail {
        n
    } else {
        avail
    }
}

impl Store {
    /// The queue of free ids, front first.
    pub open spec fn free(&self) -> Seq<u16> {
        self.ids@
    }

    /// The in-flight map.
    pub open spec fn flight(&self) -> Map<u16, QueryInfo> {
        self.in_flight@
    }

    /// Well-formedness: no id is listed free twice, and no id is both free
    /// and in flight.
    pub open spec fn wf(&self) -> bool {
        &&& self.ids@.no_duplicates()
        &&& forall|i: int|
            0 <= i < self.ids@.len() ==> !self.in_flight@.contains_key(#[trigger] self.ids@[i])
    }

    /// A store whose free pool holds exactly the given ids, in order, with
    /// nothing in flight.
    pub fn with_ids(ids: Vec<u16>) -> (s: Store)
        requires
            ids@.no_duplicates(),
        ensures
            s.wf(),
            s.free() == ids@,
            s.flight() == Map::<u16, QueryInfo>::empty(),
    {
        let mut q: VecDeque<u16> = VecDeque::new();
        let n = ids.len();
        let mut i: usize = 0;
        while i < n
            invariant
                0 <= i <= n,
                n == ids@.len(),
                q@ == ids@.take(i as int),
            decreases n - i,
        {
            q.push_back(ids[i]);
            assert(ids@.take(i + 1 as int) =~= ids@.take(i as int).push(ids@[i as int]));
            i = i + 1;
        }
        assert(ids@.take(n as int) =~= ids@);
        let m: HashMap<u16, QueryInfo> = HashMap::new();
        Store { ids: q, in_flight: m }
    }

    /// The store as it stands at startup: every 16-bit id free, in ascending
    /// order, nothing in flight.
    pub fn new() -> (s: Store)
        ensures
            s.wf(),
            s.free() == Seq::new(65536nat, |i: int| i as u16),
            s.flight() == Map::<u16, QueryInfo>::empty(),
    {
        let mut q: VecDeque<u16> = VecDeque::new();
        let mut i: usize = 0;
        while i < 65536
            invariant
                0 <= i <= 65536,
                q@ == Seq::new(i as nat, |j: int| j as u16),
            decreases 65536 - i,
        {
            q.push_back(i as u16);
            assert(Seq::new((i + 1) as nat, |j: int| j as u16) =~= Seq::new(
                i as nat,
                |j: int| j as u16,
            ).push(i as u16));
            i = i + 1;
        }
        let m: HashMap<u16, QueryInfo> = HashMap::new();
        let s = Store { ids: q, in_flight: m };
        assert forall|i: int, j: int|
            0 <= i < s.ids@.len() && 0 <= j < s.ids@.len() && i != j implies s.ids@[i] != s.ids@[j]
        by {
            assert(s.ids@[i] == i as u16);
            assert(s.ids@[j] == j as u16);
        }
        s
    }

    /// Claim up to `n` ids from the front of the free pool. Each popped id is
    /// checked against the in-flight map and would be discarded if found
    /// there; under well-formedness that never happens, so the result is
    /// exactly the first `claim_count` free ids, in pool order, and they leave
    /// the pool. The in-flight map is untouched: the caller owns the claimed
    /// ids until it marks each in flight.
    pub fn claim(&mut self, n: usize) -> (r: Vec<u16>)
        requires
            old(self).wf(),
        ensures
            final(self).wf(),
            r@ == old(self).free().take(claim_count(n as int, old(self).free().len() as int)),
            final(self).free() == old(self).free().skip(
                claim_count(n as int, old(self).free().len() as int),
            ),
            final(self).flight() == old(self).flight(),
            r@.no_duplicates(),
            forall|i: int| 0 <= i < r@.len() ==> !final(self).free().contains(#[trigger] r@[i]),
            forall|i: int| 0 <= i < r@.len() ==> !final(self).flight().contains_key(#[trigger] r@[i]),
    {
        let ghost free0 = self.ids@;
        let ghost k = claim_count(n as int, free0.len() as int);
        let mut r: Vec<u16> = Vec::new();
        let mut c: usize = 0;
        while c < n
            invariant
                0 <= c <= n,
                k == claim_count(n as int, free0.len() as int),
                c <= k ==> r@ == free0.take(c as int) && self.ids@ == free0.skip(c as int),
                c > k ==> r@ == free0.take(k) && self.ids@ == free0.skip(k) && self.ids@.len() == 0,
                self.in_flight@ == old(self).in_flight@,
                free0.no_duplicates(),
                forall|i: int|
                    0 <= i < self.ids@.len() ==> !self.in_flight@.contains_key(
                        #[trigger] self.ids@[i],
                    ),
            decreases n - c,
        {
            match self.ids.pop_front() {
                Some(id) => {
                    assert(c < k) by {
                        assert(self.ids@.len() + 1 > 0);
                    }
                    assert(id == free0[c as int]);
                    if !self.in_flight.contains_key(&id) {
                        r.push(id);
                    }
                    assert(r@ =~= free0.take(c + 1));
                    assert(free0.skip(c as int).drop_first() =~= free0.skip(c + 1));
                },
                None => {
                    assert(c >= k);
                },
            }
            c = c + 1;
        }
        proof {
            if k < n {
                assert(self.ids@ =~= free0.skip(k));
            }
            assert(r@ == free0.take(k));
            assert(free0.take(k).no_duplicates()) by {
                assert forall|i: int, j: int|
                    0 <= i < k && 0 <= j < k && i != j implies free0.take(k)[i] != free0.take(k)[j]
                by {
                    assert(free0[i] != free0[j]);
                }
            }
            assert forall|i: int| 0 <= i < r@.len() implies !self.ids@.contains(#[trigger] r@[i]) by {
                if self.ids@.contains(r@[i]) {
                    let w = choose|w: int| 0 <= w < self.ids@.len() && self.ids@[w] == r@[i];
                    assert(free0[i] == free0[k + w]);
                }
            }
        }
        r
    }

    /// Record a claimed id as in flight, carrying its dispatch timestamp. The
    /// id must be one the caller claimed: no longer free, not yet marked.
    pub fn mark_in_flight(&mut self, id: u16, info: QueryInfo)
        requires
            old(self).wf(),
            !old(self).free().contains(id),
        ensures
            final(self).wf(),
            final(self).free() == old(self).free(),
            final(self).flight() == old(self).flight().insert(id, info),
    {
        self.in_flight.insert(id, info);
        proof {
            assert forall|i: int| 0 <= i < self.ids@.len() implies !self.in_flight@.contains_key(
                #[trigger] self.ids@[i],
            ) by {
                assert(self.ids@.contains(self.ids@[i]));
            }
        }
    }

    /// Take an in-flight id out of the map and return it to the back of the
    /// free pool: the reconciliation step, used on a matched response or a
    /// timeout.
    pub fn release(&mut self, id: u16)
        requires
            old(self).wf(),
            old(self).flight().contains_key(id),
        ensures
            final(self).wf(),
            final(self).free() == old(self).free().push(id),
            final(self).flight() == old(self).flight().remove(id),
    {
        proof {
            if self.ids@.contains(id) {
                let w = choose|w: int| 0 <= w < self.ids@.len() && self.ids@[w] == id;
                assert(!self.in_flight@.contains_key(self.ids@[w]));
            }
        }
        self.in_flight.remove(&id);
        self.ids.push_back(id);
        proof {
            assert forall|i: int| 0 <= i < self.ids@.len() implies !self.in_flight@.contains_key(
                #[trigger] self.ids@[i],
            ) by {
                if i < self.ids@.len() - 1 {
                    assert(self.ids@[i] == old(self).ids@[i]);
                }
            }
        }
    }

    /// How many ids are free.
    pub fn free_len(&self) -> (n: usize)
        ensures
            n == self.free().len(),
    {
        self.ids.len()
    }

    /// How many queries are in flight.
    pub fn in_flight_len(&self) -> (n: usize)
        ensures
            n == self.flight().dom().len(),
    {
        self.in_flight.len()
    }
}

/// The full id universe as the startup pool holds it: every 16-bit value,
/// ascending.
pub open spec fn full_pool() -> Seq<u16> {
    Seq::new(65536nat, |i: int| i as u16)
}

/// The total of a sequence of batch-size requests.
pub open spec fn sum_requests(reqs: Seq<nat>) -> int
    decreases reqs.len(),
{
    if reqs.len() == 0 {
        0
    } else {
        reqs[0] + sum_requests(reqs.drop_first())
    }
}

/// All the ids handed out by a run of claims of the requested sizes against a
/// store whose free pool holds `free` and whose in-flight map is empty: each
/// claim takes a prefix of what is left, exactly as `Store::claim` promises,
/// and nothing between the claims puts ids back.
pub open spec fn claims_concat(free: Seq<u16>, reqs: Seq<nat>) -> Seq<u16>
    decreases reqs.len(),
{
    if reqs.len() == 0 {
        Seq::empty()
    } else {
        let k = claim_count(reqs[0] as int, free.len() as int);
        free.take(k) + claims_concat(free.skip(k), reqs.drop_first())
    }
}

/// Claims against any duplicate-free pool large enough for their total hand
/// out exactly that many ids, all distinct, all drawn from the pool.
pub proof fn lemma_claims_concat_distinct(free: Seq<u16>, reqs: Seq<nat>)
    requires
        free.no_duplicates(),
        sum_requests(reqs) <= free.len(),
    ensures
        claims_concat(free, reqs).len() == sum_requests(reqs),
        claims_concat(free, reqs).no_duplicates(),
        forall|x: u16| claims_concat(free, reqs).contains(x) ==> free.contains(x),
    decreases reqs.len(),
{
    if reqs.len() == 0 {
    } else {
        let k = claim_count(reqs[0] as int, free.len() as int);
        assert(k == reqs[0]) by {
            assert(sum_requests(reqs.drop_first()) >= 0) by {
                lemma_sum_requests_nonneg(reqs.drop_first());
            }
        }
        let head = free.take(k);
        let rest = free.skip(k);
        let tail = claims_concat(rest, reqs.drop_first());
        assert(rest.no_duplicates()) by {
            assert forall|i: int, j: int|
                0 <= i < rest.len() && 0 <= j < rest.len() && i != j implies rest[i] != rest[j] by {
                assert(free[k + i] != free[k + j]);
            }
        }
        lemma_claims_concat_distinct(rest, reqs.drop_first());
        assert(head.no_duplicates()) by {
            assert forall|i: int, j: int|
                0 <= i < head.len() && 0 <= j < head.len() && i != j implies head[i] != head[j] by {
                assert(free[i] != free[j]);
            }
        }
        assert forall|i: int, j: int|
            0 <= i < head.len() && 0 <= j < tail.len() implies head[i] != tail[j] by {
            assert(tail.contains(tail[j]));
            assert(rest.contains(tail[j]));
            let w = choose|w: int| 0 <= w < rest.len() && rest[w] == tail[j];
            assert(free[i] == head[i]);
            assert(free[k + w] == rest[w]);
        }
        let out = claims_concat(free, reqs);
        assert(out == head + tail);
        assert(out.no_duplicates()) by {
            assert forall|i: int, j: int|
                0 <= i < out.len() && 0 <= j < out.len() && i != j implies out[i] != out[j] by {
                if i < head.len() && j < head.len() {
                } else if i >= head.len() && j >= head.len() {
                    assert(tail[i - head.len()] != tail[j - head.len()]);
                } else if i < head.len() {
                    assert(head[i] != tail[j - head.len()]);
                } else {
                    assert(head[j] != tail[i - head.len()]);
                }
            }
        }
        assert forall|x: u16| out.contains(x) implies free.contains(x) by {
            let w = choose|w: int| 0 <= w < out.len() && out[w] == x;
            if w < head.len() {
                assert(free[w] == x);
            } else {
                assert(tail.contains(tail[w - head.len()]));
                assert(rest.contains(x));
                let v = choose|v: int| 0 <= v < rest.len() && rest[v] == x;
                assert(free[k + v] == x);
            }
        }
    }
}

/// A total of batch requests is never negative.
proof fn lemma_sum_requests_nonneg(reqs: Seq<nat>)
    ensures
        sum_requests(reqs) >= 0,
    decreases reqs.len(),
{
    if reqs.len() == 0 {
    } else {
        lemma_sum_requests_nonneg(reqs.drop_first());
    }
}

/// Any run of claims totalling at most 65536 against the initially full pool
/// hands out exactly that many ids with no duplicate among them.
pub proof fn lemma_full_pool_claims(reqs: Seq<nat>)
    requires
        sum_requests(reqs) <= 65536,
    ensures
        claims_concat(full_pool(), reqs).len() == sum_requests(reqs),
        claims_concat(full_pool(), reqs).no_duplicates(),
{
    assert(full_pool().no_duplicates()) by {
        assert forall|i: int, j: int|
            0 <= i < full_pool().len() && 0 <= j < full_pool().len() && i != j
            implies full_pool()[i] != full_pool()[j] by {
            assert(full_pool()[i] == i as u16);
            assert(full_pool()[j] == j as u16);
        }
    }
    lemma_claims_concat_distinct(full_pool(), reqs);
}

/// The set of every 16-bit id is finite and holds 65536 members.
proof fn lemma_u16_universe()
    ensures
        (Set::new(|x: u16| true)).finite(),
        (Set::new(|x: u16| true)).len() == 65536,
{
    let ints = vstd::set_lib::set_int_range(0, 65536);
    let f = |i: int| i as u16;
    let univ = Set::new(|x: u16| true);
    vstd::set_lib::lemma_int_range(0, 65536);
    assert(vstd::relations::injective_on(f, ints)) by {
        assert forall|i: int, j: int|
            #[trigger] ints.contains(i) && #[trigger] ints.contains(j) && f(i) == f(j)
            implies i == j by {
            assert(i as u16 as int == i);
            assert(j as u16 as int == j);
        }
    }
    assert(ints.map(f) =~= univ) by {
        assert forall|x: u16| univ.contains(x) implies ints.map(f).contains(x) by {
            assert(ints.contains(x as int));
            assert(f(x as int) == x);
        }
    }
    vstd::set_lib::lemma_map_size(ints, univ, f);
}

/// The free pool and the in-flight map together never hold more than the
/// 65536 ids there are: the pool lists no id twice, no id is both free and in
/// flight, and there is nowhere else for an id to be counted.
pub proof fn lemma_store_capacity(s: &Store)
    requires
        s.wf(),
    ensures
        s.free().len() + s.flight().dom().len() <= 65536,
{
    let fs = s.free().to_set();
    let dom = s.flight().dom();
    let univ = Set::new(|x: u16| true);
    s.free().unique_seq_to_set();
    lemma_u16_universe();
    assert(fs.disjoint(dom)) by {
        assert forall|x: u16| fs.contains(x) implies !dom.contains(x) by {
            let w = choose|w: int| 0 <= w < s.free().len() && s.free()[w] == x;
            assert(!s.flight().contains_key(s.free()[w]));
        }
    }
    vstd::set_lib::lemma_set_disjoint_lens(fs, dom);
    assert((fs + dom).len() == fs.len() + dom.len());
    vstd::set_lib::lemma_len_subset(fs + dom, univ);
}

/// An id recorded in the in-flight map is not in the free pool, in any
/// well-formed store. Every operation of `Store` keeps the store well-formed,
/// and only `release` moves an id from the map back to the pool, so an id
/// moved in flight stays out of the free pool until it is explicitly
/// returned.
pub proof fn lemma_in_flight_not_free(s: &Store, id: u16)
    requires
        s.wf(),
        s.flight().contains_key(id),
    ensures
        !s.free().contains(id),
{
    if s.free().contains(id) {
        let w = choose|w: int| 0 <= w < s.free().len() && s.free()[w] == id;
        assert(!s.flight().contains_key(s.free()[w]));
    }
}

} // verus!
