//! Load-balancing strategies: weighted round robin, least connections and
//! consistent hashing over a cluster's endpoints, with health-aware
//! selection and protocol-agnostic dispatch.

use vstd::prelude::*;

use crate::text::str_eq;

verus! {

// ---------------------------------------------------------------------------
// Endpoints and health
// ---------------------------------------------------------------------------

/// An upstream endpoint with its position in the cluster and its weight.
pub struct WeightedEndpoint {
    /// The endpoint's address, such as `10.0.0.1:80`.
    pub address: String,
    /// The endpoint's position among the cluster's endpoints; health state
    /// is kept by this position.
    pub index: usize,
    /// The endpoint's share of the traffic relative to the others.
    pub weight: u32,
}

/// Health of a cluster's endpoints, by endpoint position. An endpoint whose
/// position lies beyond the recorded states counts as healthy.
pub struct ClusterHealthState {
    /// `healthy[i]` tells whether the endpoint at position `i` passes its checks.
    pub healthy: Vec<bool>,
}

/// Whether `ep` may be selected under `health`; without health state every
/// endpoint may.
pub open spec fn is_healthy(health: Option<&ClusterHealthState>, ep: WeightedEndpoint) -> bool {
    match health {
        None => true,
        Some(h) => ep.index >= h.healthy@.len() || h.healthy@[ep.index as int],
    }
}

fn endpoint_healthy(health: Option<&ClusterHealthState>, ep: &WeightedEndpoint) -> (b: bool)
    ensures
        b == is_healthy(health, *ep),
{
    match health {
        None => true,
        Some(h) => ep.index >= h.healthy.len() || h.healthy[ep.index],
    }
}

/// The address texts of the endpoints.
pub open spec fn addresses(eps: Seq<WeightedEndpoint>) -> Seq<Seq<char>> {
    eps.map_values(|ep: WeightedEndpoint| ep.address@)
}

/// The position `k` steps after `start`, cyclically among `n` positions.
pub open spec fn cyclic(start: int, k: int, n: int) -> int {
    (start + k) % n
}

proof fn lemma_cyclic(start: int, k: int, n: int)
    requires
        0 <= start < n,
        0 <= k < n,
    ensures
        cyclic(start, k, n) == if start + k < n {
            start + k
        } else {
            start + k - n
        },
        0 <= cyclic(start, k, n) < n,
{
    if start + k < n {
        vstd::arithmetic::div_mod::lemma_small_mod((start + k) as nat, n as nat);
    } else {
        vstd::arithmetic::div_mod::lemma_mod_add_multiples_vanish(start + k - n, n);
        vstd::arithmetic::div_mod::lemma_small_mod((start + k - n) as nat, n as nat);
    }
}

proof fn lemma_cyclic_onto(start: int, i: int, n: int) -> (k: int)
    requires
        0 <= start < n,
        0 <= i < n,
    ensures
        0 <= k < n,
        cyclic(start, k, n) == i,
{
    let k = if i >= start {
        i - start
    } else {
        i + n - start
    };
    lemma_cyclic(start, k, n);
    k
}

// ---------------------------------------------------------------------------
// Round robin
// ---------------------------------------------------------------------------

/// Whether round robin may pick `ep`: it is healthy and has a positive weight.
pub open spec fn rr_eligible(health: Option<&ClusterHealthState>, ep: WeightedEndpoint) -> bool {
    is_healthy(health, ep) && ep.weight > 0
}

/// Cycle through endpoints in order, serving each endpoint as many times in
/// a row as its weight before moving to the next.
pub struct RoundRobin {
    endpoints: Vec<WeightedEndpoint>,
    cursor: usize,
    served: u32,
}

impl RoundRobin {
    /// The endpoints, in cycle order.
    pub closed spec fn spec_endpoints(&self) -> Seq<WeightedEndpoint> {
        self.endpoints@
    }

    /// The position at which the next search starts.
    pub closed spec fn spec_cursor(&self) -> int {
        self.cursor as int
    }

    /// How many times in a row the endpoint at the cursor has been served.
    pub closed spec fn spec_served(&self) -> int {
        self.served as int
    }

    /// The cursor points at an endpoint (or is 0 when there is none).
    #[verifier::type_invariant]
    spec fn cursor_in_range(self) -> bool {
        self.cursor < self.endpoints@.len() || (self.cursor == 0 && self.endpoints@.len() == 0)
    }

    /// Start a cycle at the first endpoint.
    pub fn new(endpoints: Vec<WeightedEndpoint>) -> (rr: Self)
        ensures
            rr.spec_endpoints() == endpoints@,
            rr.spec_cursor() == 0,
            rr.spec_served() == 0,
    {
        RoundRobin { endpoints, cursor: 0, served: 0 }
    }

    /// The first eligible endpoint at or after the cursor, in cyclic order.
    /// After picking it, the cursor stays on it until it has been served
    /// its weight in a row, then moves to the next position.
    pub fn select(&mut self, health: Option<&ClusterHealthState>) -> (r: Option<String>)
        ensures
            rr_selected(*old(self), *final(self), health, r),
    {
        proof {
            use_type_invariant(&*self);
        }
        let n = self.endpoints.len();
        let mut k: usize = 0;
        while k < n
            invariant
                n == self.endpoints@.len(),
                n > 0 ==> self.cursor < n,
                *self == *old(self),
                k <= n,
                forall|j: int| 0 <= j < k ==> !rr_eligible(health, #[trigger] self.endpoints@[cyclic(self.cursor as int, j, n as int)]),
            decreases n - k,
        {
            let idx = if k < n - self.cursor {
                self.cursor + k
            } else {
                k - (n - self.cursor)
            };
            proof {
                lemma_cyclic(self.cursor as int, k as int, n as int);
            }
            let ep = &self.endpoints[idx];
            if endpoint_healthy(health, ep) && ep.weight > 0 {
                let ghost before = *self;
                let served: u32 = if k == 0 && self.served < u32::MAX {
                    self.served + 1
                } else {
                    1
                };
                if served >= ep.weight {
                    self.cursor = (idx + 1) % n;
                    self.served = 0;
                } else {
                    self.cursor = idx;
                    self.served = served;
                }
                let a = ep.address.clone();
                assert(rr_advanced(before, *self, k as int));
                assert(rr_picks_at(before, health, k as int));
                assert(a@ == before.spec_endpoints()[cyclic(before.spec_cursor(), k as int, n as int)].address@);
                return Some(a);
            }
            k = k + 1;
        }
        proof {
            assert forall|i: int| 0 <= i < n implies !rr_eligible(health, #[trigger] self.endpoints@[i]) by {
                let j = lemma_cyclic_onto(self.cursor as int, i, n as int);
                assert(!rr_eligible(health, self.endpoints@[cyclic(self.cursor as int, j, n as int)]));
            }
        }
        None
    }
}

/// What a round-robin selection guarantees: some endpoint is returned
/// exactly when some endpoint is eligible; it is the first eligible one at
/// or after the cursor in cyclic order, and the cursor advances as
/// `rr_advanced` says. A selection that finds nothing changes nothing.
pub open spec fn rr_selected(
    before: RoundRobin,
    after: RoundRobin,
    health: Option<&ClusterHealthState>,
    r: Option<String>,
) -> bool {
    let n = before.spec_endpoints().len() as int;
    &&& after.spec_endpoints() == before.spec_endpoints()
    &&& (r is Some <==> exists|i: int| 0 <= i < n && rr_eligible(health, #[trigger] before.spec_endpoints()[i]))
    &&& (r is None ==> after == before)
    &&& (r matches Some(a) ==> exists|k: int|
        0 <= k < n && rr_picks_at(before, health, k) && a@ == before.spec_endpoints()[cyclic(
            before.spec_cursor(),
            k,
            n,
        )].address@ && rr_advanced(before, after, k))
}

/// Round robin picks the endpoint `k` steps after its cursor: it is
/// eligible and every endpoint before it in cyclic order is not.
pub open spec fn rr_picks_at(rr: RoundRobin, health: Option<&ClusterHealthState>, k: int) -> bool {
    let n = rr.spec_endpoints().len() as int;
    &&& rr_eligible(health, rr.spec_endpoints()[cyclic(rr.spec_cursor(), k, n)])
    &&& forall|j: int| 0 <= j < k ==> !rr_eligible(health, #[trigger] rr.spec_endpoints()[cyclic(rr.spec_cursor(), j, n)])
}

/// The state after serving the endpoint `k` steps after the cursor: the
/// run length grows when the cursor's own endpoint is served again, and
/// once an endpoint has been served its weight in a row the cursor moves
/// past it.
pub open spec fn rr_advanced(before: RoundRobin, after: RoundRobin, k: int) -> bool {
    let n = before.spec_endpoints().len() as int;
    let idx = cyclic(before.spec_cursor(), k, n);
    let served = if k == 0 && before.spec_served() < u32::MAX {
        before.spec_served() + 1
    } else {
        1
    };
    if served >= before.spec_endpoints()[idx].weight {
        after.spec_cursor() == (idx + 1) % n && after.spec_served() == 0
    } else {
        after.spec_cursor() == idx && after.spec_served() == served
    }
}


// ---------------------------------------------------------------------------
// Consistent hash
// ---------------------------------------------------------------------------

/// The modulus of the key hash.
pub const HASH_MODULUS: u64 = 1_000_000_007;

/// A polynomial hash of a key's characters.
pub open spec fn key_hash(s: Seq<char>) -> nat
    decreases s.len(),
{
    if s.len() == 0 {
        0
    } else {
        ((key_hash(s.drop_last()) * 31 + (s.last() as nat)) % (HASH_MODULUS as nat)) as nat
    }
}

fn hash_key_text(s: &str) -> (h: u64)
    ensures
        h == key_hash(s@),
        h < HASH_MODULUS,
{
    let n = s.unicode_len();
    let mut h: u64 = 0;
    let mut i: usize = 0;
    while i < n
        invariant
            n == s@.len(),
            i <= n,
            h < HASH_MODULUS,
            h == key_hash(s@.take(i as int)),
        decreases n - i,
    {
        let c = s.get_char(i);
        proof {
            assert(s@.take(i + 1).drop_last() =~= s@.take(i as int));
            assert(s@.take(i + 1).last() == c);
        }
        h = (h * 31 + (c as u64)) % HASH_MODULUS;
        i = i + 1;
    }
    assert(s@.take(n as int) =~= s@);
    h
}

/// The text a request is hashed by; a missing key hashes as the empty text.
pub open spec fn key_text(key: Option<&str>) -> Seq<char> {
    match key {
        Some(k) => k@,
        None => Seq::empty(),
    }
}

/// The position a key hashes to before health is considered.
pub open spec fn home_position(key: Seq<char>, n: int) -> int {
    (key_hash(key) % (n as nat)) as int
}

/// The position consistent hashing picks: the first healthy endpoint at or
/// after the key's home position in cyclic order, or the home position
/// itself when no endpoint is healthy.
pub open spec fn ch_position(eps: Seq<WeightedEndpoint>, health: Option<&ClusterHealthState>, key: Seq<char>) -> int {
    let n = eps.len() as int;
    let home = home_position(key, n);
    if exists|k: int| 0 <= k < n && is_healthy(health, #[trigger] eps[cyclic(home, k, n)]) {
        let k = choose|k: int|
            0 <= k < n && is_healthy(health, #[trigger] eps[cyclic(home, k, n)]) && forall|j: int|
                0 <= j < k ==> !is_healthy(health, #[trigger] eps[cyclic(home, j, n)]);
        cyclic(home, k, n)
    } else {
        home
    }
}

/// Hash a request attribute to a stable endpoint.
pub struct ConsistentHash {
    endpoints: Vec<WeightedEndpoint>,
    header: Option<String>,
}

impl ConsistentHash {
    /// The endpoints.
    pub closed spec fn spec_endpoints(&self) -> Seq<WeightedEndpoint> {
        self.endpoints@
    }

    /// The request header whose value is hashed, if configured.
    pub closed spec fn spec_header(&self) -> Option<String> {
        self.header
    }

    /// Hash over `endpoints`, keyed by the `header` request header when set.
    pub fn new(endpoints: Vec<WeightedEndpoint>, header: Option<String>) -> (ch: Self)
        ensures
            ch.spec_endpoints() == endpoints@,
            ch.spec_header() == header,
    {
        ConsistentHash { endpoints, header }
    }

    /// The request header whose value is hashed, if configured.
    pub fn header(&self) -> (r: Option<&str>)
        ensures
            r is Some <==> self.spec_header() is Some,
            r matches Some(h) ==> h@ == self.spec_header()->0@,
    {
        match &self.header {
            Some(h) => Some(h.as_str()),
            None => None,
        }
    }

    /// The endpoint for `hash_key`: the first healthy endpoint at or after
    /// the key's home position, or the home endpoint when none is healthy.
    pub fn select(&self, hash_key: Option<&str>, health: Option<&ClusterHealthState>) -> (r: String)
        requires
            self.spec_endpoints().len() > 0,
        ensures
            r@ == self.spec_endpoints()[ch_position(self.spec_endpoints(), health, key_text(hash_key))].address@,
    {
        let n = self.endpoints.len();
        let h = match hash_key {
            Some(k) => hash_key_text(k),
            None => {
                assert(key_text(hash_key) =~= Seq::<char>::empty());
                0
            },
        };
        let home = (h % (n as u64)) as usize;
        let ghost key = key_text(hash_key);
        assert(home == home_position(key, n as int));
        let mut k: usize = 0;
        while k < n
            invariant
                n == self.endpoints@.len(),
                n > 0,
                0 <= home < n,
                home == home_position(key, n as int),
                key == key_text(hash_key),
                k <= n,
                forall|j: int| 0 <= j < k ==> !is_healthy(health, #[trigger] self.endpoints@[cyclic(home as int, j, n as int)]),
            decreases n - k,
        {
            let idx = if k < n - home {
                home + k
            } else {
                k - (n - home)
            };
            proof {
                lemma_cyclic(home as int, k as int, n as int);
            }
            if endpoint_healthy(health, &self.endpoints[idx]) {
                proof {
                    let eps = self.endpoints@;
                    assert(exists|k2: int| 0 <= k2 < n && is_healthy(health, #[trigger] eps[cyclic(home as int, k2, n as int)]));
                    let k2 = choose|k2: int|
                        0 <= k2 < n && is_healthy(health, #[trigger] eps[cyclic(home as int, k2, n as int)]) && forall|j: int|
                            0 <= j < k2 ==> !is_healthy(health, #[trigger] eps[cyclic(home as int, j, n as int)]);
                    if k2 < k {
                        assert(false);
                    } else if k2 > k {
                        assert(!is_healthy(health, eps[cyclic(home as int, k as int, n as int)]));
                    }
                    assert(ch_position(eps, health, key) == idx);
                }
                return self.endpoints[idx].address.clone();
            }
            k = k + 1;
        }
        self.endpoints[home].address.clone()
    }
}

// ---------------------------------------------------------------------------
// Least connections
// ---------------------------------------------------------------------------

/// Pick the endpoint with the fewest in-flight requests.
pub struct LeastConnections {
    endpoints: Vec<WeightedEndpoint>,
    counters: Vec<usize>,
}

/// The first position whose in-flight count is the least among the
/// positions that `pool` admits.
pub open spec fn is_least_loaded(counters: Seq<usize>, pool: spec_fn(int) -> bool, i: int) -> bool {
    &&& 0 <= i < counters.len()
    &&& pool(i)
    &&& forall|j: int| 0 <= j < counters.len() && pool(j) ==> counters[i] <= #[trigger] counters[j]
    &&& forall|j: int| 0 <= j < i && pool(j) ==> counters[i] < #[trigger] counters[j]
}

impl LeastConnections {
    /// The endpoints.
    pub closed spec fn spec_endpoints(&self) -> Seq<WeightedEndpoint> {
        self.endpoints@
    }

    /// The in-flight request count of each endpoint, by position.
    pub closed spec fn spec_counters(&self) -> Seq<usize> {
        self.counters@
    }

    /// One counter per endpoint.
    #[verifier::type_invariant]
    spec fn counter_per_endpoint(self) -> bool {
        self.counters@.len() == self.endpoints@.len()
    }

    /// Every endpoint starts with no request in flight.
    pub fn new(endpoints: Vec<WeightedEndpoint>) -> (lc: Self)
        ensures
            lc.spec_endpoints() == endpoints@,
            lc.spec_counters().len() == endpoints@.len(),
            forall|i: int| 0 <= i < endpoints@.len() ==> #[trigger] lc.spec_counters()[i] == 0,
    {
        let n = endpoints.len();
        let mut counters: Vec<usize> = Vec::new();
        let mut i: usize = 0;
        while i < n
            invariant
                i <= n,
                counters@.len() == i,
                forall|j: int| 0 <= j < i ==> #[trigger] counters@[j] == 0,
            decreases n - i,
        {
            counters.push(0);
            i = i + 1;
        }
        LeastConnections { endpoints, counters }
    }

    /// Pick the healthy endpoint with the fewest in-flight requests (the
    /// first such on a tie) and count one more request on it. When no
    /// endpoint is healthy, all endpoints are considered.
    pub fn select(&mut self, health: Option<&ClusterHealthState>) -> (r: String)
        requires
            old(self).spec_endpoints().len() > 0,
        ensures
            lc_selected(*old(self), *final(self), health, r),
    {
        proof {
            use_type_invariant(&*self);
        }
        let ghost pool = lc_pool(self.endpoints@, health);
        let n = self.endpoints.len();
        let mut any_healthy = false;
        let mut i: usize = 0;
        while i < n
            invariant
                n == self.endpoints@.len(),
                i <= n,
                any_healthy == exists|j: int| 0 <= j < i && is_healthy(health, #[trigger] self.endpoints@[j]),
            decreases n - i,
        {
            if endpoint_healthy(health, &self.endpoints[i]) {
                any_healthy = true;
            }
            i = i + 1;
        }
        assert(pool == (|j: int| !any_healthy || is_healthy(health, self.endpoints@[j])));
        let mut best: usize = n;
        let mut i: usize = 0;
        while i < n
            invariant
                n == self.endpoints@.len(),
                n == self.counters@.len(),
                pool == (|j: int| !any_healthy || is_healthy(health, self.endpoints@[j])),
                any_healthy == exists|j: int| 0 <= j < n && is_healthy(health, #[trigger] self.endpoints@[j]),
                i <= n,
                best == n || (best < i && pool(best as int)),
                best == n ==> forall|j: int| 0 <= j < i ==> !#[trigger] pool(j),
                best < n ==> forall|j: int| 0 <= j < i && pool(j) ==> self.counters@[best as int] <= #[trigger] self.counters@[j],
                best < n ==> forall|j: int| 0 <= j < best && pool(j) ==> self.counters@[best as int] < #[trigger] self.counters@[j],
            decreases n - i,
        {
            let in_pool = !any_healthy || endpoint_healthy(health, &self.endpoints[i]);
            if in_pool && (best == n || self.counters[i] < self.counters[best]) {
                best = i;
            }
            i = i + 1;
        }
        proof {
            if best == n {
                if any_healthy {
                    let j = choose|j: int| 0 <= j < n && is_healthy(health, #[trigger] self.endpoints@[j]);
                    assert(pool(j));
                } else {
                    assert(pool(0));
                }
            }
        }
        let c = self.counters[best];
        let next = if c < usize::MAX {
            c + 1
        } else {
            c
        };
        self.counters[best] = next;
        assert(is_least_loaded(old(self).spec_counters(), pool, best as int));
        self.endpoints[best].address.clone()
    }

    /// Count one request fewer on the first endpoint with address `addr`;
    /// a count of zero stays zero, and an unknown address changes nothing.
    pub fn release(&mut self, addr: &str)
        ensures
            final(self).spec_endpoints() == old(self).spec_endpoints(),
            final(self).spec_counters() == lc_released(old(self).spec_endpoints(), old(self).spec_counters(), addr@),
    {
        proof {
            use_type_invariant(&*self);
        }
        let n = self.endpoints.len();
        let mut i: usize = 0;
        while i < n
            invariant
                n == self.endpoints@.len(),
                n == self.counters@.len(),
                self.counters@ == old(self).counters@,
                self.endpoints@ == old(self).endpoints@,
                i <= n,
                forall|j: int| 0 <= j < i ==> #[trigger] self.endpoints@[j].address@ != addr@,
            decreases n - i,
        {
            if str_eq(self.endpoints[i].address.as_str(), addr) {
                let c = self.counters[i];
                let next = if c > 0 {
                    c - 1
                } else {
                    0
                };
                self.counters[i] = next;
                assert(first_with_address(self.endpoints@, addr@) == i as int) by {
                    lemma_first_with_address(self.endpoints@, addr@, i as int);
                }
                return;
            }
            i = i + 1;
        }
        assert(first_with_address(self.endpoints@, addr@) == -1) by {
            lemma_no_address(self.endpoints@, addr@);
        }
    }

    /// The in-flight request count of the first endpoint with address `addr`.
    pub fn in_flight(&self, addr: &str) -> (r: Option<usize>)
        ensures
            first_with_address(self.spec_endpoints(), addr@) == -1 ==> r is None,
            first_with_address(self.spec_endpoints(), addr@) != -1 ==> r == Some(
                self.spec_counters()[first_with_address(self.spec_endpoints(), addr@)],
            ),
    {
        proof {
            use_type_invariant(self);
        }
        let n = self.endpoints.len();
        let mut i: usize = 0;
        while i < n
            invariant
                n == self.endpoints@.len(),
                n == self.counters@.len(),
                i <= n,
                forall|j: int| 0 <= j < i ==> #[trigger] self.endpoints@[j].address@ != addr@,
            decreases n - i,
        {
            if str_eq(self.endpoints[i].address.as_str(), addr) {
                proof {
                    lemma_first_with_address(self.endpoints@, addr@, i as int);
                }
                return Some(self.counters[i]);
            }
            i = i + 1;
        }
        proof {
            lemma_no_address(self.endpoints@, addr@);
        }
        None
    }
}

/// What a least-connections selection guarantees: the returned endpoint is
/// the first least loaded among the healthy ones (or among all when none is
/// healthy), and exactly its in-flight count grows by one.
pub open spec fn lc_selected(
    before: LeastConnections,
    after: LeastConnections,
    health: Option<&ClusterHealthState>,
    r: String,
) -> bool {
    &&& after.spec_endpoints() == before.spec_endpoints()
    &&& exists|i: int|
        {
            &&& #[trigger] is_least_loaded(before.spec_counters(), lc_pool(before.spec_endpoints(), health), i)
            &&& r@ == before.spec_endpoints()[i].address@
            &&& after.spec_counters() == before.spec_counters().update(i, saturating_inc(before.spec_counters()[i]))
        }
}

/// The positions least connections chooses among: the healthy endpoints,
/// or all of them when none is healthy.
pub open spec fn lc_pool(eps: Seq<WeightedEndpoint>, health: Option<&ClusterHealthState>) -> spec_fn(int) -> bool {
    let any_healthy = exists|j: int| 0 <= j < eps.len() && is_healthy(health, #[trigger] eps[j]);
    |j: int| !any_healthy || is_healthy(health, eps[j])
}

/// One more, unless the count is already at its maximum.
pub open spec fn saturating_inc(c: usize) -> usize {
    if c < usize::MAX {
        (c + 1) as usize
    } else {
        c
    }
}

/// The position of the first endpoint with address `addr`, or -1.
pub open spec fn first_with_address(eps: Seq<WeightedEndpoint>, addr: Seq<char>) -> int
    decreases eps.len(),
{
    if eps.len() == 0 {
        -1
    } else if eps.last().address@ == addr && first_with_address(eps.drop_last(), addr) == -1 {
        eps.len() - 1
    } else {
        first_with_address(eps.drop_last(), addr)
    }
}

proof fn lemma_first_with_address(eps: Seq<WeightedEndpoint>, addr: Seq<char>, i: int)
    requires
        0 <= i < eps.len(),
        eps[i].address@ == addr,
        forall|j: int| 0 <= j < i ==> #[trigger] eps[j].address@ != addr,
    ensures
        first_with_address(eps, addr) == i,
    decreases eps.len(),
{
    if i < eps.len() - 1 {
        lemma_first_with_address(eps.drop_last(), addr, i);
    } else {
        lemma_no_address(eps.drop_last(), addr);
    }
}

proof fn lemma_no_address(eps: Seq<WeightedEndpoint>, addr: Seq<char>)
    requires
        forall|j: int| 0 <= j < eps.len() ==> #[trigger] eps[j].address@ != addr,
    ensures
        first_with_address(eps, addr) == -1,
    decreases eps.len(),
{
    if eps.len() > 0 {
        lemma_no_address(eps.drop_last(), addr);
    }
}

/// The counters after releasing one request on the first endpoint with
/// address `addr` (never below zero); unchanged for an unknown address.
pub open spec fn lc_released(eps: Seq<WeightedEndpoint>, counters: Seq<usize>, addr: Seq<char>) -> Seq<usize> {
    let i = first_with_address(eps, addr);
    if i == -1 {
        counters
    } else {
        counters.update(i, if counters[i] > 0 { (counters[i] - 1) as usize } else { 0 })
    }
}

// ---------------------------------------------------------------------------
// Strategy
// ---------------------------------------------------------------------------

/// A strategy that needs no parameters.
#[derive(Clone, Copy, PartialEq, Eq, Structural)]
pub enum SimpleStrategy {
    /// Weighted round robin.
    RoundRobin,
    /// Fewest in-flight requests.
    LeastConnections,
}

/// Options of consistent hashing.
pub struct ConsistentHashOpts {
    /// The request header whose value is hashed; without it the caller
    /// hashes another request attribute (the URI path, the client address).
    pub header: Option<String>,
}

/// A strategy with parameters.
pub enum ParameterisedStrategy {
    /// Consistent hashing.
    ConsistentHash(ConsistentHashOpts),
}

/// The load-balancing strategy named in a cluster's configuration.
pub enum LoadBalancerStrategy {
    /// A strategy without parameters.
    Simple(SimpleStrategy),
    /// A strategy with parameters.
    Parameterised(ParameterisedStrategy),
}

/// Load-balancing strategy variant for a cluster.
pub enum Strategy {
    /// Cycle through endpoints in order, respecting weights.
    RoundRobin(RoundRobin),
    /// Pick the endpoint with the fewest active requests.
    LeastConnections(LeastConnections),
    /// Hash a request attribute to a stable endpoint.
    ConsistentHash(ConsistentHash),
}

impl Strategy {
    /// Well-formedness: the strategy's state is consistent, and strategies
    /// that always answer with an endpoint have at least one.
    pub open spec fn wf(&self) -> bool {
        match self {
            Strategy::RoundRobin(_) => true,
            Strategy::LeastConnections(lc) => lc.spec_endpoints().len() > 0,
            Strategy::ConsistentHash(ch) => ch.spec_endpoints().len() > 0,
        }
    }

    /// Pick the next endpoint address using a protocol-agnostic hash key.
    ///
    /// For HTTP, the caller extracts the key from headers or URI path. For
    /// TCP, the caller typically passes the client IP address.
    pub fn select(&mut self, hash_key: Option<&str>, health: Option<&ClusterHealthState>) -> (r: Option<String>)
        requires
            old(self).wf(),
        ensures
            final(self).wf(),
            match *old(self) {
                Strategy::RoundRobin(rr) => *final(self) matches Strategy::RoundRobin(rr2) && rr_selected(
                    rr,
                    rr2,
                    health,
                    r,
                ),
                Strategy::LeastConnections(lc) => *final(self) matches Strategy::LeastConnections(lc2)
                    && r matches Some(a) && lc_selected(lc, lc2, health, a),
                Strategy::ConsistentHash(ch) => *final(self) == *old(self) && (r matches Some(a) && a@
                    == ch.spec_endpoints()[ch_position(ch.spec_endpoints(), health, key_text(hash_key))].address@),
            },
    {
        match self {
            Strategy::RoundRobin(rr) => rr.select(health),
            Strategy::LeastConnections(lc) => Some(lc.select(health)),
            Strategy::ConsistentHash(ch) => Some(ch.select(hash_key, health)),
        }
    }

    /// Called after a response arrives so that strategies that track
    /// in-flight request counts (least connections) can decrement their
    /// counter; the other strategies are unchanged.
    pub fn release(&mut self, addr: &str)
        requires
            old(self).wf(),
        ensures
            final(self).wf(),
            match *old(self) {
                Strategy::LeastConnections(lc) => *final(self) matches Strategy::LeastConnections(lc2)
                    && lc2.spec_endpoints() == lc.spec_endpoints() && lc2.spec_counters() == lc_released(
                    lc.spec_endpoints(),
                    lc.spec_counters(),
                    addr@,
                ),
                _ => *final(self) == *old(self),
            },
    {
        if let Strategy::LeastConnections(lc) = self {
            lc.release(addr);
        }
    }
}

/// `s` is the freshly built strategy that `lb_strategy` names over
/// `endpoints`: round robin at the first endpoint, least connections with
/// nothing in flight, or consistent hashing on the configured header.
pub open spec fn built_from(s: Strategy, lb_strategy: LoadBalancerStrategy, endpoints: Seq<WeightedEndpoint>) -> bool {
    &&& (s is RoundRobin || endpoints.len() > 0 ==> s.wf())
    &&& match lb_strategy {
        LoadBalancerStrategy::Simple(SimpleStrategy::RoundRobin) => s matches Strategy::RoundRobin(rr)
            && rr.spec_endpoints() == endpoints && rr.spec_cursor() == 0 && rr.spec_served() == 0,
        LoadBalancerStrategy::Simple(SimpleStrategy::LeastConnections) => s matches Strategy::LeastConnections(lc)
            && lc.spec_endpoints() == endpoints && forall|i: int|
            0 <= i < endpoints.len() ==> #[trigger] lc.spec_counters()[i] == 0,
        LoadBalancerStrategy::Parameterised(ParameterisedStrategy::ConsistentHash(opts)) => s matches Strategy::ConsistentHash(
            ch,
        ) && ch.spec_endpoints() == endpoints && ch.spec_header() == opts.header,
    }
}

/// Create the appropriate strategy variant from the config.
pub fn build_strategy(lb_strategy: &LoadBalancerStrategy, endpoints: Vec<WeightedEndpoint>) -> (s: Strategy)
    ensures
        built_from(s, *lb_strategy, endpoints@),
{
    match lb_strategy {
        LoadBalancerStrategy::Simple(SimpleStrategy::RoundRobin) => Strategy::RoundRobin(RoundRobin::new(endpoints)),
        LoadBalancerStrategy::Simple(SimpleStrategy::LeastConnections) => {
            Strategy::LeastConnections(LeastConnections::new(endpoints))
        },
        LoadBalancerStrategy::Parameterised(ParameterisedStrategy::ConsistentHash(opts)) => {
            Strategy::ConsistentHash(ConsistentHash::new(endpoints, opts.header.clone()))
        },
    }
}

// ---------------------------------------------------------------------------
// Laws
// ---------------------------------------------------------------------------

/// Round robin keeps serving the endpoint at its cursor while that endpoint
/// is eligible: it is the one selected, its run grows by one, and the
/// cursor moves on only once the run has reached the endpoint's weight.
pub proof fn round_robin_serves_cursor_by_weight(
    before: RoundRobin,
    after: RoundRobin,
    health: Option<&ClusterHealthState>,
    r: Option<String>,
)
    requires
        0 <= before.spec_cursor() < before.spec_endpoints().len(),
        rr_eligible(health, before.spec_endpoints()[before.spec_cursor()]),
        before.spec_served() < u32::MAX,
        rr_selected(before, after, health, r),
    ensures
        r matches Some(a) && a@ == before.spec_endpoints()[before.spec_cursor()].address@,
        before.spec_served() + 1 < before.spec_endpoints()[before.spec_cursor()].weight ==> after.spec_cursor()
            == before.spec_cursor() && after.spec_served() == before.spec_served() + 1,
        before.spec_served() + 1 >= before.spec_endpoints()[before.spec_cursor()].weight ==> after.spec_cursor()
            == (before.spec_cursor() + 1) % (before.spec_endpoints().len() as int) && after.spec_served() == 0,
{
    let n = before.spec_endpoints().len() as int;
    lemma_cyclic(before.spec_cursor(), 0, n);
    assert(r is Some);
    let k = choose|k: int|
        0 <= k < n && rr_picks_at(before, health, k) && r->0@ == before.spec_endpoints()[cyclic(
            before.spec_cursor(),
            k,
            n,
        )].address@ && rr_advanced(before, after, k);
    if k > 0 {
        assert(!rr_eligible(health, before.spec_endpoints()[cyclic(before.spec_cursor(), 0, n)]));
    }
}

/// Releasing the endpoint that least connections just selected undoes the
/// selection: every in-flight count is back where it was. This holds when
/// addresses are distinct and the selected count was below its maximum.
pub proof fn release_undoes_select(
    before: LeastConnections,
    mid: LeastConnections,
    health: Option<&ClusterHealthState>,
    r: String,
)
    requires
        before.spec_counters().len() == before.spec_endpoints().len(),
        addresses(before.spec_endpoints()).no_duplicates(),
        forall|i: int| 0 <= i < before.spec_counters().len() ==> #[trigger] before.spec_counters()[i] < usize::MAX,
        lc_selected(before, mid, health, r),
    ensures
        lc_released(mid.spec_endpoints(), mid.spec_counters(), r@) == before.spec_counters(),
{
    let eps = before.spec_endpoints();
    let i = choose|i: int|
        {
            &&& #[trigger] is_least_loaded(before.spec_counters(), lc_pool(before.spec_endpoints(), health), i)
            &&& r@ == before.spec_endpoints()[i].address@
            &&& mid.spec_counters() == before.spec_counters().update(i, saturating_inc(before.spec_counters()[i]))
        };
    assert forall|j: int| 0 <= j < i implies #[trigger] eps[j].address@ != r@ by {
        assert(addresses(eps)[j] == eps[j].address@);
        assert(addresses(eps)[i] == eps[i].address@);
    }
    lemma_first_with_address(eps, r@, i);
    assert(lc_released(mid.spec_endpoints(), mid.spec_counters(), r@) =~= before.spec_counters());
}

/// A key keeps its endpoint while that endpoint is healthy: consistent
/// hashing picks the key's home position whenever the endpoint there is
/// healthy, whatever the health of the others (and always without health
/// state).
pub proof fn consistent_hash_is_stable(
    eps: Seq<WeightedEndpoint>,
    health: Option<&ClusterHealthState>,
    key: Seq<char>,
)
    requires
        eps.len() > 0,
        is_healthy(health, eps[home_position(key, eps.len() as int)]),
    ensures
        ch_position(eps, health, key) == home_position(key, eps.len() as int),
{
    let n = eps.len() as int;
    let home = home_position(key, n);
    assert(0 <= home < n) by {
        vstd::arithmetic::div_mod::lemma_mod_bound(key_hash(key) as int, n);
    }
    lemma_cyclic(home, 0, n);
    assert(is_healthy(health, eps[cyclic(home, 0, n)]));
    let k = choose|k: int|
        0 <= k < n && is_healthy(health, #[trigger] eps[cyclic(home, k, n)]) && forall|j: int|
            0 <= j < k ==> !is_healthy(health, #[trigger] eps[cyclic(home, j, n)]);
    if k > 0 {
        assert(!is_healthy(health, eps[cyclic(home, 0, n)]));
    }
}

/// After a round-robin selection the cursor follows the endpoint just
/// served: it stays on that endpoint while its run is shorter than its
/// weight (the run counts how often it was served in a row), and once the
/// run reaches the weight the cursor sits on the position right after it.
pub proof fn round_robin_cursor_follows_pick(
    before: RoundRobin,
    after: RoundRobin,
    health: Option<&ClusterHealthState>,
    a: String,
)
    requires
        0 <= before.spec_cursor() < before.spec_endpoints().len(),
        rr_selected(before, after, health, Some(a)),
    ensures
        0 <= after.spec_cursor() < after.spec_endpoints().len(),
        exists|i: int|
            #![trigger before.spec_endpoints()[i]]
            {
                &&& 0 <= i < before.spec_endpoints().len()
                &&& rr_eligible(health, before.spec_endpoints()[i])
                &&& before.spec_endpoints()[i].address@ == a@
                &&& ((after.spec_cursor() == i && 1 <= after.spec_served()
                    < before.spec_endpoints()[i].weight) || (after.spec_cursor() == (i + 1)
                    % (before.spec_endpoints().len() as int) && after.spec_served() == 0))
            },
{
    let n = before.spec_endpoints().len() as int;
    let k = choose|k: int|
        0 <= k < n && rr_picks_at(before, health, k) && a@ == before.spec_endpoints()[cyclic(
            before.spec_cursor(),
            k,
            n,
        )].address@ && rr_advanced(before, after, k);
    lemma_cyclic(before.spec_cursor(), k, n);
    let i = cyclic(before.spec_cursor(), k, n);
    assert(0 <= (i + 1) % n < n) by {
        vstd::arithmetic::div_mod::lemma_mod_bound(i + 1, n);
    }
    assert(before.spec_endpoints()[i].address@ == a@);
}

/// Once an endpoint's run is over, round robin moves on: if the selection
/// that served endpoint `a` finished its run, the next selection under the
/// same health serves a different endpoint whenever another one is
/// eligible. With weight 1 everywhere, eligible endpoints alternate.
/// (Endpoints are told apart by their addresses, which must be distinct.)
pub proof fn round_robin_moves_on_after_run(
    r0: RoundRobin,
    r1: RoundRobin,
    r2: RoundRobin,
    health: Option<&ClusterHealthState>,
    a: String,
    b: String,
)
    requires
        0 <= r0.spec_cursor() < r0.spec_endpoints().len(),
        addresses(r0.spec_endpoints()).no_duplicates(),
        rr_selected(r0, r1, health, Some(a)),
        r1.spec_served() == 0,
        exists|p: int|
            0 <= p < r0.spec_endpoints().len() && rr_eligible(health, #[trigger] r0.spec_endpoints()[p])
                && r0.spec_endpoints()[p].address@ != a@,
        rr_selected(r1, r2, health, Some(b)),
    ensures
        b@ != a@,
{
    let eps = r0.spec_endpoints();
    let n = eps.len() as int;
    round_robin_cursor_follows_pick(r0, r1, health, a);
    let i = choose|i: int|
        #![trigger eps[i]]
        {
            &&& 0 <= i < n
            &&& rr_eligible(health, eps[i])
            &&& eps[i].address@ == a@
            &&& ((r1.spec_cursor() == i && 1 <= r1.spec_served() < eps[i].weight) || (r1.spec_cursor() == (i
                + 1) % n && r1.spec_served() == 0))
        };
    let start = r1.spec_cursor();
    assert(start == (i + 1) % n);
    let p = choose|p: int| 0 <= p < n && rr_eligible(health, #[trigger] eps[p]) && eps[p].address@ != a@;
    let k1 = choose|k: int|
        0 <= k < n && rr_picks_at(r1, health, k) && b@ == r1.spec_endpoints()[cyclic(start, k, n)].address@
            && rr_advanced(r1, r2, k);
    let j = cyclic(start, k1, n);
    lemma_cyclic(start, k1, n);
    if b@ == a@ {
        assert(addresses(eps)[j] == eps[j].address@);
        assert(addresses(eps)[i] == eps[i].address@);
        assert(j == i);
        // `i` is the last position from `start`, so `p` is reached first.
        if i + 1 < n {
            vstd::arithmetic::div_mod::lemma_small_mod((i + 1) as nat, n as nat);
        } else {
            vstd::arithmetic::div_mod::lemma_mod_self_0(n);
        }
        lemma_cyclic(start, n - 1, n);
        assert(k1 == n - 1);
        let kp = lemma_cyclic_onto(start, p, n);
        assert(kp != n - 1);
        assert(!rr_eligible(health, r1.spec_endpoints()[cyclic(start, kp, n)]));
        assert(false);
    }
}

/// Whenever some endpoint is healthy, consistent hashing picks a healthy
/// one, and no healthy endpoint lies closer after the key's home position:
/// the search covers all positions cyclically from the home position.
pub proof fn consistent_hash_picks_first_healthy(
    eps: Seq<WeightedEndpoint>,
    health: Option<&ClusterHealthState>,
    key: Seq<char>,
)
    requires
        eps.len() > 0,
        exists|i: int| 0 <= i < eps.len() && is_healthy(health, #[trigger] eps[i]),
    ensures
        0 <= ch_position(eps, health, key) < eps.len(),
        is_healthy(health, eps[ch_position(eps, health, key)]),
        forall|i: int|
            0 <= i < eps.len() && is_healthy(health, #[trigger] eps[i]) ==> (ch_position(eps, health, key)
                - home_position(key, eps.len() as int) + eps.len()) % (eps.len() as int) <= (i
                - home_position(key, eps.len() as int) + eps.len()) % (eps.len() as int),
{
    let n = eps.len() as int;
    let home = home_position(key, n);
    assert(0 <= home < n) by {
        vstd::arithmetic::div_mod::lemma_mod_bound(key_hash(key) as int, n);
    }
    let w = choose|i: int| 0 <= i < n && is_healthy(health, #[trigger] eps[i]);
    let kw = lemma_cyclic_onto(home, w, n);
    assert(is_healthy(health, eps[cyclic(home, kw, n)]));
    let k0 = lemma_first_healthy(eps, health, home, 0, kw);
    assert(exists|k: int| 0 <= k < n && is_healthy(health, #[trigger] eps[cyclic(home, k, n)]));
    let k = choose|k: int|
        0 <= k < n && is_healthy(health, #[trigger] eps[cyclic(home, k, n)]) && forall|j: int|
            0 <= j < k ==> !is_healthy(health, #[trigger] eps[cyclic(home, j, n)]);
    lemma_cyclic(home, k, n);
    let c = cyclic(home, k, n);
    assert(ch_position(eps, health, key) == c);
    lemma_distance(home, k, n);
    assert forall|i: int| 0 <= i < n && is_healthy(health, #[trigger] eps[i]) implies (c - home + n) % n <= (i
        - home + n) % n by {
        let ki = lemma_cyclic_onto(home, i, n);
        lemma_distance(home, ki, n);
        if ki < k {
            assert(!is_healthy(health, eps[cyclic(home, ki, n)]));
        }
    }
}

proof fn lemma_first_healthy(
    eps: Seq<WeightedEndpoint>,
    health: Option<&ClusterHealthState>,
    home: int,
    j: int,
    kw: int,
) -> (k: int)
    requires
        0 <= home < eps.len(),
        0 <= j <= kw < eps.len(),
        is_healthy(health, eps[cyclic(home, kw, eps.len() as int)]),
        forall|m: int| 0 <= m < j ==> !is_healthy(health, #[trigger] eps[cyclic(home, m, eps.len() as int)]),
    ensures
        0 <= k < eps.len(),
        is_healthy(health, eps[cyclic(home, k, eps.len() as int)]),
        forall|m: int| 0 <= m < k ==> !is_healthy(health, #[trigger] eps[cyclic(home, m, eps.len() as int)]),
    decreases kw - j,
{
    if is_healthy(health, eps[cyclic(home, j, eps.len() as int)]) {
        j
    } else {
        lemma_first_healthy(eps, health, home, j + 1, kw)
    }
}

proof fn lemma_distance(home: int, k: int, n: int)
    requires
        0 <= home < n,
        0 <= k < n,
    ensures
        (cyclic(home, k, n) - home + n) % n == k,
{
    lemma_cyclic(home, k, n);
    if home + k < n {
        vstd::arithmetic::div_mod::lemma_mod_add_multiples_vanish(k, n);
        vstd::arithmetic::div_mod::lemma_small_mod(k as nat, n as nat);
    } else {
        vstd::arithmetic::div_mod::lemma_small_mod(k as nat, n as nat);
    }
}

} // verus!
