//! Live quotes: the cache in front of the upstream provider, and the rules
//! by which the provider's quotes are normalised and ordered.

use vstd::prelude::*;
use vstd::pervasive::unreached;
use vstd::string::StringExecFns;
use crate::error::SwapError;
use crate::keyed::key_text;
use crate::keyed::KeyedTable;
use crate::text::same_text;

verus! {

/// Seconds for which a cached set of quotes is served.
pub const QUOTE_TTL_SECS: u64 = 30;

/// Minutes a swap is taken to need when the provider names no time.
pub const DEFAULT_ETA_MINUTES: u32 = 15;

/// What follows a look into the cache.
pub enum CacheDecision<V> {
    /// The cache held the value: it is served as it is.
    Serve(V),
    /// The value is fetched from the upstream, then stored for
    /// `QUOTE_TTL_SECS` seconds. A failure to store it is of no account.
    Fetch,
}

/// The decision after a look into the cache. `lookup` is `None` when no
/// cache is configured; a failed look is given by its message.
pub open spec fn decided<V>(lookup: Option<Result<Option<V>, String>>) -> CacheDecision<V> {
    match lookup {
        Some(Ok(Some(value))) => CacheDecision::Serve(value),
        _ => CacheDecision::Fetch,
    }
}

/// Decides what follows a look into the cache: a value found is served;
/// a miss, a failed look and a missing cache all lead to a fetch.
pub fn after_lookup<V>(lookup: Option<Result<Option<V>, String>>) -> (decision: CacheDecision<V>)
    ensures
        decision == decided(lookup),
{
    match lookup {
        Some(Ok(Some(value))) => CacheDecision::Serve(value),
        _ => CacheDecision::Fetch,
    }
}

/// The parameters of a trade, which are the key of its quotes: the asset
/// given and the asset taken, the network of each, and the amount as the
/// decimal text it is written with.
pub open spec fn trade_key_of(
    from: Seq<char>,
    to: Seq<char>,
    network_from: Seq<char>,
    network_to: Seq<char>,
    amount: Seq<char>,
) -> Seq<Seq<char>> {
    seq![from, to, network_from, network_to, amount]
}

/// The key of the quotes of a trade.
pub fn trade_key(from: &str, to: &str, network_from: &str, network_to: &str, amount: &str) -> (key:
    Vec<String>)
    ensures
        key_text(key) == trade_key_of(from@, to@, network_from@, network_to@, amount@),
{
    let mut key: Vec<String> = Vec::new();
    key.push(String::from_str(from));
    key.push(String::from_str(to));
    key.push(String::from_str(network_from));
    key.push(String::from_str(network_to));
    key.push(String::from_str(amount));
    assert(key_text(key) =~= trade_key_of(from@, to@, network_from@, network_to@, amount@));
    key
}

fn copy_key(key: &Vec<String>) -> (copy: Vec<String>)
    ensures
        key_text(copy) == key_text(*key),
{
    let mut copy: Vec<String> = Vec::new();
    let mut i: usize = 0;
    while i < key.len()
        invariant
            i <= key@.len(),
            copy@.len() == i,
            forall|j: int| 0 <= j < i ==> (#[trigger] copy@[j])@ == key@[j]@,
        decreases key@.len() - i,
    {
        copy.push(key[i].clone());
        i += 1;
    }
    assert(key_text(copy) =~= key_text(*key));
    copy
}

/// A cached value with the second from which it is no longer served.
pub struct Cached<V> {
    pub value: V,
    pub expires_at: u64,
}

/// A cache of quotes held in memory, each set of quotes under the
/// parameters of its trade and served for a fixed number of seconds.
pub struct QuoteCache<V> {
    table: KeyedTable<Cached<V>>,
    ttl_secs: u64,
}

/// The second from which a value stored at `now` is no longer served.
pub open spec fn expiry_of(now: u64, ttl_secs: u64) -> u64 {
    if now + ttl_secs > u64::MAX {
        u64::MAX
    } else {
        (now + ttl_secs) as u64
    }
}

/// The value that a cache serves under `key` at `now`: the one stored
/// there, until it expires.
pub open spec fn served_at<V>(cache: Map<Seq<Seq<char>>, Cached<V>>, key: Seq<Seq<char>>, now: u64)
    -> Option<V> {
    if cache.contains_key(key) && now < cache[key].expires_at {
        Some(cache[key].value)
    } else {
        None
    }
}

/// The cache after `value` was stored under `key` at `now`.
pub open spec fn stored_at<V>(
    cache: Map<Seq<Seq<char>>, Cached<V>>,
    key: Seq<Seq<char>>,
    value: V,
    now: u64,
    ttl_secs: u64,
) -> Map<Seq<Seq<char>>, Cached<V>> {
    cache.insert(key, Cached { value, expires_at: expiry_of(now, ttl_secs) })
}

impl<V> QuoteCache<V> {
    /// The invariant of the cache: no two entries share a key.
    pub closed spec fn wf(&self) -> bool {
        self.table.wf()
    }

    /// The cache as a map from the parameters of a trade to what is stored
    /// for it.
    pub closed spec fn view(&self) -> Map<Seq<Seq<char>>, Cached<V>> {
        self.table@
    }

    /// The seconds for which a stored value is served.
    pub closed spec fn ttl(&self) -> u64 {
        self.ttl_secs
    }

    /// An empty cache that serves what is stored for `QUOTE_TTL_SECS`
    /// seconds.
    pub fn new() -> (cache: QuoteCache<V>)
        ensures
            cache.wf(),
            cache.ttl() == QUOTE_TTL_SECS,
            cache@ == Map::<Seq<Seq<char>>, Cached<V>>::empty(),
    {
        QuoteCache { table: KeyedTable::new(), ttl_secs: QUOTE_TTL_SECS }
    }

    /// The value served under `key` at `now`, if there is one.
    pub fn lookup_at(&self, key: &Vec<String>, now: u64) -> (found: Option<&V>)
        requires
            self.wf(),
        ensures
            match found {
                Some(value) => served_at(self@, key_text(*key), now) == Some(*value),
                None => served_at(self@, key_text(*key), now) is None,
            },
    {
        match self.table.get(key) {
            Some(cached) => if now < cached.expires_at {
                Some(&cached.value)
            } else {
                None
            },
            None => None,
        }
    }

    /// The quotes of the trade `key` at `now`: those that the cache serves,
    /// or else those that `fetch` returns, which are then stored. Where the
    /// cache serves the quotes `fetch` is not called and the cache stays as
    /// it is; so it does where `fetch` fails.
    pub fn get_or_fetch_at<F>(&mut self, key: &Vec<String>, now: u64, fetch: F) -> (result: Result<
        &V,
        SwapError,
    >) where F: FnOnce() -> Result<V, SwapError>
        requires
            old(self).wf(),
            fetch.requires(()),
        ensures
            final(self).wf(),
            final(self).ttl() == old(self).ttl(),
            match served_at(old(self)@, key_text(*key), now) {
                Some(value) => result matches Ok(served) && *served == value && final(self)@ == old(
                    self,
                )@,
                None => match result {
                    Ok(fetched) => fetch.ensures((), Ok(*fetched)) && final(self)@ == stored_at(
                        old(self)@,
                        key_text(*key),
                        *fetched,
                        now,
                        old(self).ttl(),
                    ),
                    Err(error) => fetch.ensures((), Err(error)) && final(self)@ == old(self)@,
                },
            },
    {
        let hit = self.lookup_at(key, now).is_some();
        if !hit {
            match fetch() {
                Ok(value) => {
                    self.store_at(copy_key(key), value, now);
                },
                Err(error) => {
                    return Err(error);
                },
            }
        }
        match self.table.get(key) {
            Some(cached) => Ok(&cached.value),
            None => unreached(),
        }
    }

    /// Stores `value` under `key` at `now`, to be served for the cache's
    /// number of seconds from then.
    pub fn store_at(&mut self, key: Vec<String>, value: V, now: u64)
        requires
            old(self).wf(),
        ensures
            final(self).wf(),
            final(self).ttl() == old(self).ttl(),
            final(self)@ == stored_at(old(self)@, key_text(key), value, now, old(self).ttl()),
    {
        let expires_at: u64 = if now > u64::MAX - self.ttl_secs {
            u64::MAX
        } else {
            now + self.ttl_secs
        };
        self.table.put(key, Cached { value, expires_at });
    }
}

/// What was stored for a trade is served until it expires and no longer:
/// a look before the expiry finds the stored value, so nothing is fetched;
/// a look at the expiry or later finds nothing, so the value is fetched
/// anew. The expiry is the time to live after the storing; only where that
/// lies past the last second that can be written is it that last second.
/// So a look fewer seconds after the storing than the time to live is
/// served, unless it is made in that last second, and a look that many
/// seconds after it or more is not. What is stored for other trades is not
/// touched.
pub proof fn lemma_cache_serves_for_ttl<V>(
    cache: Map<Seq<Seq<char>>, Cached<V>>,
    key: Seq<Seq<char>>,
    value: V,
    stored: u64,
    ttl_secs: u64,
    now: u64,
    other: Seq<Seq<char>>,
)
    ensures
        now < expiry_of(stored, ttl_secs) ==> served_at(
            stored_at(cache, key, value, stored, ttl_secs),
            key,
            now,
        ) == Some(value),
        now >= expiry_of(stored, ttl_secs) ==> served_at(
            stored_at(cache, key, value, stored, ttl_secs),
            key,
            now,
        ) is None,
        stored + ttl_secs <= u64::MAX ==> expiry_of(stored, ttl_secs) == stored + ttl_secs,
        stored <= now && now - stored < ttl_secs && now < u64::MAX ==> now < expiry_of(
            stored,
            ttl_secs,
        ),
        now - stored >= ttl_secs ==> now >= expiry_of(stored, ttl_secs),
        other != key ==> served_at(stored_at(cache, key, value, stored, ttl_secs), other, now)
            == served_at(cache, other, now),
{
}

/// Whether a quote of the KYC rating `rating` may ask for the customer's
/// identity: every quote may, but one of the best rating, `A`.
pub open spec fn kyc_needed(rating: Option<Seq<char>>) -> bool {
    rating != Some("A"@)
}

/// Whether a quote of the KYC rating `rating` is flagged as one that may ask
/// for the customer's identity.
pub fn kyc_required(rating: Option<&str>) -> (flagged: bool)
    ensures
        flagged == kyc_needed(
            match rating {
                Some(r) => Some(r@),
                None => None,
            },
        ),
{
    match rating {
        Some(r) => !same_text(r, "A"),
        None => true,
    }
}

/// The minutes a quote is taken to need, given what the provider names.
pub fn eta_minutes(eta: Option<u32>) -> (minutes: u32)
    ensures
        minutes == match eta {
            Some(m) => m,
            None => DEFAULT_ETA_MINUTES,
        },
{
    match eta {
        Some(m) => m,
        None => DEFAULT_ETA_MINUTES,
    }
}

/// The integer that orders as the estimate with the bit pattern `bits`
/// does among estimates that are numbers: the pattern itself while its sign
/// bit is clear, else the rest of the pattern, negated. Both zeros get 0.
pub open spec fn key_of_bits(bits: u64) -> int {
    if bits < 0x8000_0000_0000_0000 {
        bits as int
    } else {
        -(bits - 0x8000_0000_0000_0000)
    }
}

/// The integer by which an estimate is ranked, from the bit pattern of the
/// estimate as a 64-bit floating-point number.
pub fn estimate_key(bits: u64) -> (key: i64)
    ensures
        key == key_of_bits(bits),
{
    if bits < 0x8000_0000_0000_0000 {
        bits as i64
    } else {
        let rest: u64 = bits - 0x8000_0000_0000_0000;
        -(rest as i64)
    }
}

/// The keys of two patterns stand as the patterns do while the sign bit is
/// clear in both, the other way round while it is set in both, and a
/// pattern with the sign bit set never has the greater key.
pub proof fn lemma_key_orders_patterns(a: u64, b: u64)
    ensures
        a < 0x8000_0000_0000_0000 && b < 0x8000_0000_0000_0000 ==> (key_of_bits(a) < key_of_bits(b)
            <==> a < b),
        a >= 0x8000_0000_0000_0000 && b >= 0x8000_0000_0000_0000 ==> (key_of_bits(a) < key_of_bits(
            b,
        ) <==> a > b),
        a >= 0x8000_0000_0000_0000 && b < 0x8000_0000_0000_0000 ==> key_of_bits(a) <= key_of_bits(
            b,
        ),
        key_of_bits(a) == key_of_bits(b) <==> (a == b || (key_of_bits(a) == 0 && key_of_bits(b)
            == 0)),
{
}

/// Whether the quote at index `a` stands before the one at index `b`: it
/// does when it is estimated to pay out more, and among equal estimates when
/// it came first.
pub open spec fn ranks_before(estimates: Seq<i64>, a: int, b: int) -> bool {
    estimates[a] > estimates[b] || (estimates[a] == estimates[b] && a < b)
}

/// Whether `order` holds the index `j`.
pub open spec fn lists(order: Seq<usize>, j: int) -> bool {
    exists|p: int| 0 <= p < order.len() && #[trigger] order[p] == j
}

/// Whether `order` lists the indices of `estimates`, each once, best quote
/// first.
pub open spec fn is_ranking(estimates: Seq<i64>, order: Seq<usize>) -> bool {
    &&& order.len() == estimates.len()
    &&& forall|p: int| 0 <= p < order.len() ==> 0 <= #[trigger] order[p] < estimates.len()
    &&& forall|p: int, q: int|
        0 <= p < q < order.len() ==> ranks_before(
            estimates,
            #[trigger] order[p] as int,
            #[trigger] order[q] as int,
        )
    &&& forall|j: int| 0 <= j < estimates.len() ==> #[trigger] lists(order, j)
}

/// Orders quotes by what they are estimated to pay out, highest first. Each
/// quote is given by an integer that orders as its estimate does; the result
/// holds the indices of the quotes in their new order. Quotes of equal
/// estimate keep the order they came in.
pub fn rank_by_estimate(estimates: &Vec<i64>) -> (order: Vec<usize>)
    ensures
        is_ranking(estimates@, order@),
{
    let mut order: Vec<usize> = Vec::new();
    let mut i: usize = 0;
    while i < estimates.len()
        invariant
            i <= estimates@.len(),
            order@.len() == i,
            forall|p: int| 0 <= p < order@.len() ==> 0 <= #[trigger] order@[p] < i,
            forall|p: int, q: int|
                0 <= p < q < order@.len() ==> ranks_before(
                    estimates@,
                    #[trigger] order@[p] as int,
                    #[trigger] order@[q] as int,
                ),
            forall|j: int| 0 <= j < i ==> #[trigger] lists(order@, j),
        decreases estimates@.len() - i,
    {
        let mut pos: usize = 0;
        while pos < order.len() && estimates[order[pos]] >= estimates[i]
            invariant
                pos <= order@.len(),
                i < estimates@.len(),
                forall|p: int| 0 <= p < order@.len() ==> 0 <= #[trigger] order@[p] < i,
                forall|p: int|
                    0 <= p < pos ==> estimates@[#[trigger] order@[p] as int] >= estimates@[i as int],
            decreases order@.len() - pos,
        {
            pos += 1;
        }
        let ghost before = order@;
        order.insert(pos, i);
        proof {
            let after = order@;
            assert(after.len() == before.len() + 1);
            assert(forall|p: int| 0 <= p < pos ==> after[p] == before[p]);
            assert(after[pos as int] == i);
            assert(forall|p: int| pos < p < after.len() ==> after[p] == before[p - 1]);
            assert forall|p: int, q: int| 0 <= p < q < after.len() implies ranks_before(
                estimates@,
                #[trigger] after[p] as int,
                #[trigger] after[q] as int,
            ) by {
                if q < pos {
                    assert(after[p] == before[p] && after[q] == before[q]);
                } else if q == pos {
                    assert(after[p] == before[p]);
                } else if p < pos {
                    assert(after[p] == before[p] && after[q] == before[q - 1]);
                } else if p == pos {
                    assert(after[q] == before[q - 1]);
                    if q - 1 > pos {
                        assert(ranks_before(
                            estimates@,
                            before[pos as int] as int,
                            before[q - 1] as int,
                        ));
                    }
                } else {
                    assert(after[p] == before[p - 1] && after[q] == before[q - 1]);
                }
            }
            assert forall|j: int| 0 <= j < i + 1 implies #[trigger] lists(after, j) by {
                if j == i {
                    assert(after[pos as int] == j);
                } else {
                    assert(lists(before, j));
                    let p0 = choose|p: int| 0 <= p < before.len() && #[trigger] before[p] == j;
                    if p0 < pos {
                        assert(after[p0] == j);
                    } else {
                        assert(after[p0 + 1] == j);
                    }
                }
            }
        }
        i += 1;
    }
    order
}

/// A ranking lists no index twice.
pub proof fn lemma_ranking_has_no_repeats(estimates: Seq<i64>, order: Seq<usize>)
    requires
        is_ranking(estimates, order),
    ensures
        forall|p: int, q: int|
            0 <= p < order.len() && 0 <= q < order.len() && p != q ==> #[trigger] order[p]
                != #[trigger] order[q],
{
    assert forall|p: int, q: int|
        0 <= p < order.len() && 0 <= q < order.len() && p != q implies #[trigger] order[p]
        != #[trigger] order[q] by {
        if p < q {
            assert(ranks_before(estimates, order[p] as int, order[q] as int));
        } else {
            assert(ranks_before(estimates, order[q] as int, order[p] as int));
        }
    }
}

/// In a ranking the estimates never rise from one place to the next.
pub proof fn lemma_ranking_descends(estimates: Seq<i64>, order: Seq<usize>, p: int, q: int)
    requires
        is_ranking(estimates, order),
        0 <= p <= q < order.len(),
    ensures
        estimates[order[p] as int] >= estimates[order[q] as int],
{
    if p < q {
        assert(ranks_before(estimates, order[p] as int, order[q] as int));
    }
}

} // verus!
