//! The stored currencies. A currency is known by its symbol and its
//! network; a sync writes each listed currency over the row of that key, or
//! as a new row.

use vstd::prelude::*;
use vstd::string::StringExecFns;
use crate::error::SwapError;
use crate::keyed::key_text;
use crate::keyed::KeyedTable;
use crate::retry::call_with_retry;
use crate::retry::is_rate_limit_text;
use crate::staleness::Collection;
use crate::staleness::is_stale;
use crate::staleness::needs_refresh;
use crate::staleness::refresh_due;
use crate::sync::Refresh;
use crate::sync::Stamped;
use crate::sync::table_cursor;

verus! {

/// A currency as the upstream lists it. `details` holds what a sync may
/// change: name, logo, amount limits.
pub struct CurrencyItem<D> {
    pub ticker: String,
    pub network: String,
    pub details: D,
}

/// A stored currency. Symbol and network are its key and never change.
pub struct CurrencyRow<D> {
    pub symbol: String,
    pub network: String,
    pub details: D,
    /// When a sync last wrote the row, in seconds since the Unix epoch.
    pub last_synced_at: i64,
}

impl<D> Stamped for CurrencyRow<D> {
    open spec fn stamp_of(&self) -> i64 {
        self.last_synced_at
    }

    fn stamp(&self) -> (at: i64) {
        self.last_synced_at
    }
}

/// The stored currencies: at most one row for each symbol and network.
pub struct CurrencyTable<D> {
    table: KeyedTable<CurrencyRow<D>>,
}

/// What the store holds of a currency: its details and the time of its
/// last sync.
pub struct CurrencyFacts<D> {
    pub details: D,
    pub last_synced_at: i64,
}

/// Whether `cursor` is the sync cursor of the store: nothing where it has
/// no row, else the latest time at which a sync wrote one of its rows.
pub open spec fn is_latest_sync<D>(
    store: Map<Seq<Seq<char>>, CurrencyFacts<D>>,
    cursor: Option<i64>,
) -> bool {
    match cursor {
        None => forall|key: Seq<Seq<char>>| !store.contains_key(key),
        Some(at) => {
            &&& exists|key: Seq<Seq<char>>| #[trigger]
                store.contains_key(key) && store[key].last_synced_at == at
            &&& forall|key: Seq<Seq<char>>| #[trigger]
                store.contains_key(key) ==> store[key].last_synced_at <= at
        },
    }
}

/// The key of a currency: its symbol and its network.
pub open spec fn currency_key(symbol: Seq<char>, network: Seq<char>) -> Seq<Seq<char>> {
    seq![symbol, network]
}

/// The key of a listed currency.
pub open spec fn item_key<D>(item: CurrencyItem<D>) -> Seq<Seq<char>> {
    currency_key(item.ticker@, item.network@)
}

/// The store after `item` was written at `now`: the row of its key holds the
/// item's details and the time of the write, whether or not the key had a
/// row before; all other rows are as they were.
pub open spec fn upserted<D>(
    store: Map<Seq<Seq<char>>, CurrencyFacts<D>>,
    item: CurrencyItem<D>,
    now: i64,
) -> Map<Seq<Seq<char>>, CurrencyFacts<D>> {
    store.insert(item_key(item), CurrencyFacts { details: item.details, last_synced_at: now })
}

/// The store after the items of `items` were written at `now`, first to
/// last.
pub open spec fn synced<D>(
    store: Map<Seq<Seq<char>>, CurrencyFacts<D>>,
    items: Seq<CurrencyItem<D>>,
    now: i64,
) -> Map<Seq<Seq<char>>, CurrencyFacts<D>>
    decreases items.len(),
{
    if items.len() == 0 {
        store
    } else {
        upserted(synced(store, items.drop_last(), now), items.last(), now)
    }
}

/// The details of the last item of `items` with the key `key`, if any has
/// it.
pub open spec fn latest_details<D>(items: Seq<CurrencyItem<D>>, key: Seq<Seq<char>>) -> Option<D>
    decreases items.len(),
{
    if items.len() == 0 {
        None
    } else if item_key(items.last()) == key {
        Some(items.last().details)
    } else {
        latest_details(items.drop_last(), key)
    }
}

fn currency_key_of(symbol: &str, network: &str) -> (key: Vec<String>)
    ensures
        key_text(key) == currency_key(symbol@, network@),
{
    let mut key: Vec<String> = Vec::new();
    key.push(String::from_str(symbol));
    key.push(String::from_str(network));
    assert(key_text(key) =~= currency_key(symbol@, network@));
    key
}

impl<D> CurrencyTable<D> {
    /// The invariant of the table: each row stands under its own symbol and
    /// network, and no two rows share them.
    pub closed spec fn wf(&self) -> bool {
        &&& self.table.wf()
        &&& forall|key: Seq<Seq<char>>| #[trigger]
            self.table@.contains_key(key) ==> key == currency_key(
                self.table@[key].symbol@,
                self.table@[key].network@,
            )
    }

    /// The table as a map from symbol and network to details and time of
    /// the last sync.
    pub closed spec fn view(&self) -> Map<Seq<Seq<char>>, CurrencyFacts<D>> {
        Map::new(
            |key: Seq<Seq<char>>| self.table@.contains_key(key),
            |key: Seq<Seq<char>>|
                CurrencyFacts {
                    details: self.table@[key].details,
                    last_synced_at: self.table@[key].last_synced_at,
                },
        )
    }

    /// The number of rows.
    pub closed spec fn row_count(&self) -> nat {
        self.table.entries().len()
    }

    /// An empty table.
    pub fn new() -> (table: CurrencyTable<D>)
        ensures
            table.wf(),
            table@ == Map::<Seq<Seq<char>>, CurrencyFacts<D>>::empty(),
            table.row_count() == 0,
    {
        let table = CurrencyTable { table: KeyedTable::new() };
        assert(table@ =~= Map::<Seq<Seq<char>>, CurrencyFacts<D>>::empty());
        table
    }

    /// The number of rows.
    pub fn len(&self) -> (n: usize)
        ensures
            n == self.row_count(),
    {
        self.table.len()
    }

    /// The row of a symbol and network, if the table has one.
    pub fn get(&self, symbol: &str, network: &str) -> (found: Option<&CurrencyRow<D>>)
        requires
            self.wf(),
        ensures
            found is Some <==> self@.contains_key(currency_key(symbol@, network@)),
            found is Some ==> {
                &&& found->Some_0.symbol@ == symbol@
                &&& found->Some_0.network@ == network@
                &&& self@[currency_key(symbol@, network@)] == (CurrencyFacts {
                    details: found->Some_0.details,
                    last_synced_at: found->Some_0.last_synced_at,
                })
            },
    {
        let key = currency_key_of(symbol, network);
        let found = self.table.get(&key);
        proof {
            if found is Some {
                let k = currency_key(symbol@, network@);
                let row = self.table@[k];
                assert(k == currency_key(row.symbol@, row.network@));
                assert(k[0] == symbol@ && k[1] == network@);
                assert(currency_key(row.symbol@, row.network@)[0] == row.symbol@);
                assert(currency_key(row.symbol@, row.network@)[1] == row.network@);
            }
        }
        found
    }

    /// Writes `item` at `now`: over the row of its symbol and network if
    /// there is one, else as a new row. Either way the row then holds the
    /// item's details and `now` as the time of its last sync.
    pub fn upsert(&mut self, item: CurrencyItem<D>, now: i64)
        requires
            old(self).wf(),
        ensures
            final(self).wf(),
            final(self)@ == upserted(old(self)@, item, now),
            final(self).row_count() == if old(self)@.contains_key(item_key(item)) {
                old(self).row_count()
            } else {
                old(self).row_count() + 1
            },
    {
        let key = currency_key_of(item.ticker.as_str(), item.network.as_str());
        let row = CurrencyRow {
            symbol: item.ticker,
            network: item.network,
            details: item.details,
            last_synced_at: now,
        };
        self.table.put(key, row);
        assert(self@ =~= upserted(old(self)@, item, now));
    }

    /// Writes every item of `items` at `now`, first to last, and returns
    /// how many were written.
    pub fn sync(&mut self, items: Vec<CurrencyItem<D>>, now: i64) -> (count: usize)
        requires
            old(self).wf(),
        ensures
            final(self).wf(),
            final(self)@ == synced(old(self)@, items@, now),
            count == items@.len(),
    {
        let mut items = items;
        let ghost all = items@;
        let total: usize = items.len();
        let mut count: usize = 0;
        while items.len() > 0
            invariant
                self.wf(),
                all.len() == total,
                count + items@.len() == all.len(),
                items@ == all.skip(count as int),
                self@ == synced(old(self)@, all.take(count as int), now),
            decreases items@.len(),
        {
            let item = items.remove(0);
            proof {
                assert(item == all[count as int]);
                assert(all.take(count as int + 1).drop_last() == all.take(count as int));
                assert(all.take(count as int + 1).last() == item);
                assert(items@ == all.skip(count as int + 1));
            }
            self.upsert(item, now);
            count += 1;
        }
        proof {
            assert(all.take(count as int) == all);
        }
        count
    }

    /// The sync cursor of the table: the latest time at which a sync wrote
    /// one of its rows, or nothing when it has no row.
    pub fn cursor(&self) -> (latest: Option<i64>)
        requires
            self.wf(),
        ensures
            latest is None <==> self.row_count() == 0,
            is_latest_sync(self@, latest),
    {
        let latest = table_cursor(&self.table);
        proof {
            if let Some(at) = latest {
                let key = choose|key: Seq<Seq<char>>| #[trigger]
                    self.table@.contains_key(key) && self.table@[key].stamp_of() == at;
                assert(self@.contains_key(key) && self@[key].last_synced_at == at);
                assert forall|k: Seq<Seq<char>>| #[trigger]
                    self@.contains_key(k) implies self@[k].last_synced_at <= at by {
                    assert(self.table@.contains_key(k));
                }
            }
        }
        latest
    }
}

/// Prepares `table` for a read at `now`. Where the table is stale, which
/// an empty table always is, and a key for the upstream is configured, what
/// the upstream lists is fetched, with the retries that the retry rules
/// allow, and written into the table; else the table is left as it is. A
/// fetch that fails for good leaves the table as it is too.
pub fn refresh_currencies<D, F, S>(
    table: &mut CurrencyTable<D>,
    now: i64,
    api_key: &str,
    fetch: F,
    sleep: S,
) -> (outcome: Refresh) where F: Fn() -> Result<Vec<CurrencyItem<D>>, String>, S: Fn(u64) -> ()
    requires
        old(table).wf(),
        fetch.requires(()),
        forall|secs: u64| sleep.requires((secs,)),
    ensures
        final(table).wf(),
        exists|cursor: Option<i64>| #[trigger]
            is_latest_sync(old(table)@, cursor) && (outcome is Fresh <==> !(api_key@.len() > 0
                && is_stale(Collection::Currencies, cursor, now))),
        old(table).row_count() == 0 && api_key@.len() > 0 ==> !(outcome is Fresh),
        match outcome {
            Refresh::Fresh => final(table)@ == old(table)@,
            Refresh::Synced(count) => exists|items: Vec<CurrencyItem<D>>| #[trigger]
                fetch.ensures((), Ok(items)) && count == items@.len() && final(table)@ == synced(
                    old(table)@,
                    items@,
                    now,
                ),
            Refresh::Failed(error) => {
                &&& final(table)@ == old(table)@
                &&& error matches SwapError::RateLimited(msg) ==> fetch.ensures((), Err(msg))
                    && is_rate_limit_text(msg@)
                &&& error matches SwapError::ExternalApiError(msg) ==> fetch.ensures((), Err(msg))
                    && !is_rate_limit_text(msg@)
                &&& error is RateLimited || error is ExternalApiError
            },
        },
{
    let cursor = table.cursor();
    let stale = needs_refresh(Collection::Currencies, cursor, now);
    if !refresh_due(Ok(stale), api_key) {
        return Refresh::Fresh;
    }
    match call_with_retry(fetch, sleep).0 {
        Ok(items) => {
            let ghost listed = items;
            let count = table.sync(items, now);
            assert(fetch.ensures((), Ok(listed)) && count == listed@.len() && table@ == synced(
                old(table)@,
                listed@,
                now,
            ));
            Refresh::Synced(count)
        },
        Err(error) => Refresh::Failed(error),
    }
}

/// What a sync leaves under each key: under a key that some item has, the
/// details of the last such item and the time of the sync; under any other
/// key, what the store held before.
pub proof fn lemma_synced_rows<D>(
    store: Map<Seq<Seq<char>>, CurrencyFacts<D>>,
    items: Seq<CurrencyItem<D>>,
    now: i64,
    key: Seq<Seq<char>>,
)
    ensures
        match latest_details(items, key) {
            Some(details) => synced(store, items, now).contains_key(key) && synced(
                store,
                items,
                now,
            )[key] == (CurrencyFacts { details, last_synced_at: now }),
            None => {
                &&& synced(store, items, now).contains_key(key) == store.contains_key(key)
                &&& store.contains_key(key) ==> synced(store, items, now)[key] == store[key]
            },
        },
    decreases items.len(),
{
    if items.len() > 0 {
        lemma_synced_rows(store, items.drop_last(), now, key);
    }
}

/// A sync is idempotent: a second sync of the same items leaves the rows
/// that a single sync at the second time would have left, no row more and
/// none less than the first sync left, each written row with its time of
/// last sync moved to the second run.
pub proof fn lemma_sync_idempotent<D>(
    store: Map<Seq<Seq<char>>, CurrencyFacts<D>>,
    items: Seq<CurrencyItem<D>>,
    first: i64,
    second: i64,
)
    ensures
        synced(synced(store, items, first), items, second) == synced(store, items, second),
        synced(synced(store, items, first), items, second).dom() == synced(
            store,
            items,
            first,
        ).dom(),
{
    let once = synced(store, items, first);
    let twice = synced(once, items, second);
    let direct = synced(store, items, second);
    assert forall|key: Seq<Seq<char>>|
        (#[trigger] twice.contains_key(key) == direct.contains_key(key)) && (twice.contains_key(
            key,
        ) == once.contains_key(key)) && (twice.contains_key(key) ==> twice[key] == direct[key]) by {
        lemma_synced_rows(store, items, first, key);
        lemma_synced_rows(once, items, second, key);
        lemma_synced_rows(store, items, second, key);
    }
    assert(twice =~= direct);
    assert(twice.dom() =~= once.dom());
}

} // verus!
