//! The stored providers. A provider is known by its name, whatever the case
//! of its letters; a sync writes each listed provider over the row of that
//! name, or as a new row whose identifier is the slug of the name.

use vstd::prelude::*;
use crate::error::SwapError;
use crate::keyed::key_text;
use crate::keyed::KeyedTable;
use crate::retry::call_with_retry;
use crate::retry::is_rate_limit_text;
use crate::staleness::Collection;
use crate::staleness::is_stale;
use crate::staleness::needs_refresh;
use crate::staleness::refresh_due;
use crate::sync::Refresh;
use crate::sync::Stamped;
use crate::sync::table_cursor;
use crate::text::expanded;
use crate::text::lowercase_of;
use crate::text::replace_char;
use crate::text::to_lowercase;

verus! {

/// A text with a hyphen in place of each space.
pub open spec fn hyphenated_text(text: Seq<char>) -> Seq<char> {
    expanded(text, ' ', "-"@)
}

/// The identifier and slug of a provider of the name `name`: the name in
/// lowercase, with a hyphen for each space.
pub open spec fn slug_of(name: Seq<char>) -> Seq<char> {
    hyphenated_text(lowercase_of(name))
}

/// A text with a hyphen in place of each space.
pub fn hyphenated(text: &str) -> (out: String)
    ensures
        out@ == hyphenated_text(text@),
{
    replace_char(text, ' ', "-")
}

/// The identifier and slug of a provider of the name `name`.
pub fn slugify(name: &str) -> (slug: String)
    ensures
        slug@ == slug_of(name@),
{
    let lower = to_lowercase(name);
    hyphenated(lower.as_str())
}

/// How a listed provider is written into the store.
pub enum ProviderWrite {
    /// Over the row `id`, which has the provider's name in some case of
    /// its letters: name, slug, details and sync time are written, the
    /// identifier stays.
    Update { id: String, slug: String },
    /// As a new row, with the slug as its identifier.
    Insert { id: String, slug: String },
}

/// How a listed provider of the name `name` is written, given the
/// identifier of the stored row whose name equals it but for the case of
/// letters, if there is such a row.
pub open spec fn provider_write_of(name: Seq<char>, existing: Option<String>, write: ProviderWrite)
    -> bool {
    match existing {
        Some(id) => write matches ProviderWrite::Update { id: to, slug } && to == id && slug@
            == slug_of(name),
        None => write matches ProviderWrite::Insert { id, slug } && id@ == slug_of(name) && slug@
            == slug_of(name),
    }
}

/// Decides how a listed provider is written into the store.
pub fn plan_provider_upsert(name: &str, existing: Option<String>) -> (write: ProviderWrite)
    ensures
        provider_write_of(name@, existing, write),
{
    let slug = slugify(name);
    match existing {
        Some(id) => ProviderWrite::Update { id, slug },
        None => {
            let id = slug.clone();
            ProviderWrite::Insert { id, slug }
        },
    }
}

/// Two names that are equal but for the case of their letters have one
/// slug, so a provider listed again under another case keeps the identifier
/// it was inserted with.
pub proof fn lemma_slug_ignores_case(a: Seq<char>, b: Seq<char>)
    requires
        lowercase_of(a) == lowercase_of(b),
    ensures
        slug_of(a) == slug_of(b),
{
}

/// A provider as the upstream lists it. `details` holds what a sync may
/// change besides the name: rating, insurance, time of arrival, markup.
pub struct ProviderItem<D> {
    pub name: String,
    pub details: D,
}

/// A stored provider.
pub struct ProviderRow<D> {
    /// The identifier: the slug of the name under which the provider was
    /// first listed.
    pub id: String,
    pub name: String,
    pub slug: String,
    pub details: D,
    /// When a sync last wrote the row, in seconds since the Unix epoch.
    pub last_synced_at: i64,
}

impl<D> Stamped for ProviderRow<D> {
    open spec fn stamp_of(&self) -> i64 {
        self.last_synced_at
    }

    fn stamp(&self) -> (at: i64) {
        self.last_synced_at
    }
}

/// What the store holds of a provider.
pub struct ProviderFacts<D> {
    pub id: Seq<char>,
    pub name: Seq<char>,
    pub slug: Seq<char>,
    pub details: D,
    pub last_synced_at: i64,
}

/// The stored providers: at most one row for each name, names being equal
/// when they are equal but for the case of their letters.
pub struct ProviderTable<D> {
    table: KeyedTable<ProviderRow<D>>,
}

/// Whether `cursor` is the sync cursor of the store: nothing where it has
/// no row, else the latest time at which a sync wrote one of its rows.
pub open spec fn is_latest_sync<D>(
    store: Map<Seq<Seq<char>>, ProviderFacts<D>>,
    cursor: Option<i64>,
) -> bool {
    match cursor {
        None => forall|key: Seq<Seq<char>>| !store.contains_key(key),
        Some(at) => {
            &&& exists|key: Seq<Seq<char>>| #[trigger]
                store.contains_key(key) && store[key].last_synced_at == at
            &&& forall|key: Seq<Seq<char>>| #[trigger]
                store.contains_key(key) ==> store[key].last_synced_at <= at
        },
    }
}

/// The key of a provider: its name in lowercase.
pub open spec fn provider_key(name: Seq<char>) -> Seq<Seq<char>> {
    seq![lowercase_of(name)]
}

/// What the store holds of a row.
pub open spec fn provider_facts<D>(row: ProviderRow<D>) -> ProviderFacts<D> {
    ProviderFacts {
        id: row.id@,
        name: row.name@,
        slug: row.slug@,
        details: row.details,
        last_synced_at: row.last_synced_at,
    }
}

/// The store after `item` was written at `now`. The row of its name keeps
/// its identifier if it was there, and else gets the slug as its identifier;
/// name, slug and details are the item's, the time of the last sync is
/// `now`. All other rows are as they were.
pub open spec fn provider_upserted<D>(
    store: Map<Seq<Seq<char>>, ProviderFacts<D>>,
    item: ProviderItem<D>,
    now: i64,
) -> Map<Seq<Seq<char>>, ProviderFacts<D>> {
    store.insert(
        provider_key(item.name@),
        ProviderFacts {
            id: if store.contains_key(provider_key(item.name@)) {
                store[provider_key(item.name@)].id
            } else {
                slug_of(item.name@)
            },
            name: item.name@,
            slug: slug_of(item.name@),
            details: item.details,
            last_synced_at: now,
        },
    )
}

/// The store after the items of `items` were written at `now`, first to
/// last.
pub open spec fn providers_synced<D>(
    store: Map<Seq<Seq<char>>, ProviderFacts<D>>,
    items: Seq<ProviderItem<D>>,
    now: i64,
) -> Map<Seq<Seq<char>>, ProviderFacts<D>>
    decreases items.len(),
{
    if items.len() == 0 {
        store
    } else {
        provider_upserted(providers_synced(store, items.drop_last(), now), items.last(), now)
    }
}

/// The last item of `items` with the key `key`, if any has it.
pub open spec fn latest_provider<D>(items: Seq<ProviderItem<D>>, key: Seq<Seq<char>>) -> Option<
    ProviderItem<D>,
>
    decreases items.len(),
{
    if items.len() == 0 {
        None
    } else if provider_key(items.last().name@) == key {
        Some(items.last())
    } else {
        latest_provider(items.drop_last(), key)
    }
}

fn provider_key_of(name: &str) -> (key: Vec<String>)
    ensures
        key_text(key) == provider_key(name@),
{
    let mut key: Vec<String> = Vec::new();
    key.push(to_lowercase(name));
    assert(key_text(key) =~= provider_key(name@));
    key
}

impl<D> ProviderTable<D> {
    /// The invariant of the table: no two rows share a key.
    pub closed spec fn wf(&self) -> bool {
        self.table.wf()
    }

    /// The table as a map from the lowercase name to what is stored of the
    /// provider.
    pub closed spec fn view(&self) -> Map<Seq<Seq<char>>, ProviderFacts<D>> {
        Map::new(
            |key: Seq<Seq<char>>| self.table@.contains_key(key),
            |key: Seq<Seq<char>>| provider_facts(self.table@[key]),
        )
    }

    /// The number of rows.
    pub closed spec fn row_count(&self) -> nat {
        self.table.entries().len()
    }

    /// An empty table.
    pub fn new() -> (table: ProviderTable<D>)
        ensures
            table.wf(),
            table@ == Map::<Seq<Seq<char>>, ProviderFacts<D>>::empty(),
            table.row_count() == 0,
    {
        let table = ProviderTable { table: KeyedTable::new() };
        assert(table@ =~= Map::<Seq<Seq<char>>, ProviderFacts<D>>::empty());
        table
    }

    /// The number of rows.
    pub fn len(&self) -> (n: usize)
        ensures
            n == self.row_count(),
    {
        self.table.len()
    }

    /// The row whose name is `name` but for the case of letters, if the
    /// table has one.
    pub fn get(&self, name: &str) -> (found: Option<&ProviderRow<D>>)
        requires
            self.wf(),
        ensures
            found is Some <==> self@.contains_key(provider_key(name@)),
            found is Some ==> self@[provider_key(name@)] == provider_facts(*found->Some_0),
    {
        let key = provider_key_of(name);
        self.table.get(&key)
    }

    /// Writes `item` at `now`: over the row whose name is the item's but
    /// for the case of letters if there is one, else as a new row whose
    /// identifier is the slug of the name.
    pub fn upsert(&mut self, item: ProviderItem<D>, now: i64)
        requires
            old(self).wf(),
        ensures
            final(self).wf(),
            final(self)@ == provider_upserted(old(self)@, item, now),
            final(self).row_count() == if old(self)@.contains_key(provider_key(item.name@)) {
                old(self).row_count()
            } else {
                old(self).row_count() + 1
            },
    {
        let key = provider_key_of(item.name.as_str());
        let existing: Option<String> = match self.table.get(&key) {
            Some(row) => Some(row.id.clone()),
            None => None,
        };
        let row = match plan_provider_upsert(item.name.as_str(), existing) {
            ProviderWrite::Update { id, slug } => ProviderRow {
                id,
                name: item.name,
                slug,
                details: item.details,
                last_synced_at: now,
            },
            ProviderWrite::Insert { id, slug } => ProviderRow {
                id,
                name: item.name,
                slug,
                details: item.details,
                last_synced_at: now,
            },
        };
        self.table.put(key, row);
        assert(self@ =~= provider_upserted(old(self)@, item, now));
    }

    /// Writes every item of `items` at `now`, first to last, and returns
    /// how many were written.
    pub fn sync(&mut self, items: Vec<ProviderItem<D>>, now: i64) -> (count: usize)
        requires
            old(self).wf(),
        ensures
            final(self).wf(),
            final(self)@ == providers_synced(old(self)@, items@, now),
            count == items@.len(),
    {
        let mut items = items;
        let ghost all = items@;
        let total: usize = items.len();
        let mut count: usize = 0;
        while items.len() > 0
            invariant
                self.wf(),
                all.len() == total,
                count + items@.len() == all.len(),
                items@ == all.skip(count as int),
                self@ == providers_synced(old(self)@, all.take(count as int), now),
            decreases items@.len(),
        {
            let item = items.remove(0);
            proof {
                assert(item == all[count as int]);
                assert(all.take(count as int + 1).drop_last() == all.take(count as int));
                assert(all.take(count as int + 1).last() == item);
                assert(items@ == all.skip(count as int + 1));
            }
            self.upsert(item, now);
            count += 1;
        }
        proof {
            assert(all.take(count as int) == all);
        }
        count
    }

    /// The sync cursor of the table: the latest time at which a sync wrote
    /// one of its rows, or nothing when it has no row.
    pub fn cursor(&self) -> (latest: Option<i64>)
        requires
            self.wf(),
        ensures
            latest is None <==> self.row_count() == 0,
            is_latest_sync(self@, latest),
    {
        let latest = table_cursor(&self.table);
        proof {
            if let Some(at) = latest {
                let key = choose|key: Seq<Seq<char>>| #[trigger]
                    self.table@.contains_key(key) && self.table@[key].stamp_of() == at;
                assert(self@.contains_key(key) && self@[key].last_synced_at == at);
                assert forall|k: Seq<Seq<char>>| #[trigger]
                    self@.contains_key(k) implies self@[k].last_synced_at <= at by {
                    assert(self.table@.contains_key(k));
                }
            }
        }
        latest
    }
}

/// Prepares `table` for a read at `now`. Where the table is stale, which
/// an empty table always is, and a key for the upstream is configured, what
/// the upstream lists is fetched, with the retries that the retry rules
/// allow, and written into the table; else the table is left as it is. A
/// fetch that fails for good leaves the table as it is too.
pub fn refresh_providers<D, F, S>(
    table: &mut ProviderTable<D>,
    now: i64,
    api_key: &str,
    fetch: F,
    sleep: S,
) -> (outcome: Refresh) where F: Fn() -> Result<Vec<ProviderItem<D>>, String>, S: Fn(u64) -> ()
    requires
        old(table).wf(),
        fetch.requires(()),
        forall|secs: u64| sleep.requires((secs,)),
    ensures
        final(table).wf(),
        exists|cursor: Option<i64>| #[trigger]
            is_latest_sync(old(table)@, cursor) && (outcome is Fresh <==> !(api_key@.len() > 0
                && is_stale(Collection::Providers, cursor, now))),
        old(table).row_count() == 0 && api_key@.len() > 0 ==> !(outcome is Fresh),
        match outcome {
            Refresh::Fresh => final(table)@ == old(table)@,
            Refresh::Synced(count) => exists|items: Vec<ProviderItem<D>>| #[trigger]
                fetch.ensures((), Ok(items)) && count == items@.len() && final(table)@
                    == providers_synced(old(table)@, items@, now),
            Refresh::Failed(error) => {
                &&& final(table)@ == old(table)@
                &&& error matches SwapError::RateLimited(msg) ==> fetch.ensures((), Err(msg))
                    && is_rate_limit_text(msg@)
                &&& error matches SwapError::ExternalApiError(msg) ==> fetch.ensures((), Err(msg))
                    && !is_rate_limit_text(msg@)
                &&& error is RateLimited || error is ExternalApiError
            },
        },
{
    let cursor = table.cursor();
    let stale = needs_refresh(Collection::Providers, cursor, now);
    if !refresh_due(Ok(stale), api_key) {
        return Refresh::Fresh;
    }
    match call_with_retry(fetch, sleep).0 {
        Ok(items) => {
            let ghost listed = items;
            let count = table.sync(items, now);
            assert(fetch.ensures((), Ok(listed)) && count == listed@.len() && table@
                == providers_synced(old(table)@, listed@, now));
            Refresh::Synced(count)
        },
        Err(error) => Refresh::Failed(error),
    }
}

/// What a sync of providers leaves under each key: under a key that some
/// item has, the name and details of the last such item, the slug of that
/// name, the time of the sync, and the identifier that the store held under
/// the key or, if it held none, the slug; under any other key, what the
/// store held before.
pub proof fn lemma_providers_synced_rows<D>(
    store: Map<Seq<Seq<char>>, ProviderFacts<D>>,
    items: Seq<ProviderItem<D>>,
    now: i64,
    key: Seq<Seq<char>>,
)
    ensures
        match latest_provider(items, key) {
            Some(item) => providers_synced(store, items, now).contains_key(key)
                && providers_synced(store, items, now)[key] == (ProviderFacts {
                id: if store.contains_key(key) {
                    store[key].id
                } else {
                    slug_of(item.name@)
                },
                name: item.name@,
                slug: slug_of(item.name@),
                details: item.details,
                last_synced_at: now,
            }),
            None => {
                &&& providers_synced(store, items, now).contains_key(key) == store.contains_key(
                    key,
                )
                &&& store.contains_key(key) ==> providers_synced(store, items, now)[key]
                    == store[key]
            },
        },
    decreases items.len(),
{
    if items.len() > 0 {
        let earlier = items.drop_last();
        lemma_providers_synced_rows(store, earlier, now, key);
        if provider_key(items.last().name@) == key {
            match latest_provider(earlier, key) {
                Some(previous) => {
                    assert(provider_key(previous.name@) == key) by {
                        lemma_latest_provider_has_key(earlier, key);
                    }
                    assert(provider_key(previous.name@)[0] == lowercase_of(previous.name@));
                    assert(provider_key(items.last().name@)[0] == lowercase_of(
                        items.last().name@,
                    ));
                },
                None => {},
            }
        }
    }
}

proof fn lemma_latest_provider_has_key<D>(items: Seq<ProviderItem<D>>, key: Seq<Seq<char>>)
    ensures
        latest_provider(items, key) is Some ==> provider_key(
            latest_provider(items, key)->Some_0.name@,
        ) == key,
    decreases items.len(),
{
    if items.len() > 0 && provider_key(items.last().name@) != key {
        lemma_latest_provider_has_key(items.drop_last(), key);
    }
}

/// A sync of providers is idempotent: a second sync of the same items
/// leaves the rows that a single sync at the second time would have left,
/// no row more and none less than the first sync left.
pub proof fn lemma_providers_sync_idempotent<D>(
    store: Map<Seq<Seq<char>>, ProviderFacts<D>>,
    items: Seq<ProviderItem<D>>,
    first: i64,
    second: i64,
)
    ensures
        providers_synced(providers_synced(store, items, first), items, second)
            == providers_synced(store, items, second),
        providers_synced(providers_synced(store, items, first), items, second).dom()
            == providers_synced(store, items, first).dom(),
{
    let once = providers_synced(store, items, first);
    let twice = providers_synced(once, items, second);
    let direct = providers_synced(store, items, second);
    assert forall|key: Seq<Seq<char>>|
        (#[trigger] twice.contains_key(key) == direct.contains_key(key)) && (twice.contains_key(
            key,
        ) == once.contains_key(key)) && (twice.contains_key(key) ==> twice[key] == direct[key]) by {
        lemma_providers_synced_rows(store, items, first, key);
        lemma_providers_synced_rows(once, items, second, key);
        lemma_providers_synced_rows(store, items, second, key);
    }
    assert(twice =~= direct);
    assert(twice.dom() =~= once.dom());
}

} // verus!
