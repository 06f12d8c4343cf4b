use swap_sync::keyed::{same_key, KeyedTable};
use swap_sync::quotes::{trade_key, QuoteCache};
use swap_sync::staleness::{needs_refresh, Collection};
use swap_sync::providers::{refresh_providers, ProviderItem, ProviderTable};
use swap_sync::sync::Refresh;

fn key(parts: &[&str]) -> Vec<String> {
    parts.iter().map(|p| p.to_string()).collect()
}

fn provider(name: &str, rating: &str) -> ProviderItem<String> {
    ProviderItem { name: name.to_string(), details: rating.to_string() }
}

fn listed() -> Vec<ProviderItem<String>> {
    vec![provider("ChangeNOW", "B"), provider("Simple Swap", "A"), provider("Exolix", "C")]
}

fn facts(table: &ProviderTable<String>, name: &str) -> Option<(String, String, String, String, i64)> {
    table.get(name).map(|r| {
        (r.id.clone(), r.name.clone(), r.slug.clone(), r.details.clone(), r.last_synced_at)
    })
}

#[test]
fn keys_are_equal_part_by_part() {
    assert!(same_key(&key(&[]), &key(&[])));
    assert!(same_key(&key(&["a", "b"]), &key(&["a", "b"])));
    assert!(!same_key(&key(&["a", "b"]), &key(&["a", "c"])));
    assert!(!same_key(&key(&["a", "b"]), &key(&["b", "a"])));
    assert!(!same_key(&key(&["ab"]), &key(&["a", "b"])));
    assert!(!same_key(&key(&["a"]), &key(&["a", ""])));
}

#[test]
fn table_holds_one_value_for_each_key() {
    let mut table: KeyedTable<u32> = KeyedTable::new();
    assert_eq!(table.len(), 0);
    assert_eq!(table.get(&key(&["x"])), None);
    table.put(key(&["x"]), 1);
    table.put(key(&["y", "z"]), 2);
    table.put(key(&["x"]), 3);
    assert_eq!(table.len(), 2);
    assert_eq!(table.get(&key(&["x"])), Some(&3));
    assert_eq!(table.get(&key(&["y", "z"])), Some(&2));
    assert_eq!(table.get(&key(&["y"])), None);
    assert_eq!(table.nth(0).key, key(&["x"]));
    assert_eq!(table.nth(0).value, 3);
    assert_eq!(table.nth(1).key, key(&["y", "z"]));
    assert_eq!(table.nth(1).value, 2);
}

#[test]
fn provider_is_inserted_under_its_slug() {
    let mut table: ProviderTable<String> = ProviderTable::new();
    table.upsert(provider("Simple Swap", "A"), 100);
    assert_eq!(table.len(), 1);
    assert_eq!(
        facts(&table, "Simple Swap"),
        Some((
            "simple-swap".to_string(),
            "Simple Swap".to_string(),
            "simple-swap".to_string(),
            "A".to_string(),
            100
        ))
    );
}

#[test]
fn provider_listed_in_another_case_is_the_same_row() {
    let mut table: ProviderTable<String> = ProviderTable::new();
    table.upsert(provider("Simple Swap", "A"), 100);
    table.upsert(provider("SIMPLE swap", "B"), 200);
    assert_eq!(table.len(), 1);
    let expected = Some((
        "simple-swap".to_string(),
        "SIMPLE swap".to_string(),
        "simple-swap".to_string(),
        "B".to_string(),
        200,
    ));
    assert_eq!(facts(&table, "simple swap"), expected);
    assert_eq!(facts(&table, "Simple Swap"), expected);
    assert_eq!(facts(&table, "Simple-Swap"), None);
}

#[test]
fn providers_synced_twice_equal_providers_synced_once() {
    let names = ["ChangeNOW", "Simple Swap", "Exolix", "Legacy"];

    let mut twice: ProviderTable<String> = ProviderTable::new();
    twice.upsert(provider("Legacy", "D"), 5);
    assert_eq!(twice.sync(listed(), 1_000), 3);
    assert_eq!(twice.len(), 4);
    assert_eq!(twice.sync(listed(), 2_000), 3);
    assert_eq!(twice.len(), 4);

    let mut once: ProviderTable<String> = ProviderTable::new();
    once.upsert(provider("Legacy", "D"), 5);
    assert_eq!(once.sync(listed(), 2_000), 3);

    for name in names {
        assert_eq!(facts(&twice, name), facts(&once, name));
        assert!(facts(&twice, name).is_some());
    }
    assert_eq!(twice.get("Exolix").map(|r| r.last_synced_at), Some(2_000));
    assert_eq!(twice.get("Legacy").map(|r| r.last_synced_at), Some(5));
    assert_eq!(twice.cursor(), Some(2_000));
}

#[test]
fn providers_are_stale_until_synced() {
    let mut table: ProviderTable<String> = ProviderTable::new();
    assert_eq!(table.cursor(), None);
    assert!(needs_refresh(Collection::Providers, table.cursor(), 50));
    assert_eq!(table.sync(listed(), 50), 3);
    assert!(!needs_refresh(Collection::Providers, table.cursor(), 50));
    assert!(!needs_refresh(Collection::Providers, table.cursor(), 350));
    assert!(needs_refresh(Collection::Providers, table.cursor(), 351));
}

#[test]
fn trade_key_has_the_five_parameters() {
    assert_eq!(
        trade_key("BTC", "ETH", "mainnet", "mainnet", "0.5"),
        key(&["BTC", "ETH", "mainnet", "mainnet", "0.5"])
    );
}

fn quote(cache: &mut QuoteCache<String>, amount: &str, now: u64, fetches: &mut u32) -> String {
    let params = trade_key("BTC", "ETH", "mainnet", "mainnet", amount);
    if let Some(hit) = cache.lookup_at(&params, now) {
        return hit.clone();
    }
    *fetches += 1;
    let fetched = format!("quotes #{}", fetches);
    cache.store_at(params, fetched.clone(), now);
    fetched
}

#[test]
fn same_trade_within_thirty_seconds_is_fetched_once() {
    let mut cache: QuoteCache<String> = QuoteCache::new();
    let mut fetches: u32 = 0;
    assert_eq!(quote(&mut cache, "0.5", 1_000, &mut fetches), "quotes #1");
    assert_eq!(quote(&mut cache, "0.5", 1_029, &mut fetches), "quotes #1");
    assert_eq!(fetches, 1);
    assert_eq!(quote(&mut cache, "0.5", 1_030, &mut fetches), "quotes #2");
    assert_eq!(fetches, 2);
    assert_eq!(quote(&mut cache, "0.5", 1_059, &mut fetches), "quotes #2");
    assert_eq!(fetches, 2);
}

#[test]
fn another_amount_is_another_trade() {
    let mut cache: QuoteCache<String> = QuoteCache::new();
    let mut fetches: u32 = 0;
    assert_eq!(quote(&mut cache, "0.5", 1_000, &mut fetches), "quotes #1");
    assert_eq!(quote(&mut cache, "0.50", 1_001, &mut fetches), "quotes #2");
    assert_eq!(quote(&mut cache, "0.5", 1_002, &mut fetches), "quotes #1");
    assert_eq!(fetches, 2);
}

#[test]
fn expiry_saturates_at_the_end_of_time() {
    let mut cache: QuoteCache<u8> = QuoteCache::new();
    let params = trade_key("a", "b", "c", "d", "1");
    cache.store_at(params.clone(), 7, u64::MAX - 10);
    assert_eq!(cache.lookup_at(&params, u64::MAX - 1), Some(&7));
    assert_eq!(cache.lookup_at(&params, u64::MAX), None);
}

fn fetch_counted(
    cache: &mut QuoteCache<String>,
    now: u64,
    fetches: &std::cell::Cell<u32>,
) -> Result<String, swap_sync::error::SwapError> {
    let params = trade_key("BTC", "ETH", "mainnet", "mainnet", "0.5");
    cache
        .get_or_fetch_at(&params, now, || {
            fetches.set(fetches.get() + 1);
            Ok(format!("answer {}", fetches.get()))
        })
        .map(|quotes| quotes.clone())
}

#[test]
fn get_or_fetch_calls_the_fetch_once_within_the_time_to_live() {
    let mut cache: QuoteCache<String> = QuoteCache::new();
    let fetches = std::cell::Cell::new(0u32);
    assert_eq!(fetch_counted(&mut cache, 500, &fetches).ok(), Some("answer 1".to_string()));
    assert_eq!(fetch_counted(&mut cache, 510, &fetches).ok(), Some("answer 1".to_string()));
    assert_eq!(fetches.get(), 1);
    assert_eq!(fetch_counted(&mut cache, 529, &fetches).ok(), Some("answer 1".to_string()));
    assert_eq!(fetches.get(), 1);
    assert_eq!(fetch_counted(&mut cache, 530, &fetches).ok(), Some("answer 2".to_string()));
    assert_eq!(fetches.get(), 2);
}

#[test]
fn failed_fetch_is_passed_on_and_nothing_is_stored() {
    let mut cache: QuoteCache<String> = QuoteCache::new();
    let params = trade_key("BTC", "ETH", "mainnet", "mainnet", "0.5");
    let failed = cache
        .get_or_fetch_at(&params, 10, || {
            Err(swap_sync::error::SwapError::ExternalApiError("down".to_string()))
        })
        .map(|quotes| quotes.clone());
    assert!(matches!(failed, Err(swap_sync::error::SwapError::ExternalApiError(ref m)) if m == "down"));
    assert_eq!(cache.lookup_at(&params, 10), None);
    let fetches = std::cell::Cell::new(0u32);
    assert_eq!(fetch_counted(&mut cache, 11, &fetches).ok(), Some("answer 1".to_string()));
    assert_eq!(fetches.get(), 1);
}

#[test]
fn read_of_the_providers_refreshes_a_stale_table() {
    let mut table: ProviderTable<String> = ProviderTable::new();
    let fetches = std::cell::Cell::new(0u32);
    let fetch = || {
        fetches.set(fetches.get() + 1);
        Ok(listed())
    };
    assert!(matches!(refresh_providers(&mut table, 50, "", &fetch, |_secs| ()), Refresh::Fresh));
    assert_eq!(fetches.get(), 0);
    assert!(matches!(refresh_providers(&mut table, 50, "key", &fetch, |_secs| ()), Refresh::Synced(3)));
    assert!(matches!(refresh_providers(&mut table, 350, "key", &fetch, |_secs| ()), Refresh::Fresh));
    assert_eq!(fetches.get(), 1);
    assert!(matches!(refresh_providers(&mut table, 351, "key", &fetch, |_secs| ()), Refresh::Synced(3)));
    assert_eq!(fetches.get(), 2);
    assert_eq!(table.len(), 3);
    assert_eq!(table.cursor(), Some(351));
}

#[test]
fn failed_refresh_of_the_providers_keeps_the_rows() {
    let mut table: ProviderTable<String> = ProviderTable::new();
    table.upsert(provider("Exolix", "C"), 1);
    let outcome = refresh_providers(
        &mut table,
        5_000,
        "key",
        || Err::<Vec<ProviderItem<String>>, String>("bad gateway".to_string()),
        |_secs| (),
    );
    assert!(matches!(
        outcome,
        Refresh::Failed(swap_sync::error::SwapError::ExternalApiError(ref m)) if m == "bad gateway"
    ));
    assert_eq!(table.len(), 1);
    assert_eq!(table.get("exolix").map(|r| r.last_synced_at), Some(1));
}
