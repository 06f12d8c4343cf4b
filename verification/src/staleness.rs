//! When a cached collection of reference data is due for a refresh.

use vstd::prelude::*;
use crate::clock::unix_seconds;
use crate::error::SwapError;

verus! {

/// The staleness window, in seconds: a collection synced longer ago than
/// this is refreshed.
pub const STALENESS_WINDOW_SECS: i64 = 300;

/// The collections of reference data. Both share one staleness window.
#[derive(Clone, Copy, Debug, PartialEq, Eq, Structural)]
pub enum Collection {
    Currencies,
    Providers,
}

/// The staleness window of a collection, in seconds.
pub open spec fn window_of(collection: Collection) -> int {
    STALENESS_WINDOW_SECS as int
}

/// Whether a collection whose latest sync completed at `cursor` is stale at
/// `now`: it is when it was never synced, or when more than the window has
/// passed since. Both times are seconds since the Unix epoch.
pub open spec fn is_stale(collection: Collection, cursor: Option<i64>, now: i64) -> bool {
    match cursor {
        None => true,
        Some(last) => now - last > window_of(collection),
    }
}

/// The latest of the sync times of a collection's rows, if it has any.
pub open spec fn cursor_of(times: Seq<i64>) -> Option<i64>
    decreases times.len(),
{
    if times.len() == 0 {
        None
    } else {
        match cursor_of(times.drop_last()) {
            None => Some(times.last()),
            Some(best) => Some(if times.last() > best {
                times.last()
            } else {
                best
            }),
        }
    }
}

/// The staleness window of a collection, in seconds.
pub fn staleness_window(collection: Collection) -> (secs: i64)
    ensures
        secs == window_of(collection),
{
    match collection {
        Collection::Currencies => STALENESS_WINDOW_SECS,
        Collection::Providers => STALENESS_WINDOW_SECS,
    }
}

/// Whether the collection must be refreshed at `now`, given the completion
/// time of its latest sync.
pub fn needs_refresh(collection: Collection, cursor: Option<i64>, now: i64) -> (stale: bool)
    ensures
        stale == is_stale(collection, cursor, now),
{
    match cursor {
        None => true,
        Some(last) => {
            let window: i64 = staleness_window(collection);
            if now >= last {
                // `now - last` may exceed the range of `i64`; compare without it.
                if last >= 0 || now < 0 {
                    now - last > window
                } else {
                    // last < 0 <= now
                    now > window + last
                }
            } else {
                false
            }
        },
    }
}

/// Whether the collection must be refreshed at the clock's present
/// reading, given the completion time of its latest sync.
pub fn needs_refresh_now(collection: Collection, cursor: Option<i64>) -> (stale: bool)
    ensures
        exists|now: i64| stale == #[trigger] is_stale(collection, cursor, now),
        cursor is None ==> stale,
{
    let secs: u64 = unix_seconds();
    let now: i64 = if secs > 0x7fff_ffff_ffff_ffff {
        i64::MAX
    } else {
        secs as i64
    };
    needs_refresh(collection, cursor, now)
}

/// Whether a read of reference data first attempts a sync: it does when
/// the collection is stale, or when its staleness could not be found out,
/// provided that a key for the upstream provider is configured.
pub fn refresh_due(checked: Result<bool, SwapError>, api_key: &str) -> (due: bool)
    ensures
        due == (api_key@.len() > 0 && match checked {
            Ok(stale) => stale,
            Err(_) => true,
        }),
{
    let stale = match checked {
        Ok(stale) => stale,
        Err(_) => true,
    };
    stale && !api_key.is_empty()
}

/// The latest of the sync times of a collection's rows, if it has any.
pub fn sync_cursor(times: &Vec<i64>) -> (cursor: Option<i64>)
    ensures
        cursor == cursor_of(times@),
{
    let mut best: Option<i64> = None;
    let mut i: usize = 0;
    while i < times.len()
        invariant
            i <= times.len(),
            best == cursor_of(times@.take(i as int)),
        decreases times.len() - i,
    {
        let t: i64 = times[i];
        proof {
            assert(times@.take(i as int + 1).drop_last() == times@.take(i as int));
        }
        best = match best {
            None => Some(t),
            Some(b) => Some(if t > b { t } else { b }),
        };
        i += 1;
    }
    proof {
        assert(times@.take(i as int) == times@);
    }
    best
}

/// A collection is stale before its first sync, fresh at the moment a sync
/// completes and for the whole window after it, and stale from the first
/// second past the window.
pub proof fn lemma_staleness_cycle(collection: Collection, synced_at: i64, now: i64)
    ensures
        is_stale(collection, None, now),
        !is_stale(collection, Some(synced_at), synced_at),
        synced_at <= now <= synced_at + STALENESS_WINDOW_SECS ==> !is_stale(
            collection,
            Some(synced_at),
            now,
        ),
        now > synced_at + STALENESS_WINDOW_SECS ==> is_stale(collection, Some(synced_at), now),
{
}

} // verus!
