//! The sync of one collection of reference data: what the upstream lists
//! is fetched, with retries, and each listed item is written into the store
//! under its natural key.

use vstd::prelude::*;
use crate::error::SwapError;
use crate::keyed::has_key;
use crate::keyed::key_text;
use crate::keyed::lemma_entries_are_the_table;
use crate::keyed::KeyedTable;
use crate::retry::call_with_retry;
use crate::retry::is_rate_limit_text;
use crate::retry::RetryState;
use crate::retry::MAX_RETRIES;

verus! {

/// A row that records when a sync last wrote it.
pub trait Stamped {
    /// When a sync last wrote the row, in seconds since the Unix epoch.
    spec fn stamp_of(&self) -> i64;

    /// When a sync last wrote the row.
    fn stamp(&self) -> (at: i64)
        ensures
            at == self.stamp_of(),
    ;
}

/// Whether `cursor` is the sync cursor of the rows of `table`: nothing when
/// there is no row, else the latest time at which a sync wrote one of them.
pub open spec fn is_cursor<V: Stamped>(table: Map<Seq<Seq<char>>, V>, cursor: Option<i64>) -> bool {
    match cursor {
        None => forall|key: Seq<Seq<char>>| !table.contains_key(key),
        Some(at) => {
            &&& exists|key: Seq<Seq<char>>| #[trigger]
                table.contains_key(key) && table[key].stamp_of() == at
            &&& forall|key: Seq<Seq<char>>| #[trigger]
                table.contains_key(key) ==> table[key].stamp_of() <= at
        },
    }
}

/// The sync cursor of the rows of `table`.
pub fn table_cursor<V: Stamped>(table: &KeyedTable<V>) -> (cursor: Option<i64>)
    requires
        table.wf(),
    ensures
        is_cursor(table@, cursor),
        cursor is None <==> table.entries().len() == 0,
{
    let mut best: Option<i64> = None;
    let mut i: usize = 0;
    while i < table.len()
        invariant
            i <= table.entries().len(),
            best is None <==> i == 0,
            best is Some ==> exists|j: int|
                0 <= j < i && (#[trigger] table.entries()[j]).value.stamp_of() == best->Some_0,
            best is Some ==> forall|j: int|
                0 <= j < i ==> (#[trigger] table.entries()[j]).value.stamp_of() <= best->Some_0,
        decreases table.entries().len() - i,
    {
        let at: i64 = table.nth(i).value.stamp();
        best = match best {
            None => Some(at),
            Some(b) => Some(if at > b { at } else { b }),
        };
        i += 1;
    }
    proof {
        lemma_entries_are_the_table(table);
        match best {
            None => {
                assert forall|key: Seq<Seq<char>>| !table@.contains_key(key) by {
                    if table@.contains_key(key) {
                        assert(has_key(table.entries(), key));
                    }
                }
            },
            Some(at) => {
                let j = choose|j: int|
                    0 <= j < i && (#[trigger] table.entries()[j]).value.stamp_of() == at;
                assert(table@.contains_key(key_text(table.entries()[j].key)));
                assert forall|key: Seq<Seq<char>>| #[trigger]
                    table@.contains_key(key) implies table@[key].stamp_of() <= at by {
                    assert(has_key(table.entries(), key));
                    let k = choose|k: int|
                        0 <= k < table.entries().len() && key_text(
                            #[trigger] table.entries()[k].key,
                        ) == key;
                    assert(table@[key] == table.entries()[k].value);
                }
            },
        }
    }
    best
}

/// What a read of a collection did before the rows are read.
pub enum Refresh {
    /// Nothing: the rows are fresh, or no key for the upstream is
    /// configured.
    Fresh,
    /// It synced the table with this many listed items.
    Synced(usize),
    /// It tried to sync, but the upstream failed for good. The rows stay
    /// as they were and are served all the same.
    Failed(SwapError),
}

/// The progress of a sync whose writes the caller performs: how many items
/// were written so far.
#[derive(Clone, Copy, Debug, PartialEq, Eq, Structural)]
pub struct SyncProgress {
    pub synced: usize,
}

impl SyncProgress {
    /// The progress before the first write.
    pub fn start() -> (progress: SyncProgress)
        ensures
            progress.synced == 0,
    {
        SyncProgress { synced: 0 }
    }

    /// Takes note of the outcome of the write of one more item, a failure
    /// being given by the store's message. A write that succeeded counts; one
    /// that failed ends the whole sync with a database error.
    pub fn record(self, written: Result<(), String>) -> (next: Result<SyncProgress, SwapError>)
        requires
            self.synced < usize::MAX,
        ensures
            match written {
                Ok(_) => next == Ok::<SyncProgress, SwapError>(
                    SyncProgress { synced: (self.synced + 1) as usize },
                ),
                Err(msg) => next == Err::<SyncProgress, SwapError>(SwapError::DatabaseError(msg)),
            },
    {
        match written {
            Ok(_) => Ok(SyncProgress { synced: self.synced + 1 }),
            Err(msg) => Err(SwapError::DatabaseError(msg)),
        }
    }
}

/// Whether `write` wrote the first `upto` items of `items`.
pub open spec fn all_written<I, W: Fn(&I) -> Result<(), String>>(
    write: W,
    items: Seq<I>,
    upto: int,
) -> bool {
    forall|j: int| 0 <= j < upto ==> write.ensures((&#[trigger] items[j],), Ok(()))
}

/// Whether `fetch` listed `items`, and `write` wrote every one of them.
pub open spec fn synced_all<I, F: Fn() -> Result<Vec<I>, String>, W: Fn(&I) -> Result<(), String>>(
    fetch: F,
    write: W,
    items: Vec<I>,
) -> bool {
    fetch.ensures((), Ok(items)) && all_written(write, items@, items@.len() as int)
}

/// Whether `fetch` listed `items`, and `write` wrote the items before the
/// one at `at` and failed on that one with the message `msg`.
pub open spec fn failed_at<I, F: Fn() -> Result<Vec<I>, String>, W: Fn(&I) -> Result<(), String>>(
    fetch: F,
    write: W,
    items: Vec<I>,
    at: int,
    msg: String,
) -> bool {
    &&& fetch.ensures((), Ok(items))
    &&& 0 <= at < items@.len()
    &&& all_written(write, items@, at)
    &&& write.ensures((&items@[at],), Err(msg))
}

/// Syncs one collection: fetches what the upstream lists, with the retries
/// that the retry rules allow and `sleep` called for each backoff, then
/// hands each listed item to `write`, first to last. Returns how many items
/// were written, which is all that were listed. A fetch that fails for good
/// ends the sync with the failure of the upstream, and nothing is written;
/// the first write that fails ends it with a database error, and the items
/// after it are not written. Beside the result stands the state in which
/// the last fetch was made: a fetch that ends as rate limited has used every
/// retry.
pub fn sync_collection<I, F, S, W>(fetch: F, sleep: S, write: W) -> (done: (
    Result<usize, SwapError>,
    RetryState,
)) where
    F: Fn() -> Result<Vec<I>, String>,
    S: Fn(u64) -> (),
    W: Fn(&I) -> Result<(), String>,

    requires
        fetch.requires(()),
        forall|secs: u64| sleep.requires((secs,)),
        forall|item: &I| write.requires((item,)),
    ensures
        done.1.wf(),
        done.0 matches Ok(count) ==> exists|items: Vec<I>| #[trigger]
            synced_all(fetch, write, items) && count == items@.len(),
        done.0 matches Err(SwapError::DatabaseError(msg)) ==> exists|items: Vec<I>, at: int|
            #[trigger] failed_at(fetch, write, items, at, msg),
        done.0 matches Err(SwapError::RateLimited(msg)) ==> fetch.ensures((), Err(msg))
            && is_rate_limit_text(msg@) && done.1.retries == MAX_RETRIES && done.1.slept_secs == 7,
        done.0 matches Err(SwapError::ExternalApiError(msg)) ==> fetch.ensures((), Err(msg))
            && !is_rate_limit_text(msg@),
        done.0 matches Err(error) ==> error is DatabaseError || error is RateLimited
            || error is ExternalApiError,
{
    let (fetched, state) = call_with_retry(fetch, sleep);
    let items = match fetched {
        Ok(items) => items,
        Err(error) => {
            return (Err(error), state);
        },
    };
    let mut progress = SyncProgress::start();
    let mut i: usize = 0;
    while i < items.len()
        invariant
            i <= items@.len(),
            progress.synced == i,
            state.wf(),
            fetch.ensures((), Ok(items)),
            all_written(write, items@, i as int),
            forall|item: &I| write.requires((item,)),
        decreases items@.len() - i,
    {
        let written = write(&items[i]);
        assert(write.ensures((&items@[i as int],), written));
        match progress.record(written) {
            Ok(next) => {
                assert(written is Ok);
                assert(written->Ok_0 == ());
                assert(written == Ok::<(), String>(()));
                progress = next;
            },
            Err(error) => {
                assert(failed_at(fetch, write, items, i as int, written->Err_0));
                assert(error matches SwapError::DatabaseError(msg) && msg == written->Err_0);
                return (Err(error), state);
            },
        }
        i += 1;
    }
    assert(synced_all(fetch, write, items));
    (Ok(progress.synced), state)
}

} // verus!
