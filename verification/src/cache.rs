//! The snapshot cache: the last aggregated events and tasks, served again
//! whenever a later aggregation fails.

use vstd::prelude::*;
use vstd::string::*;
use crate::auth::{file_in, path_in};
use crate::calendar::Event;
use crate::tasks::Task;

verus! {

/// A snapshot: the events and tasks of one aggregation.
#[derive(Debug, Clone)]
pub struct CachedData {
    pub events: Vec<Event>,
    pub tasks: Vec<Task>,
}

/// The mathematical value of a snapshot.
pub struct SnapshotModel {
    pub events: Seq<Event>,
    pub tasks: Seq<Task>,
}

impl View for CachedData {
    type V = SnapshotModel;

    open spec fn view(&self) -> SnapshotModel {
        SnapshotModel { events: self.events@, tasks: self.tasks@ }
    }
}

/// The snapshot without events and tasks.
pub open spec fn empty_snapshot() -> SnapshotModel {
    SnapshotModel { events: Seq::empty(), tasks: Seq::empty() }
}

/// What the cache serves: the held snapshot, or the empty one.
pub open spec fn cached_snapshot(held: Option<CachedData>) -> SnapshotModel {
    match held {
        Some(c) => c@,
        None => empty_snapshot(),
    }
}

/// The cache: the last snapshot, if there is one yet.
#[derive(Debug, Clone)]
pub struct SnapshotCache {
    pub cache: Option<CachedData>,
}

fn copy_snapshot(data: &CachedData) -> (r: CachedData)
    ensures
        r@ == data@,
{
    let mut events: Vec<Event> = Vec::new();
    let mut i: usize = 0;
    while i < data.events.len()
        invariant
            i <= data.events.len(),
            events@ == data.events@.take(i as int),
        decreases data.events.len() - i,
    {
        events.push(data.events[i].duplicate());
        assert(events@ =~= data.events@.take(i as int + 1));
        i = i + 1;
    }
    assert(data.events@.take(data.events.len() as int) =~= data.events@);
    let mut tasks: Vec<Task> = Vec::new();
    let mut j: usize = 0;
    while j < data.tasks.len()
        invariant
            j <= data.tasks.len(),
            tasks@ == data.tasks@.take(j as int),
        decreases data.tasks.len() - j,
    {
        tasks.push(data.tasks[j].duplicate());
        assert(tasks@ =~= data.tasks@.take(j as int + 1));
        j = j + 1;
    }
    assert(data.tasks@.take(data.tasks.len() as int) =~= data.tasks@);
    CachedData { events, tasks }
}

/// What a refresh returns for the outcomes of the two fetchers and the
/// snapshot held before: the new snapshot where both succeeded, else the
/// held one, else the error of the fetcher that failed, the events
/// fetcher's first.
pub open spec fn refresh_result(
    held: Option<CachedData>,
    events: Result<Vec<Event>, String>,
    tasks: Result<Vec<Task>, String>,
) -> Result<SnapshotModel, String> {
    match (events, tasks) {
        (Ok(e), Ok(t)) => Ok(SnapshotModel { events: e@, tasks: t@ }),
        (Err(err), _) => match held {
            Some(c) => Ok(c@),
            None => Err(err),
        },
        (Ok(_), Err(err)) => match held {
            Some(c) => Ok(c@),
            None => Err(err),
        },
    }
}

/// The model of what a refresh returned.
pub open spec fn result_model(r: Result<CachedData, String>) -> Result<SnapshotModel, String> {
    match r {
        Ok(d) => Ok(d@),
        Err(e) => Err(e),
    }
}

impl SnapshotCache {
    /// A cache that starts with what was loaded from disk, if anything.
    pub fn new(loaded: Option<CachedData>) -> (cache: SnapshotCache)
        ensures
            cache.cache == loaded,
    {
        SnapshotCache { cache: loaded }
    }

    /// The held snapshot, or an empty one where none exists yet. Never an
    /// error.
    pub fn get_cached_data(&self) -> (data: CachedData)
        ensures
            data@ == cached_snapshot(self.cache),
    {
        match &self.cache {
            Some(c) => copy_snapshot(c),
            None => CachedData { events: Vec::new(), tasks: Vec::new() },
        }
    }

    /// Settles a refresh from the outcomes of the two fetchers, without
    /// touching the cache: the new snapshot where both succeeded, else the
    /// held one; only a cache that holds none surfaces the error.
    pub fn settle(
        &self,
        events: Result<Vec<Event>, String>,
        tasks: Result<Vec<Task>, String>,
    ) -> (r: Result<CachedData, String>)
        ensures
            result_model(r) == refresh_result(self.cache, events, tasks),
            self.cache is Some ==> r is Ok,
    {
        match events {
            Ok(e) => match tasks {
                Ok(t) => Ok(CachedData { events: e, tasks: t }),
                Err(err) => self.held_or(err),
            },
            Err(err) => self.held_or(err),
        }
    }

    /// Ends a refresh that gave a new snapshot: where the snapshot was
    /// durably stored it replaces the held one; where storing failed the
    /// cache is left as it is.
    pub fn commit(&mut self, data: CachedData, stored: bool)
        ensures
            stored ==> final(self).cache == Some(data),
            !stored ==> final(self).cache == old(self).cache,
    {
        if stored {
            self.cache = Some(data);
        }
    }

    fn held_or(&self, err: String) -> (r: Result<CachedData, String>)
        ensures
            result_model(r) == match self.cache {
                Some(c) => Ok::<SnapshotModel, String>(c@),
                None => Err::<SnapshotModel, String>(err),
            },
    {
        match &self.cache {
            Some(c) => Ok(copy_snapshot(c)),
            None => Err(err),
        }
    }
}

/// Whether a refresh with these outcomes yields a new snapshot, which is
/// then to be written to disk.
pub fn is_fresh(events: &Result<Vec<Event>, String>, tasks: &Result<Vec<Task>, String>) -> (r: bool)
    ensures
        r == (*events is Ok && *tasks is Ok),
{
    events.is_ok() && tasks.is_ok()
}

/// A cache that holds no snapshot serves one without events and tasks.
pub proof fn lemma_fresh_cache_is_empty()
    ensures
        cached_snapshot(None).events.len() == 0,
        cached_snapshot(None).tasks.len() == 0,
{
}

/// Where the events fetch fails and a snapshot is held, a refresh returns
/// that snapshot unchanged and no error.
pub proof fn lemma_fallback_on_failure(
    held: CachedData,
    error: String,
    tasks: Result<Vec<Task>, String>,
)
    ensures
        refresh_result(Some(held), Err(error), tasks) == Ok::<SnapshotModel, String>(held@),
{
}

/// Path of the snapshot file inside the program's directory.
pub fn get_cache_path(base_dir: &str) -> (r: String)
    ensures
        r@ == path_in(base_dir@, "cache.json"@),
{
    file_in(base_dir, "cache.json")
}

} // verus!
