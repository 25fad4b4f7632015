//! The per-series episode catalog and its temporal queries.
//!
//! A catalog is the ordered sequence of episodes known for one series at a
//! point in time.  It is populated through the cache gateway with a remote
//! fetch as fallback, and it is read-only once constructed.  Watchability of
//! an episode is decided against a clock value handed in by the caller: an
//! episode is watchable when its airstamp is not strictly after that
//! instant, and undecidable when it has no airstamp.
//!
//! Malformed airstamps are rejected when the catalog is constructed: one bad
//! record fails the whole load with a typed error rather than being skipped
//! silently, so a catalog never carries an airstamp it cannot interpret.

use vstd::prelude::*;

use crate::cache::{plan_load, write_post, CacheGateway, CacheKey, LoadPlan};
use crate::sorted::{insert_sorted, spec_sorted_strict};
use crate::time::{
    epoch_in_range, parse_rfc3339_epoch, remaining_time_text, rfc3339_epoch, spec_remaining_text,
    EpisodeReleaseTime, TimestampParseError,
};

verus! {

/// The remote fetch failed; fatal for the current load, surfaced to the
/// caller, and never retried.
#[derive(Clone, Copy, Debug, PartialEq, Eq, Structural)]
pub struct FetchError;

/// Why a load could not produce a catalog.
#[derive(Clone, Copy, Debug, PartialEq, Eq, Structural)]
pub enum LoadError {
    /// The remote fetch failed.
    Fetch(FetchError),
    /// A fetched record carried a malformed airstamp.
    Timestamp(TimestampParseError),
}

/// One episode as the remote source reports it: season, an optional number
/// (absent for specials), a name, an optional RFC 3339 airstamp and an
/// optional summary.  Immutable once fetched.
#[derive(Debug)]
pub struct Episode {
    pub season: u32,
    pub number: Option<u32>,
    pub name: String,
    pub airstamp: Option<String>,
    pub summary: Option<String>,
}

impl Clone for Episode {
    fn clone(&self) -> (r: Self)
        ensures
            r == *self,
    {
        Episode {
            season: self.season,
            number: self.number,
            name: self.name.clone(),
            airstamp: match &self.airstamp {
                Some(s) => Some(s.clone()),
                None => None,
            },
            summary: match &self.summary {
                Some(s) => Some(s.clone()),
                None => None,
            },
        }
    }
}

/// One catalog slot: the episode together with its airstamp parsed once
/// into Unix seconds (absent exactly when the episode has no airstamp).
#[derive(Debug)]
pub struct CatalogEntry {
    pub episode: Episode,
    pub airstamp_epoch: Option<i64>,
}

/// Whether the entry's release instant lies at or before `now`; unknown
/// when the episode has no airstamp.
pub open spec fn spec_entry_watchable(e: CatalogEntry, now: int) -> Option<bool> {
    match e.airstamp_epoch {
        None => None,
        Some(t) => Some(t as int <= now),
    }
}

/// The entry's parsed instant agrees with its airstamp text and lies in the
/// supported calendar range.
pub open spec fn spec_entry_wf(e: CatalogEntry) -> bool {
    match e.episode.airstamp {
        None => e.airstamp_epoch is None,
        Some(s) => {
            &&& e.airstamp_epoch matches Some(t)
            &&& rfc3339_epoch(s@) == Some(t as int)
            &&& epoch_in_range(t as int)
        },
    }
}

pub open spec fn spec_entry_matches(e: CatalogEntry, season: u32, number: u32) -> bool {
    e.episode.season == season && e.episode.number == Some(number)
}

/// The entries of `s` that belong to `season`, in order.
pub open spec fn spec_season_entries(s: Seq<CatalogEntry>, season: u32) -> Seq<CatalogEntry> {
    s.filter(|e: CatalogEntry| e.episode.season == season)
}

/// The entries of `s` that are watchable at `now`, in order.
pub open spec fn spec_watchable_entries(s: Seq<CatalogEntry>, now: int) -> Seq<CatalogEntry> {
    s.filter(|e: CatalogEntry| spec_entry_watchable(e, now) == Some(true))
}

/// The entries of `s` in `season` that are watchable at `now`, in order.
pub open spec fn spec_season_watchable_entries(
    s: Seq<CatalogEntry>,
    season: u32,
    now: int,
) -> Seq<CatalogEntry> {
    s.filter(
        |e: CatalogEntry| e.episode.season == season && spec_entry_watchable(e, now) == Some(true),
    )
}

/// The previous episode relative to `now`, by the catalog's scan order: the
/// first episode whose successor is not watchable, or the last episode when
/// every successor is watchable.  When a successor's watchability cannot be
/// decided (it has no airstamp) the whole scan aborts and yields nothing
/// rather than skipping the undecidable entry.
pub open spec fn spec_previous_episode(s: Seq<CatalogEntry>, now: int) -> Option<Episode>
    decreases s.len(),
{
    if s.len() == 0 {
        None
    } else if s.len() == 1 {
        Some(s[0].episode)
    } else {
        match spec_entry_watchable(s[1], now) {
            None => None,
            Some(false) => Some(s[0].episode),
            Some(true) => spec_previous_episode(s.drop_first(), now),
        }
    }
}

/// The next episode relative to `now`: the first entry whose watchability
/// resolves to exactly `Some(false)`.
pub open spec fn spec_next_entry(s: Seq<CatalogEntry>, now: int) -> Option<CatalogEntry>
    decreases s.len(),
{
    if s.len() == 0 {
        None
    } else if spec_entry_watchable(s[0], now) == Some(false) {
        Some(s[0])
    } else {
        spec_next_entry(s.drop_first(), now)
    }
}

/// Some entry of `s` belongs to season `x`.
pub open spec fn spec_has_season(s: Seq<CatalogEntry>, x: u32) -> bool {
    exists|j: int| 0 <= j < s.len() && (#[trigger] s[j]).episode.season == x
}

/// Aggregate episode counts of one season: all episodes, and those
/// watchable now.  Derived and recomputed on demand, never persisted.
#[derive(Clone, Copy, Debug)]
pub struct TotalEpisodes {
    all_episodes: usize,
    all_watchable_episodes: usize,
}

impl TotalEpisodes {
    pub closed spec fn spec_all(&self) -> nat {
        self.all_episodes as nat
    }

    pub closed spec fn spec_watchable(&self) -> nat {
        self.all_watchable_episodes as nat
    }

    fn new(all_episodes: usize, all_watchable_episodes: usize) -> (r: Self)
        ensures
            r.spec_all() == all_episodes as nat,
            r.spec_watchable() == all_watchable_episodes as nat,
    {
        TotalEpisodes { all_episodes, all_watchable_episodes }
    }

    /// Retrieves the count of all episodes.
    pub fn get_all_episodes(&self) -> (r: usize)
        ensures
            r as nat == self.spec_all(),
    {
        self.all_episodes
    }

    /// Retrieves the count of the watchable episodes.
    pub fn get_all_watchable_episodes(&self) -> (r: usize)
        ensures
            r as nat == self.spec_watchable(),
    {
        self.all_watchable_episodes
    }
}

/// The ordered episode catalog of one series.  The remote source reports
/// episodes in broadcast order (non-decreasing by airstamp); the catalog
/// keeps whatever order arrived, and every query's contract is stated over
/// that stored order, so the season aggregates stay exact — ascending and
/// duplicate-free — whatever order the episodes came in.
#[derive(Debug)]
pub struct EpisodeList {
    entries: Vec<CatalogEntry>,
}

impl View for EpisodeList {
    type V = Seq<CatalogEntry>;

    closed spec fn view(&self) -> Seq<CatalogEntry> {
        self.entries@
    }
}

/// What constructing a catalog from fetched episodes yields: each episode
/// kept in order with its airstamp parsed, or a typed parse error exactly
/// when some airstamp is not valid RFC 3339.
pub open spec fn spec_catalog_from(
    episodes: Seq<Episode>,
    r: Result<EpisodeList, TimestampParseError>,
) -> bool {
    match r {
        Ok(catalog) => {
            &&& catalog@.len() == episodes.len()
            &&& forall|i: int| 0 <= i < episodes.len() ==> #[trigger] catalog@[i].episode
                == episodes[i]
            &&& forall|i: int| 0 <= i < episodes.len() ==> spec_entry_wf(#[trigger] catalog@[i])
        },
        Err(_) => exists|i: int|
            0 <= i < episodes.len() && ((#[trigger] episodes[i].airstamp) matches Some(s)
                && rfc3339_epoch(s@) is None),
    }
}

impl EpisodeList {
    /// Every parsed instant lies in the supported calendar range.
    pub open spec fn wf(&self) -> bool {
        forall|i: int|
            0 <= i < self@.len() ==> ((#[trigger] self@[i].airstamp_epoch) matches Some(t)
                ==> epoch_in_range(t as int))
    }

    /// Builds the catalog from fetched episodes, parsing each airstamp
    /// once.  One malformed airstamp fails the whole construction with a
    /// typed error — the explicit policy, chosen over skipping bad records
    /// silently.
    pub fn from_episodes(episodes: Vec<Episode>) -> (r: Result<EpisodeList, TimestampParseError>)
        ensures
            spec_catalog_from(episodes@, r),
            r matches Ok(catalog) ==> catalog.wf(),
    {
        let n = episodes.len();
        let mut entries: Vec<CatalogEntry> = Vec::new();
        let mut i: usize = 0;
        while i < n
            invariant
                n == episodes.len(),
                i <= n,
                entries@.len() == i as int,
                forall|j: int| 0 <= j < i ==> #[trigger] entries@[j].episode == episodes@[j],
                forall|j: int| 0 <= j < i ==> spec_entry_wf(#[trigger] entries@[j]),
            decreases n - i,
        {
            let episode = &episodes[i];
            let airstamp_epoch: Option<i64> = match &episode.airstamp {
                None => None,
                Some(s) => match parse_rfc3339_epoch(s.as_str()) {
                    Ok(t) => Some(t),
                    Err(e) => {
                        return Err(e);
                    },
                },
            };
            entries.push(CatalogEntry { episode: episode.clone(), airstamp_epoch });
            i += 1;
        }
        Ok(EpisodeList { entries })
    }

    /// Reads the cache and decides how the load proceeds; no remote fetch
    /// has happened yet.
    pub fn load_step(cache: &CacheGateway, series_id: u32) -> (r: LoadPlan)
        ensures
            match cache.spec_read(CacheKey::SeriesEpisodeList(series_id)) {
                Some(bytes) => r matches LoadPlan::UseCache(b) && b@ == bytes,
                None => r is FetchThenWrite,
            },
    {
        plan_load(cache.read(&CacheKey::SeriesEpisodeList(series_id)))
    }

    /// Finishes a load whose plan asked for a remote fetch.  A failed fetch
    /// is fatal for this load — it is surfaced, never retried, and the cache
    /// is left untouched.  On a successful fetch the raw payload (never a
    /// re-serialization) is written through exactly when the plan said so,
    /// and the catalog is built from the fetched episodes.
    pub fn complete_load(
        cache: &mut CacheGateway,
        series_id: u32,
        fetch_result: Result<(Vec<Episode>, Vec<u8>), FetchError>,
        write_through: bool,
    ) -> (r: Result<EpisodeList, LoadError>)
        ensures
            fetch_result matches Err(e) ==> *final(cache) == *old(cache) && r == Err::<
                EpisodeList,
                LoadError,
            >(LoadError::Fetch(e)),
            fetch_result matches Ok(fetched) ==> {
                &&& write_through ==> write_post(
                    *old(cache),
                    *final(cache),
                    CacheKey::SeriesEpisodeList(series_id),
                    fetched.1@,
                )
                &&& !write_through ==> *final(cache) == *old(cache)
                &&& match r {
                    Ok(catalog) => spec_catalog_from(fetched.0@, Ok(catalog)) && catalog.wf(),
                    Err(e) => e is Timestamp && spec_catalog_from(
                        fetched.0@,
                        Err(TimestampParseError),
                    ),
                }
            },
    {
        match fetch_result {
            Err(e) => Err(LoadError::Fetch(e)),
            Ok((episodes, raw_payload)) => {
                if write_through {
                    cache.write(&CacheKey::SeriesEpisodeList(series_id), raw_payload);
                }
                match EpisodeList::from_episodes(episodes) {
                    Ok(catalog) => Ok(catalog),
                    Err(e) => Err(LoadError::Timestamp(e)),
                }
            },
        }
    }

    /// The episode of `season` with exact number `number`, if the catalog
    /// has one (the first such entry in catalog order).
    pub fn get_episode(&self, season_number: u32, episode_number: u32) -> (r: Option<Episode>)
        ensures
            match r {
                Some(ep) => exists|i: int|
                    0 <= i < self@.len() && spec_entry_matches(
                        #[trigger] self@[i],
                        season_number,
                        episode_number,
                    ) && ep == self@[i].episode && (forall|j: int|
                        0 <= j < i ==> !spec_entry_matches(
                            #[trigger] self@[j],
                            season_number,
                            episode_number,
                        )),
                None => forall|i: int|
                    0 <= i < self@.len() ==> !spec_entry_matches(
                        #[trigger] self@[i],
                        season_number,
                        episode_number,
                    ),
            },
    {
        let n = self.entries.len();
        let mut i: usize = 0;
        while i < n
            invariant
                n == self@.len(),
                i <= n,
                forall|j: int|
                    0 <= j < i ==> !spec_entry_matches(
                        #[trigger] self@[j],
                        season_number,
                        episode_number,
                    ),
            decreases n - i,
        {
            let entry = &self.entries[i];
            let number_matches = match entry.episode.number {
                Some(x) => x == episode_number,
                None => false,
            };
            if entry.episode.season == season_number && number_matches {
                return Some(entry.episode.clone());
            }
            i += 1;
        }
        None
    }

    /// All episodes of `season`, with the catalog order preserved.
    pub fn get_episodes(&self, season: u32) -> (r: Vec<Episode>)
        ensures
            r@ == spec_season_entries(self@, season).map_values(|e: CatalogEntry| e.episode),
    {
        let n = self.entries.len();
        let mut r: Vec<Episode> = Vec::new();
        let mut i: usize = 0;
        proof {
            assert(self@.take(0int) =~= Seq::<CatalogEntry>::empty());
            reveal(Seq::filter);
        }
        while i < n
            invariant
                n == self@.len(),
                i <= n,
                r@ == spec_season_entries(self@.take(i as int), season).map_values(
                    |e: CatalogEntry| e.episode,
                ),
            decreases n - i,
        {
            proof {
                reveal(Seq::filter);
                assert(self@.take(i + 1).drop_last() =~= self@.take(i as int));
                assert(self@.take(i + 1).last() == self@[i as int]);
            }
            let entry = &self.entries[i];
            if entry.episode.season == season {
                r.push(entry.episode.clone());
            }
            proof {
                assert(r@ =~= spec_season_entries(self@.take(i + 1), season).map_values(
                    |e: CatalogEntry| e.episode,
                ));
            }
            i += 1;
        }
        proof {
            assert(self@.take(n as int) =~= self@);
        }
        r
    }

    /// How many episodes of the whole catalog are watchable at `now`.
    pub fn get_total_watchable_episodes(&self, now: i64) -> (r: usize)
        ensures
            r as nat == spec_watchable_entries(self@, now as int).len(),
    {
        let n = self.entries.len();
        let mut count: usize = 0;
        let mut i: usize = 0;
        proof {
            assert(self@.take(0int) =~= Seq::<CatalogEntry>::empty());
            reveal(Seq::filter);
        }
        while i < n
            invariant
                n == self@.len(),
                i <= n,
                count as nat == spec_watchable_entries(self@.take(i as int), now as int).len(),
                count <= i,
            decreases n - i,
        {
            proof {
                reveal(Seq::filter);
                assert(self@.take(i + 1).drop_last() =~= self@.take(i as int));
                assert(self@.take(i + 1).last() == self@[i as int]);
            }
            let entry = &self.entries[i];
            let watchable = match entry.airstamp_epoch {
                Some(t) => t <= now,
                None => false,
            };
            if watchable {
                count += 1;
            }
            i += 1;
        }
        proof {
            assert(self@.take(n as int) =~= self@);
        }
        count
    }

    /// Whether `episode` is watchable at `now`: nothing when it has no
    /// airstamp, else whether its release instant is not strictly in the
    /// future.  Two instants compare the same in every time zone, so the
    /// comparison is done on Unix seconds.  A malformed airstamp is a typed
    /// error, never an abort.
    pub fn is_episode_watchable(episode: &Episode, now: i64) -> (r: Result<
        Option<bool>,
        TimestampParseError,
    >)
        ensures
            episode.airstamp is None ==> r == Ok::<Option<bool>, TimestampParseError>(None),
            episode.airstamp matches Some(s) ==> match rfc3339_epoch(s@) {
                Some(t) => r == Ok::<Option<bool>, TimestampParseError>(Some(t <= now as int)),
                None => r is Err,
            },
    {
        match &episode.airstamp {
            None => Ok(None),
            Some(s) => {
                let t = parse_rfc3339_epoch(s.as_str())?;
                Ok(Some(t <= now))
            },
        }
    }

    /// The previous episode relative to `now` (see
    /// [`spec_previous_episode`] for the exact scan, including the abort on
    /// an undecidable successor).
    pub fn get_previous_episode(&self, now: i64) -> (r: Option<Episode>)
        ensures
            r == spec_previous_episode(self@, now as int),
    {
        let n = self.entries.len();
        if n == 0 {
            return None;
        }
        let mut i: usize = 0;
        proof {
            assert(self@.skip(0int) =~= self@);
        }
        while i + 1 < n
            invariant
                n == self@.len(),
                0 < n,
                i < n,
                spec_previous_episode(self@, now as int) == spec_previous_episode(
                    self@.skip(i as int),
                    now as int,
                ),
            decreases n - i,
        {
            proof {
                assert(self@.skip(i as int)[1] == self@[i + 1]);
                assert(self@.skip(i as int).drop_first() =~= self@.skip(i + 1));
            }
            let next = &self.entries[i + 1];
            match next.airstamp_epoch {
                None => {
                    return None;
                },
                Some(t) => {
                    if !(t <= now) {
                        return Some(self.entries[i].episode.clone());
                    }
                },
            }
            i += 1;
        }
        proof {
            assert(self@.skip(i as int).len() == 1);
            assert(self@.skip(i as int)[0] == self@[i as int]);
        }
        Some(self.entries[i].episode.clone())
    }

    /// The next episode relative to `now`: the first episode whose
    /// watchability resolves to exactly "not yet watchable".
    pub fn get_next_episode(&self, now: i64) -> (r: Option<Episode>)
        ensures
            match spec_next_entry(self@, now as int) {
                Some(e) => r == Some(e.episode),
                None => r is None,
            },
    {
        match self.next_entry_index(now) {
            Some(i) => Some(self.entries[i].episode.clone()),
            None => None,
        }
    }

    /// The next episode together with its release time; nothing when there
    /// is no next episode.  A next episode always carries an airstamp, since
    /// its watchability resolved.
    pub fn get_next_episode_and_time(&self, now: i64) -> (r: Option<(Episode, EpisodeReleaseTime)>)
        requires
            self.wf(),
        ensures
            match spec_next_entry(self@, now as int) {
                Some(e) => r matches Some(pair) && (pair.0 == e.episode
                    && (e.airstamp_epoch matches Some(t) && pair.1.spec_epoch() == t as int
                    && pair.1.wf())),
                None => r is None,
            },
    {
        match self.next_entry_index(now) {
            Some(i) => {
                let entry = &self.entries[i];
                match entry.airstamp_epoch {
                    Some(t) => Some((entry.episode.clone(), EpisodeReleaseTime::new(t))),
                    None => None,
                }
            },
            None => None,
        }
    }

    fn count_season(&self, season: u32) -> (r: usize)
        ensures
            r as nat == spec_season_entries(self@, season).len(),
    {
        let n = self.entries.len();
        let mut count: usize = 0;
        let mut i: usize = 0;
        proof {
            assert(self@.take(0int) =~= Seq::<CatalogEntry>::empty());
            reveal(Seq::filter);
        }
        while i < n
            invariant
                n == self@.len(),
                i <= n,
                count as nat == spec_season_entries(self@.take(i as int), season).len(),
                count <= i,
            decreases n - i,
        {
            proof {
                reveal(Seq::filter);
                assert(self@.take(i + 1).drop_last() =~= self@.take(i as int));
                assert(self@.take(i + 1).last() == self@[i as int]);
            }
            if self.entries[i].episode.season == season {
                count += 1;
            }
            i += 1;
        }
        proof {
            assert(self@.take(n as int) =~= self@);
        }
        count
    }

    fn count_season_watchable(&self, season: u32, now: i64) -> (r: usize)
        ensures
            r as nat == spec_season_watchable_entries(self@, season, now as int).len(),
    {
        let n = self.entries.len();
        let mut count: usize = 0;
        let mut i: usize = 0;
        proof {
            assert(self@.take(0int) =~= Seq::<CatalogEntry>::empty());
            reveal(Seq::filter);
        }
        while i < n
            invariant
                n == self@.len(),
                i <= n,
                count as nat == spec_season_watchable_entries(
                    self@.take(i as int),
                    season,
                    now as int,
                ).len(),
                count <= i,
            decreases n - i,
        {
            proof {
                reveal(Seq::filter);
                assert(self@.take(i + 1).drop_last() =~= self@.take(i as int));
                assert(self@.take(i + 1).last() == self@[i as int]);
            }
            let entry = &self.entries[i];
            let watchable = match entry.airstamp_epoch {
                Some(t) => t <= now,
                None => false,
            };
            if entry.episode.season == season && watchable {
                count += 1;
            }
            i += 1;
        }
        proof {
            assert(self@.take(n as int) =~= self@);
        }
        count
    }

    fn distinct_seasons(&self) -> (r: Vec<u32>)
        ensures
            spec_sorted_strict(r@),
            forall|x: u32| #[trigger] r@.contains(x) <==> spec_has_season(self@, x),
    {
        let n = self.entries.len();
        let mut seasons: Vec<u32> = Vec::new();
        let mut i: usize = 0;
        while i < n
            invariant
                n == self@.len(),
                i <= n,
                spec_sorted_strict(seasons@),
                forall|x: u32| #[trigger] seasons@.contains(x) <==> spec_has_season(
                    self@.take(i as int),
                    x,
                ),
            decreases n - i,
        {
            let ghost pre = seasons@;
            insert_sorted(&mut seasons, self.entries[i].episode.season);
            proof {
                let value = self@[i as int].episode.season;
                assert forall|x: u32| #[trigger] seasons@.contains(x) implies spec_has_season(
                    self@.take(i + 1),
                    x,
                ) by {
                    if pre.contains(x) {
                        let j = choose|j: int|
                            0 <= j < i && (#[trigger] self@.take(i as int)[j]).episode.season == x;
                        assert(self@.take(i + 1)[j].episode.season == x);
                    } else {
                        assert(x == value);
                        assert(self@.take(i + 1)[i as int].episode.season == x);
                    }
                }
                assert forall|x: u32| spec_has_season(self@.take(i + 1), x)
                    implies #[trigger] seasons@.contains(x) by {
                    let j = choose|j: int|
                        0 <= j < i + 1 && (#[trigger] self@.take(i + 1)[j]).episode.season == x;
                    if j < i {
                        assert(self@.take(i as int)[j].episode.season == x);
                        assert(pre.contains(x));
                    } else {
                        assert(x == value);
                    }
                }
            }
            i += 1;
        }
        proof {
            assert(self@.take(n as int) =~= self@);
        }
        seasons
    }

    /// The distinct season numbers of the catalog, strictly ascending, each
    /// paired with its aggregate counts: all episodes, and those watchable
    /// at `now`.  The ascending, duplicate-free order holds whatever order
    /// the catalog's episodes arrived in.
    pub fn get_season_numbers_with_total_episode(&self, now: i64) -> (r: Vec<(u32, TotalEpisodes)>)
        ensures
            forall|a: int, b: int| 0 <= a < b < r@.len() ==> r@[a].0 < r@[b].0,
            forall|i: int| 0 <= i < r@.len() ==> spec_has_season(self@, (#[trigger] r@[i]).0),
            forall|x: u32|
                #[trigger] spec_has_season(self@, x) ==> exists|i: int|
                    0 <= i < r@.len() && (#[trigger] r@[i]).0 == x,
            forall|i: int|
                0 <= i < r@.len() ==> (#[trigger] r@[i]).1.spec_all() == spec_season_entries(
                    self@,
                    r@[i].0,
                ).len() && r@[i].1.spec_watchable() == spec_season_watchable_entries(
                    self@,
                    r@[i].0,
                    now as int,
                ).len(),
    {
        let seasons = self.distinct_seasons();
        let m = seasons.len();
        let mut r: Vec<(u32, TotalEpisodes)> = Vec::new();
        let mut i: usize = 0;
        while i < m
            invariant
                m == seasons@.len(),
                i <= m,
                r@.len() == i as int,
                forall|k: int| 0 <= k < i ==> (#[trigger] r@[k]).0 == seasons@[k],
                forall|k: int|
                    0 <= k < i ==> (#[trigger] r@[k]).1.spec_all() == spec_season_entries(
                        self@,
                        r@[k].0,
                    ).len() && r@[k].1.spec_watchable() == spec_season_watchable_entries(
                        self@,
                        r@[k].0,
                        now as int,
                    ).len(),
            decreases m - i,
        {
            let season = seasons[i];
            let all = self.count_season(season);
            let watchable = self.count_season_watchable(season, now);
            r.push((season, TotalEpisodes::new(all, watchable)));
            i += 1;
        }
        proof {
            assert(spec_sorted_strict(seasons@));
            assert forall|i2: int| 0 <= i2 < r@.len() implies spec_has_season(
                self@,
                (#[trigger] r@[i2]).0,
            ) by {
                assert(seasons@[i2] == r@[i2].0);
                assert(seasons@.contains(r@[i2].0));
            }
            assert forall|x: u32| #[trigger] spec_has_season(self@, x) implies exists|i2: int|
                0 <= i2 < r@.len() && (#[trigger] r@[i2]).0 == x by {
                assert(seasons@.contains(x));
                let k = choose|k: int| 0 <= k < seasons@.len() && seasons@[k] == x;
                assert(0 <= k < r@.len() && r@[k].0 == x);
            }
        }
        r
    }

    /// The distinct season numbers, strictly ascending, each paired with
    /// its count of episodes watchable at `now`.
    pub fn get_season_numbers_with_total_watchable_episode(&self, now: i64) -> (r: Vec<
        (u32, usize),
    >)
        ensures
            forall|a: int, b: int| 0 <= a < b < r@.len() ==> r@[a].0 < r@[b].0,
            forall|i: int| 0 <= i < r@.len() ==> spec_has_season(self@, (#[trigger] r@[i]).0),
            forall|x: u32|
                #[trigger] spec_has_season(self@, x) ==> exists|i: int|
                    0 <= i < r@.len() && (#[trigger] r@[i]).0 == x,
            forall|i: int|
                0 <= i < r@.len() ==> (#[trigger] r@[i]).1 as nat == spec_season_watchable_entries(
                    self@,
                    r@[i].0,
                    now as int,
                ).len(),
    {
        let seasons = self.distinct_seasons();
        let m = seasons.len();
        let mut r: Vec<(u32, usize)> = Vec::new();
        let mut i: usize = 0;
        while i < m
            invariant
                m == seasons@.len(),
                i <= m,
                r@.len() == i as int,
                forall|k: int| 0 <= k < i ==> (#[trigger] r@[k]).0 == seasons@[k],
                forall|k: int|
                    0 <= k < i ==> (#[trigger] r@[k]).1 as nat == spec_season_watchable_entries(
                        self@,
                        r@[k].0,
                        now as int,
                    ).len(),
            decreases m - i,
        {
            let season = seasons[i];
            let watchable = self.count_season_watchable(season, now);
            r.push((season, watchable));
            i += 1;
        }
        proof {
            assert forall|i2: int| 0 <= i2 < r@.len() implies spec_has_season(
                self@,
                (#[trigger] r@[i2]).0,
            ) by {
                assert(seasons@[i2] == r@[i2].0);
                assert(seasons@.contains(r@[i2].0));
            }
            assert forall|x: u32| #[trigger] spec_has_season(self@, x) implies exists|i2: int|
                0 <= i2 < r@.len() && (#[trigger] r@[i2]).0 == x by {
                assert(seasons@.contains(x));
                let k = choose|k: int| 0 <= k < seasons@.len() && seasons@[k] == x;
                assert(0 <= k < r@.len() && r@[k].0 == x);
            }
        }
        r
    }

    fn next_entry_index(&self, now: i64) -> (r: Option<usize>)
        ensures
            match r {
                Some(i) => i < self@.len() && spec_next_entry(self@, now as int) == Some(
                    self@[i as int],
                ) && spec_entry_watchable(self@[i as int], now as int) == Some(false),
                None => spec_next_entry(self@, now as int) is None,
            },
    {
        let n = self.entries.len();
        let mut i: usize = 0;
        proof {
            assert(self@.skip(0int) =~= self@);
        }
        while i < n
            invariant
                n == self@.len(),
                i <= n,
                spec_next_entry(self@, now as int) == spec_next_entry(
                    self@.skip(i as int),
                    now as int,
                ),
            decreases n - i,
        {
            proof {
                assert(self@.skip(i as int)[0] == self@[i as int]);
                assert(self@.skip(i as int).drop_first() =~= self@.skip(i + 1));
            }
            let entry = &self.entries[i];
            let not_yet = match entry.airstamp_epoch {
                Some(t) => !(t <= now),
                None => false,
            };
            if not_yet {
                return Some(i);
            }
            i += 1;
        }
        proof {
            assert(self@.skip(n as int) =~= Seq::<CatalogEntry>::empty());
        }
        None
    }
}

/// The remaining time until `episode` releases, relative to `now`: nothing
/// when it has no airstamp or is not strictly in the future, the coarsest
/// non-zero unit otherwise.  Delegates to the one remaining-time routine
/// that the release-time value also uses.
pub fn get_release_remaining_time(episode: &Episode, now: i64) -> (r: Result<
    Option<String>,
    TimestampParseError,
>)
    requires
        epoch_in_range(now as int),
    ensures
        episode.airstamp is None ==> (r matches Ok(o) && o is None),
        episode.airstamp matches Some(s) ==> match rfc3339_epoch(s@) {
            Some(t) => r matches Ok(o) && ((o is Some <==> spec_remaining_text(t, now as int)
                is Some) && (o matches Some(text) ==> Some(text@) == spec_remaining_text(
                t,
                now as int,
            ))),
            None => r is Err,
        },
{
    match &episode.airstamp {
        None => Ok(None),
        Some(s) => {
            let t = parse_rfc3339_epoch(s.as_str())?;
            Ok(remaining_time_text(t, now))
        },
    }
}

} // verus!
