//! The durable watch-tracking store: per-series watch-progress records and
//! their derived statistics.
//!
//! A record holds, per season, the set of watched episode numbers and an
//! optionally declared episode order (the expected count).  Mutations go
//! through a record copy and become durable when the copy is written back
//! into the store; the store is the in-memory image of the persistence
//! backend, constructed explicitly and handed to every call site instead of
//! living as ambient global state.  A season record persists until it is
//! removed explicitly, even when its watched set drops back to empty.

use vstd::multiset::Multiset;
use vstd::prelude::*;

use crate::sorted::{
    contains_sorted, insert_sorted, lemma_sorted_unique_by_members, remove_sorted,
    spec_sorted_strict,
};

verus! {

/// The mathematical content of one season record.
#[verifier::ext_equal]
pub struct SeasonView {
    pub number: u32,
    pub watched: Seq<u32>,
    pub episode_order: Option<u32>,
}

/// The watched numbers are kept strictly ascending, so they form a set.
pub open spec fn season_view_wf(v: SeasonView) -> bool {
    spec_sorted_strict(v.watched)
}

/// One season's watch progress: its number, the set of watched episode
/// numbers, and the optionally declared episode order.
#[derive(Debug)]
pub struct Season {
    number: u32,
    watched: Vec<u32>,
    episode_order: Option<u32>,
}

impl View for Season {
    type V = SeasonView;

    closed spec fn view(&self) -> SeasonView {
        SeasonView { number: self.number, watched: self.watched@, episode_order: self.episode_order }
    }
}

impl Clone for Season {
    fn clone(&self) -> (r: Self)
        ensures
            r@ == self@,
    {
        let watched = clone_u32_vec(&self.watched);
        let r = Season { number: self.number, watched, episode_order: self.episode_order };
        proof {
            assert(r@ =~= self@);
        }
        r
    }
}

fn clone_u32_vec(v: &Vec<u32>) -> (r: Vec<u32>)
    ensures
        r@ == v@,
{
    let n = v.len();
    let mut r: Vec<u32> = Vec::new();
    let mut i: usize = 0;
    while i < n
        invariant
            n == v@.len(),
            i <= n,
            r@ == v@.take(i as int),
        decreases n - i,
    {
        r.push(v[i]);
        proof {
            assert(r@ =~= v@.take(i + 1));
        }
        i += 1;
    }
    proof {
        assert(v@.take(n as int) =~= v@);
    }
    r
}

/// What tracking episode `n` leaves behind: the watched set gains `n` and
/// nothing else changes.
pub open spec fn track_post(pre: SeasonView, post: SeasonView, n: u32) -> bool {
    &&& season_view_wf(post)
    &&& post.number == pre.number
    &&& post.episode_order == pre.episode_order
    &&& forall|x: u32| post.watched.contains(x) <==> (pre.watched.contains(x) || x == n)
    &&& post.watched.len() == pre.watched.len() + (if pre.watched.contains(n) {
        0int
    } else {
        1int
    })
}

/// What untracking episode `n` leaves behind: the watched set loses `n` and
/// nothing else changes.
pub open spec fn untrack_post(pre: SeasonView, post: SeasonView, n: u32) -> bool {
    &&& season_view_wf(post)
    &&& post.number == pre.number
    &&& post.episode_order == pre.episode_order
    &&& forall|x: u32| post.watched.contains(x) <==> (pre.watched.contains(x) && x != n)
    &&& post.watched.len() == pre.watched.len() - (if pre.watched.contains(n) {
        1int
    } else {
        0int
    })
}

/// A season is fully tracked when its watched-episode count equals its
/// declared episode order.
pub open spec fn spec_fully_tracked(v: SeasonView) -> bool {
    v.episode_order matches Some(order) && v.watched.len() == order as nat
}

impl Season {
    /// The watched numbers are kept strictly ascending, so they form a set.
    pub open spec fn wf(&self) -> bool {
        season_view_wf(self@)
    }

    /// A fresh season record: nothing watched, no declared order.  Adding a
    /// season does not pre-populate watched episodes.
    pub fn new(number: u32) -> (r: Self)
        ensures
            r@ == (SeasonView { number, watched: Seq::<u32>::empty(), episode_order: None }),
            r.wf(),
    {
        let r = Season { number, watched: Vec::new(), episode_order: None };
        proof {
            assert(r@ =~= (SeasonView {
                number,
                watched: Seq::<u32>::empty(),
                episode_order: None,
            }));
        }
        r
    }

    /// The season's number.
    pub fn number(&self) -> (r: u32)
        ensures
            r == self@.number,
    {
        self.number
    }

    /// The declared episode order, when one is known.
    pub fn episode_order(&self) -> (r: Option<u32>)
        ensures
            r == self@.episode_order,
    {
        self.episode_order
    }

    /// Declares (or withdraws) the expected episode count.
    pub fn set_episode_order(&mut self, order: Option<u32>)
        ensures
            final(self)@ == (SeasonView { episode_order: order, ..old(self)@ }),
    {
        self.episode_order = order;
        proof {
            assert(final(self)@ =~= (SeasonView { episode_order: order, ..old(self)@ }));
        }
    }

    /// Records episode `n` as watched; tracking an already tracked episode
    /// changes nothing (idempotent membership toggle).
    pub fn track_episode(&mut self, episode_number: u32)
        requires
            old(self).wf(),
        ensures
            track_post(old(self)@, final(self)@, episode_number),
    {
        insert_sorted(&mut self.watched, episode_number);
    }

    /// Removes episode `n` from the watched set; untracking a non-member is
    /// a no-op.
    pub fn untrack_episode(&mut self, episode_number: u32)
        requires
            old(self).wf(),
        ensures
            untrack_post(old(self)@, final(self)@, episode_number),
    {
        remove_sorted(&mut self.watched, episode_number);
    }

    /// Whether episode `n` is recorded as watched.
    pub fn is_episode_watched(&self, episode_number: u32) -> (r: bool)
        ensures
            r == self@.watched.contains(episode_number),
    {
        contains_sorted(&self.watched, episode_number)
    }

    /// How many episodes of this season are recorded as watched.
    pub fn episodes_watched(&self) -> (r: usize)
        ensures
            r as nat == self@.watched.len(),
    {
        self.watched.len()
    }

    /// The watched episode numbers, ascending.
    pub fn watched_episodes(&self) -> (r: Vec<u32>)
        ensures
            r@ == self@.watched,
    {
        clone_u32_vec(&self.watched)
    }

    /// Whether the season is fully tracked: the watched-episode count
    /// equals the declared episode order.
    pub fn is_fully_tracked(&self) -> (r: bool)
        ensures
            r == spec_fully_tracked(self@),
    {
        match self.episode_order {
            Some(order) => {
                let watched = self.watched.len();
                watched as u64 == order as u64
            },
            None => false,
        }
    }

    /// Records episodes 1..=order as watched, on top of whatever is already
    /// watched (the whole-season checkbox).
    pub fn track_range(&mut self, episode_order: u32)
        requires
            old(self).wf(),
        ensures
            final(self).wf(),
            final(self)@.number == old(self)@.number,
            final(self)@.episode_order == old(self)@.episode_order,
            forall|x: u32|
                final(self)@.watched.contains(x) <==> (old(self)@.watched.contains(x) || 1 <= x
                    <= episode_order),
    {
        let mut k: u64 = 1;
        while k <= episode_order as u64
            invariant
                1 <= k,
                k <= episode_order as u64 + 1,
                self.wf(),
                self@.number == old(self)@.number,
                self@.episode_order == old(self)@.episode_order,
                forall|x: u32|
                    self@.watched.contains(x) <==> (old(self)@.watched.contains(x) || (1 <= x
                        < k)),
            decreases episode_order as u64 + 1 - k,
        {
            insert_sorted(&mut self.watched, k as u32);
            k += 1;
        }
    }
}

/// Law: `track_episode` is idempotent — tracking the same episode twice
/// leaves exactly the record that tracking it once left.
pub proof fn lemma_track_episode_idempotent(s0: SeasonView, s1: SeasonView, s2: SeasonView, n: u32)
    requires
        track_post(s0, s1, n),
        track_post(s1, s2, n),
    ensures
        s2 == s1,
{
    lemma_sorted_unique_by_members(s2.watched, s1.watched);
    assert(s2 =~= s1);
}

/// Law: `untrack_episode` of a non-member is a no-op — the record is
/// exactly what it was.
pub proof fn lemma_untrack_nonmember_noop(s0: SeasonView, s1: SeasonView, n: u32)
    requires
        season_view_wf(s0),
        untrack_post(s0, s1, n),
        !s0.watched.contains(n),
    ensures
        s1 == s0,
{
    lemma_sorted_unique_by_members(s1.watched, s0.watched);
    assert(s1 =~= s0);
}

/// Law: the watched-episode count equals the declared order exactly when
/// the season is reported fully tracked.
pub proof fn lemma_fully_tracked_iff_count(v: SeasonView, order: u32)
    requires
        v.episode_order == Some(order),
    ensures
        spec_fully_tracked(v) <==> v.watched.len() == order as nat,
{
}


/// The mathematical content of one series record.
#[verifier::ext_equal]
pub struct SeriesView {
    pub id: u32,
    pub name: Seq<char>,
    pub seasons: Seq<SeasonView>,
}

/// The season of `seasons` numbered `n`, if any (well-formed records hold
/// at most one).
pub open spec fn spec_find_season(seasons: Seq<SeasonView>, n: u32) -> Option<SeasonView>
    decreases seasons.len(),
{
    if seasons.len() == 0 {
        None
    } else if seasons[0].number == n {
        Some(seasons[0])
    } else {
        spec_find_season(seasons.drop_first(), n)
    }
}

/// Season numbers are unique and each season is well formed.
pub open spec fn series_view_wf(v: SeriesView) -> bool {
    &&& forall|i: int, j: int|
        0 <= i < j < v.seasons.len() ==> v.seasons[i].number != v.seasons[j].number
    &&& forall|i: int| 0 <= i < v.seasons.len() ==> season_view_wf(#[trigger] v.seasons[i])
}

/// Episode `number` of season `season` is recorded as watched in `v`.
pub open spec fn spec_episode_watched(v: SeriesView, season: u32, number: u32) -> bool {
    spec_find_season(v.seasons, season) matches Some(s) && s.watched.contains(number)
}

proof fn lemma_find_season_at(seasons: Seq<SeasonView>, n: u32, i: int)
    requires
        0 <= i < seasons.len(),
        seasons[i].number == n,
        forall|j: int| 0 <= j < i ==> seasons[j].number != n,
    ensures
        spec_find_season(seasons, n) == Some(seasons[i]),
    decreases i,
{
    if i > 0 {
        lemma_find_season_at(seasons.drop_first(), n, i - 1);
    }
}

proof fn lemma_find_season_absent(seasons: Seq<SeasonView>, n: u32)
    requires
        forall|j: int| 0 <= j < seasons.len() ==> seasons[j].number != n,
    ensures
        spec_find_season(seasons, n) is None,
    decreases seasons.len(),
{
    if seasons.len() > 0 {
        lemma_find_season_absent(seasons.drop_first(), n);
    }
}

proof fn lemma_find_season_update_other(seasons: Seq<SeasonView>, i: int, sv: SeasonView, x: u32)
    requires
        0 <= i < seasons.len(),
        x != sv.number,
        x != seasons[i].number,
    ensures
        spec_find_season(seasons.update(i, sv), x) == spec_find_season(seasons, x),
    decreases i,
{
    if i == 0 {
        assert(seasons.update(0, sv).drop_first() =~= seasons.drop_first());
    } else {
        assert(seasons.update(i, sv).drop_first() =~= seasons.drop_first().update(i - 1, sv));
        lemma_find_season_update_other(seasons.drop_first(), i - 1, sv, x);
    }
}

proof fn lemma_find_season_push_other(seasons: Seq<SeasonView>, sv: SeasonView, x: u32)
    requires
        x != sv.number,
    ensures
        spec_find_season(seasons.push(sv), x) == spec_find_season(seasons, x),
    decreases seasons.len(),
{
    if seasons.len() == 0 {
        assert(seasons.push(sv)[0] == sv);
        let empty = Seq::<SeasonView>::empty();
        assert(seasons.push(sv).drop_first() =~= empty);
        assert(spec_find_season(empty, x) is None);
    } else {
        assert(seasons.push(sv)[0] == seasons[0]);
        assert(seasons.push(sv).drop_first() =~= seasons.drop_first().push(sv));
        lemma_find_season_push_other(seasons.drop_first(), sv, x);
    }
}

proof fn lemma_find_season_remove_other(seasons: Seq<SeasonView>, i: int, x: u32)
    requires
        0 <= i < seasons.len(),
        x != seasons[i].number,
    ensures
        spec_find_season(seasons.remove(i), x) == spec_find_season(seasons, x),
    decreases i,
{
    if i == 0 {
        assert(seasons.remove(0) =~= seasons.drop_first());
    } else {
        assert(seasons.remove(i).drop_first() =~= seasons.drop_first().remove(i - 1));
        assert(seasons.remove(i)[0] == seasons[0]);
        lemma_find_season_remove_other(seasons.drop_first(), i - 1, x);
    }
}

/// What recording one watched episode leaves behind: the season exists
/// (created empty first when absent), its watched set gains the number, all
/// else is unchanged, and `newly_added` reports whether the set grew.
pub open spec fn add_episode_post(
    pre: SeriesView,
    post: SeriesView,
    season: u32,
    number: u32,
    newly_added: bool,
) -> bool {
    &&& series_view_wf(post)
    &&& post.id == pre.id
    &&& post.name == pre.name
    &&& newly_added == !spec_episode_watched(pre, season, number)
    &&& spec_find_season(post.seasons, season) matches Some(s2) && ((forall|x: u32|
        s2.watched.contains(x) <==> (spec_watched_in(pre, season, x) || x == number))
        && s2.episode_order == (match spec_find_season(pre.seasons, season) {
        Some(s1) => s1.episode_order,
        None => None,
    }) && s2.number == season)
    &&& forall|x: u32|
        x != season ==> spec_find_season(post.seasons, x) == spec_find_season(pre.seasons, x)
}

/// Episode `x` of season `season` is watched in `v`; an absent season has
/// nothing watched.
pub open spec fn spec_watched_in(v: SeriesView, season: u32, x: u32) -> bool {
    match spec_find_season(v.seasons, season) {
        Some(s) => s.watched.contains(x),
        None => false,
    }
}

/// One series' watch-progress record: id, name, and its season records.
#[derive(Debug)]
pub struct Series {
    id: u32,
    name: String,
    seasons: Vec<Season>,
}

impl View for Series {
    type V = SeriesView;

    closed spec fn view(&self) -> SeriesView {
        SeriesView {
            id: self.id,
            name: self.name@,
            seasons: self.seasons@.map_values(|s: Season| s@),
        }
    }
}

impl Clone for Series {
    fn clone(&self) -> (r: Self)
        ensures
            r@ == self@,
    {
        let seasons = self.seasons.clone();
        proof {
            assert forall|i: int| 0 <= i < seasons@.len() implies (#[trigger] seasons@[i])@
                == self.seasons@[i]@ by {
                assert(cloned::<Season>(self.seasons@[i], seasons@[i]));
            }
            assert(seasons@.map_values(|s: Season| s@) =~= self.seasons@.map_values(
                |s: Season| s@,
            ));
        }
        let r = Series { id: self.id, name: self.name.clone(), seasons };
        proof {
            assert(r@ =~= self@);
        }
        r
    }
}

impl Series {
    /// Season numbers are unique and each season record is well formed.
    pub open spec fn wf(&self) -> bool {
        series_view_wf(self@)
    }

    /// The season numbered `n`, if the record has one.
    pub open spec fn spec_get_season(&self, n: u32) -> Option<SeasonView> {
        spec_find_season(self@.seasons, n)
    }

    /// A fresh record for one series, with no seasons yet; created on the
    /// first track action.
    pub fn new(name: String, id: u32) -> (r: Self)
        ensures
            r@ == (SeriesView { id, name: name@, seasons: Seq::<SeasonView>::empty() }),
            r.wf(),
    {
        let r = Series { id, name, seasons: Vec::new() };
        proof {
            assert(r@.seasons =~= Seq::<SeasonView>::empty());
            assert(r@ =~= (SeriesView { id, name: r.name@, seasons: Seq::<SeasonView>::empty() }));
        }
        r
    }

    /// The series id.
    pub fn id(&self) -> (r: u32)
        ensures
            r == self@.id,
    {
        self.id
    }

    /// The series name.
    pub fn name(&self) -> (r: &str)
        ensures
            r@ == self@.name,
    {
        self.name.as_str()
    }

    fn season_index(&self, n: u32) -> (r: Option<usize>)
        ensures
            match r {
                Some(i) => i < self@.seasons.len() && self@.seasons[i as int].number == n && (
                forall|j: int| 0 <= j < i ==> self@.seasons[j].number != n),
                None => forall|j: int| 0 <= j < self@.seasons.len() ==> self@.seasons[j].number != n,
            },
    {
        let m = self.seasons.len();
        let mut i: usize = 0;
        while i < m
            invariant
                m == self@.seasons.len(),
                m == self.seasons@.len(),
                i <= m,
                forall|j: int| 0 <= j < i ==> self@.seasons[j].number != n,
            decreases m - i,
        {
            proof {
                assert(self@.seasons[i as int] == self.seasons@[i as int]@);
            }
            if self.seasons[i].number() == n {
                return Some(i);
            }
            i += 1;
        }
        None
    }

    /// The season records, in insertion order; the caller receives
    /// copies, as the persistence backend serializes them.
    pub fn get_seasons(&self) -> (r: Vec<Season>)
        ensures
            r@.map_values(|s: Season| s@) == self@.seasons,
    {
        let m = self.seasons.len();
        let mut r: Vec<Season> = Vec::new();
        let mut i: usize = 0;
        while i < m
            invariant
                m == self.seasons@.len(),
                i <= m,
                r@.len() == i as int,
                forall|k: int| 0 <= k < i ==> (#[trigger] r@[k])@ == self.seasons@[k]@,
            decreases m - i,
        {
            let copy = self.seasons[i].clone();
            r.push(copy);
            i += 1;
        }
        proof {
            assert(r@.map_values(|s: Season| s@) =~= self@.seasons);
        }
        r
    }

    /// The season numbered `n`, if the record has one.
    pub fn get_season(&self, n: u32) -> (r: Option<&Season>)
        ensures
            match r {
                Some(season) => self.spec_get_season(n) == Some(season@),
                None => self.spec_get_season(n) is None,
            },
    {
        match self.season_index(n) {
            Some(i) => {
                proof {
                    lemma_find_season_at(self@.seasons, n, i as int);
                }
                Some(&self.seasons[i])
            },
            None => {
                proof {
                    lemma_find_season_absent(self@.seasons, n);
                }
                None
            },
        }
    }

    /// Adds an (empty) season record numbered `n`; a present one is left
    /// alone.  Adding a season does not pre-populate watched episodes.
    pub fn add_season(&mut self, n: u32)
        requires
            old(self).wf(),
        ensures
            final(self).wf(),
            final(self)@.id == old(self)@.id,
            final(self)@.name == old(self)@.name,
            final(self).spec_get_season(n) == (match old(self).spec_get_season(n) {
                Some(s) => Some(s),
                None => Some(
                    SeasonView { number: n, watched: Seq::<u32>::empty(), episode_order: None },
                ),
            }),
            forall|x: u32|
                x != n ==> final(self).spec_get_season(x) == old(self).spec_get_season(x),
    {
        match self.season_index(n) {
            Some(i) => {
                proof {
                    lemma_find_season_at(self@.seasons, n, i as int);
                }
            },
            None => {
                let ghost pre = self@.seasons;
                self.seasons.push(Season::new(n));
                proof {
                    let post = self@.seasons;
                    assert(post =~= pre.push(
                        SeasonView { number: n, watched: Seq::<u32>::empty(), episode_order: None },
                    ));
                    lemma_find_season_at(post, n, pre.len() as int);
                    assert forall|x: u32| x != n implies spec_find_season(post, x)
                        == spec_find_season(pre, x) by {
                        lemma_find_season_push_other(pre, post[pre.len() as int], x);
                    }
                    lemma_find_season_absent(pre, n);
                }
            },
        }
    }

    /// Removes the season record numbered `n` unconditionally, resetting
    /// the season to untracked; season removal is explicit only.
    pub fn remove_season(&mut self, n: u32)
        requires
            old(self).wf(),
        ensures
            final(self).wf(),
            final(self)@.id == old(self)@.id,
            final(self)@.name == old(self)@.name,
            final(self).spec_get_season(n) is None,
            forall|x: u32|
                x != n ==> final(self).spec_get_season(x) == old(self).spec_get_season(x),
    {
        match self.season_index(n) {
            Some(i) => {
                let ghost pre = self@.seasons;
                self.seasons.remove(i);
                proof {
                    let post = self@.seasons;
                    assert(post =~= pre.remove(i as int));
                    assert forall|j: int| 0 <= j < post.len() implies post[j].number != n by {
                        if j >= i {
                            assert(post[j] == pre[j + 1]);
                        }
                    }
                    lemma_find_season_absent(post, n);
                    assert forall|x: u32| x != n implies spec_find_season(post, x)
                        == spec_find_season(pre, x) by {
                        lemma_find_season_remove_other(pre, i as int, x);
                    }
                }
            },
            None => {
                proof {
                    lemma_find_season_absent(self@.seasons, n);
                }
            },
        }
    }
}



impl Series {
    fn track_new_episode(&mut self, season_number: u32, episode_number: u32) -> (newly_added:
        bool)
        requires
            old(self).wf(),
        ensures
            add_episode_post(old(self)@, final(self)@, season_number, episode_number, newly_added),
    {
        match self.season_index(season_number) {
            Some(i) => {
                proof {
                    lemma_find_season_at(self@.seasons, season_number, i as int);
                }
                let ghost pre = self@.seasons;
                let mut season = self.seasons.remove(i);
                let newly_added = !season.is_episode_watched(episode_number);
                season.track_episode(episode_number);
                let ghost sv = season@;
                self.seasons.insert(i, season);
                proof {
                    let post = self@.seasons;
                    assert(post =~= pre.update(i as int, sv));
                    lemma_find_season_at(post, season_number, i as int);
                    assert forall|x: u32| x != season_number implies spec_find_season(post, x)
                        == spec_find_season(pre, x) by {
                        lemma_find_season_update_other(pre, i as int, sv, x);
                    }
                }
                newly_added
            },
            None => {
                proof {
                    lemma_find_season_absent(self@.seasons, season_number);
                }
                let ghost pre = self@.seasons;
                let mut season = Season::new(season_number);
                season.track_episode(episode_number);
                let ghost sv = season@;
                self.seasons.push(season);
                proof {
                    let post = self@.seasons;
                    assert(post =~= pre.push(sv));
                    lemma_find_season_at(post, season_number, pre.len() as int);
                    assert forall|x: u32| x != season_number implies spec_find_season(post, x)
                        == spec_find_season(pre, x) by {
                        lemma_find_season_push_other(pre, sv, x);
                    }
                }
                true
            },
        }
    }

    /// Records one episode as watched without reporting whether it was new;
    /// used for low-latency optimistic marking.  A following write-back to
    /// the store is still required for durability.
    pub fn add_episode_unchecked(&mut self, season_number: u32, episode_number: u32)
        requires
            old(self).wf(),
        ensures
            exists|newly_added: bool|
                add_episode_post(
                    old(self)@,
                    final(self)@,
                    season_number,
                    episode_number,
                    newly_added,
                ),
    {
        let newly_added = self.track_new_episode(season_number, episode_number);
        proof {
            assert(add_episode_post(
                old(self)@,
                final(self)@,
                season_number,
                episode_number,
                newly_added,
            ));
        }
    }

    /// Removes one episode from its season's watched set (the rollback of
    /// [`Series::add_episode`]); with no such season the record is
    /// untouched.
    pub fn remove_episode(&mut self, season_number: u32, episode_number: u32)
        requires
            old(self).wf(),
        ensures
            final(self).wf(),
            final(self)@.id == old(self)@.id,
            final(self)@.name == old(self)@.name,
            forall|x: u32|
                x != season_number ==> final(self).spec_get_season(x) == old(self).spec_get_season(
                    x,
                ),
            match old(self).spec_get_season(season_number) {
                Some(s1) => final(self).spec_get_season(season_number) matches Some(s2)
                    && untrack_post(s1, s2, episode_number),
                None => final(self)@ == old(self)@,
            },
    {
        match self.season_index(season_number) {
            Some(i) => {
                proof {
                    lemma_find_season_at(self@.seasons, season_number, i as int);
                }
                let ghost pre = self@.seasons;
                let mut season = self.seasons.remove(i);
                season.untrack_episode(episode_number);
                let ghost sv = season@;
                self.seasons.insert(i, season);
                proof {
                    let post = self@.seasons;
                    assert(post =~= pre.update(i as int, sv));
                    lemma_find_season_at(post, season_number, i as int);
                    assert forall|x: u32| x != season_number implies spec_find_season(post, x)
                        == spec_find_season(pre, x) by {
                        lemma_find_season_update_other(pre, i as int, sv, x);
                    }
                }
            },
            None => {
                proof {
                    lemma_find_season_absent(self@.seasons, season_number);
                }
            },
        }
    }

    /// Declares the expected episode count of one season; with no such
    /// season the record is untouched.
    pub fn declare_episode_order(&mut self, season_number: u32, order: Option<u32>)
        requires
            old(self).wf(),
        ensures
            final(self).wf(),
            final(self)@.id == old(self)@.id,
            final(self)@.name == old(self)@.name,
            forall|x: u32|
                x != season_number ==> final(self).spec_get_season(x) == old(self).spec_get_season(
                    x,
                ),
            match old(self).spec_get_season(season_number) {
                Some(s1) => final(self).spec_get_season(season_number) == Some(
                    SeasonView { episode_order: order, ..s1 },
                ),
                None => final(self)@ == old(self)@,
            },
    {
        match self.season_index(season_number) {
            Some(i) => {
                proof {
                    lemma_find_season_at(self@.seasons, season_number, i as int);
                }
                let ghost pre = self@.seasons;
                let mut season = self.seasons.remove(i);
                season.set_episode_order(order);
                let ghost sv = season@;
                self.seasons.insert(i, season);
                proof {
                    let post = self@.seasons;
                    assert(post =~= pre.update(i as int, sv));
                    lemma_find_season_at(post, season_number, i as int);
                    assert forall|x: u32| x != season_number implies spec_find_season(post, x)
                        == spec_find_season(pre, x) by {
                        lemma_find_season_update_other(pre, i as int, sv, x);
                    }
                }
            },
            None => {
                proof {
                    lemma_find_season_absent(self@.seasons, season_number);
                }
            },
        }
    }

    /// One episode checkbox: untracks a watched episode, tracks an
    /// unwatched one, and creates the season record first when absent.
    pub fn toggle_episode_tracking(&mut self, season_number: u32, episode_number: u32)
        requires
            old(self).wf(),
        ensures
            final(self).wf(),
            final(self)@.id == old(self)@.id,
            final(self)@.name == old(self)@.name,
            forall|x: u32|
                x != season_number ==> final(self).spec_get_season(x) == old(self).spec_get_season(
                    x,
                ),
            match old(self).spec_get_season(season_number) {
                Some(s1) => final(self).spec_get_season(season_number) matches Some(s2) && (if s1
                    .watched.contains(episode_number) {
                    untrack_post(s1, s2, episode_number)
                } else {
                    track_post(s1, s2, episode_number)
                }),
                None => final(self).spec_get_season(season_number) matches Some(s2) && track_post(
                    (SeasonView { number: season_number, watched: Seq::<u32>::empty(), episode_order: None }),
                    s2,
                    episode_number,
                ),
            },
    {
        match self.season_index(season_number) {
            Some(i) => {
                proof {
                    lemma_find_season_at(self@.seasons, season_number, i as int);
                }
                let ghost pre = self@.seasons;
                let mut season = self.seasons.remove(i);
                if season.is_episode_watched(episode_number) {
                    season.untrack_episode(episode_number);
                } else {
                    season.track_episode(episode_number);
                }
                let ghost sv = season@;
                self.seasons.insert(i, season);
                proof {
                    let post = self@.seasons;
                    assert(post =~= pre.update(i as int, sv));
                    lemma_find_season_at(post, season_number, i as int);
                    assert forall|x: u32| x != season_number implies spec_find_season(post, x)
                        == spec_find_season(pre, x) by {
                        lemma_find_season_update_other(pre, i as int, sv, x);
                    }
                }
            },
            None => {
                proof {
                    lemma_find_season_absent(self@.seasons, season_number);
                }
                let ghost pre = self@.seasons;
                let mut season = Season::new(season_number);
                season.track_episode(episode_number);
                let ghost sv = season@;
                self.seasons.push(season);
                proof {
                    let post = self@.seasons;
                    assert(post =~= pre.push(sv));
                    lemma_find_season_at(post, season_number, pre.len() as int);
                    assert forall|x: u32| x != season_number implies spec_find_season(post, x)
                        == spec_find_season(pre, x) by {
                        lemma_find_season_push_other(pre, sv, x);
                    }
                }
            },
        }
    }

    /// The whole-season checkbox: with the season partially tracked (or
    /// absent) every episode 1..=order is tracked; with exactly `order`
    /// episodes watched the season record is removed, resetting it to
    /// untracked.
    pub fn toggle_season_tracking(&mut self, season_number: u32, episode_order: u32)
        requires
            old(self).wf(),
        ensures
            final(self).wf(),
            final(self)@.id == old(self)@.id,
            final(self)@.name == old(self)@.name,
            forall|x: u32|
                x != season_number ==> final(self).spec_get_season(x) == old(self).spec_get_season(
                    x,
                ),
            match old(self).spec_get_season(season_number) {
                Some(s1) => if s1.watched.len() == episode_order as nat {
                    final(self).spec_get_season(season_number) is None
                } else {
                    final(self).spec_get_season(season_number) matches Some(s2) && (s2.number
                        == season_number && s2.episode_order == s1.episode_order && forall|x: u32|
                        s2.watched.contains(x) <==> (s1.watched.contains(x) || 1 <= x
                            <= episode_order))
                },
                None => final(self).spec_get_season(season_number) matches Some(s2) && (s2.number
                    == season_number && s2.episode_order is None && forall|x: u32|
                    s2.watched.contains(x) <==> 1 <= x <= episode_order),
            },
    {
        match self.season_index(season_number) {
            Some(i) => {
                proof {
                    lemma_find_season_at(self@.seasons, season_number, i as int);
                }
                let watched = self.seasons[i].episodes_watched();
                if watched as u64 != episode_order as u64 {
                    let ghost pre = self@.seasons;
                    let mut season = self.seasons.remove(i);
                    season.track_range(episode_order);
                    let ghost sv = season@;
                    self.seasons.insert(i, season);
                    proof {
                        let post = self@.seasons;
                        assert(post =~= pre.update(i as int, sv));
                        lemma_find_season_at(post, season_number, i as int);
                        assert forall|x: u32| x != season_number implies spec_find_season(post, x)
                            == spec_find_season(pre, x) by {
                            lemma_find_season_update_other(pre, i as int, sv, x);
                        }
                    }
                } else {
                    self.remove_season(season_number);
                }
            },
            None => {
                proof {
                    lemma_find_season_absent(self@.seasons, season_number);
                }
                let ghost pre = self@.seasons;
                let mut season = Season::new(season_number);
                season.track_range(episode_order);
                let ghost sv = season@;
                self.seasons.push(season);
                proof {
                    let post = self@.seasons;
                    assert(post =~= pre.push(sv));
                    lemma_find_season_at(post, season_number, pre.len() as int);
                    assert forall|x: u32| x != season_number implies spec_find_season(post, x)
                        == spec_find_season(pre, x) by {
                        lemma_find_season_push_other(pre, sv, x);
                    }
                }
            },
        }
    }
}

/// Law: `add_episode` reports "newly added" exactly on the first call — an
/// immediate repeat for the same episode reports nothing new.
pub proof fn lemma_add_episode_newly_added_once(
    v0: SeriesView,
    v1: SeriesView,
    v2: SeriesView,
    season: u32,
    number: u32,
    first: bool,
    second: bool,
)
    requires
        add_episode_post(v0, v1, season, number, first),
        add_episode_post(v1, v2, season, number, second),
    ensures
        first == !spec_episode_watched(v0, season, number),
        !second,
{
}


/// The series of `all` with the given id, if any (a well-formed store holds
/// at most one).
pub open spec fn spec_find_series(all: Seq<SeriesView>, id: u32) -> Option<SeriesView>
    decreases all.len(),
{
    if all.len() == 0 {
        None
    } else if all[0].id == id {
        Some(all[0])
    } else {
        spec_find_series(all.drop_first(), id)
    }
}

/// Series ids are unique and each record is well formed.
pub open spec fn store_wf(all: Seq<SeriesView>) -> bool {
    &&& forall|i: int, j: int| 0 <= i < j < all.len() ==> all[i].id != all[j].id
    &&& forall|i: int| 0 <= i < all.len() ==> series_view_wf(#[trigger] all[i])
}

proof fn lemma_find_series_at(all: Seq<SeriesView>, id: u32, i: int)
    requires
        0 <= i < all.len(),
        all[i].id == id,
        forall|j: int| 0 <= j < i ==> all[j].id != id,
    ensures
        spec_find_series(all, id) == Some(all[i]),
    decreases i,
{
    if i > 0 {
        lemma_find_series_at(all.drop_first(), id, i - 1);
    }
}

proof fn lemma_find_series_absent(all: Seq<SeriesView>, id: u32)
    requires
        forall|j: int| 0 <= j < all.len() ==> all[j].id != id,
    ensures
        spec_find_series(all, id) is None,
    decreases all.len(),
{
    if all.len() > 0 {
        lemma_find_series_absent(all.drop_first(), id);
    }
}

proof fn lemma_find_series_update_other(all: Seq<SeriesView>, i: int, sv: SeriesView, x: u32)
    requires
        0 <= i < all.len(),
        x != sv.id,
        x != all[i].id,
    ensures
        spec_find_series(all.update(i, sv), x) == spec_find_series(all, x),
    decreases i,
{
    if i == 0 {
        assert(all.update(0, sv).drop_first() =~= all.drop_first());
    } else {
        assert(all.update(i, sv).drop_first() =~= all.drop_first().update(i - 1, sv));
        lemma_find_series_update_other(all.drop_first(), i - 1, sv, x);
    }
}

proof fn lemma_find_series_push_other(all: Seq<SeriesView>, sv: SeriesView, x: u32)
    requires
        x != sv.id,
    ensures
        spec_find_series(all.push(sv), x) == spec_find_series(all, x),
    decreases all.len(),
{
    if all.len() == 0 {
        assert(all.push(sv)[0] == sv);
        let empty = Seq::<SeriesView>::empty();
        assert(all.push(sv).drop_first() =~= empty);
        assert(spec_find_series(empty, x) is None);
    } else {
        assert(all.push(sv)[0] == all[0]);
        assert(all.push(sv).drop_first() =~= all.drop_first().push(sv));
        lemma_find_series_push_other(all.drop_first(), sv, x);
    }
}

proof fn lemma_find_series_remove_other(all: Seq<SeriesView>, i: int, x: u32)
    requires
        0 <= i < all.len(),
        x != all[i].id,
    ensures
        spec_find_series(all.remove(i), x) == spec_find_series(all, x),
    decreases i,
{
    if i == 0 {
        assert(all.remove(0) =~= all.drop_first());
    } else {
        assert(all.remove(i).drop_first() =~= all.drop_first().remove(i - 1));
        assert(all.remove(i)[0] == all[0]);
        lemma_find_series_remove_other(all.drop_first(), i - 1, x);
    }
}

/// The watch-tracking store: the durable mapping from series id to series
/// record, held as an explicitly constructed handle.
pub struct WatchTrackingStore {
    series: Vec<Series>,
}

impl View for WatchTrackingStore {
    type V = Seq<SeriesView>;

    closed spec fn view(&self) -> Seq<SeriesView> {
        self.series@.map_values(|s: Series| s@)
    }
}

impl WatchTrackingStore {
    /// Series ids are unique and each record is well formed.
    pub open spec fn wf(&self) -> bool {
        store_wf(self@)
    }

    /// The record of the series with this id, if the store has one.
    pub open spec fn spec_get_series(&self, id: u32) -> Option<SeriesView> {
        spec_find_series(self@, id)
    }

    /// An empty store; records are created on the first track action and
    /// never pruned automatically.
    pub fn new() -> (r: Self)
        ensures
            r.wf(),
            forall|id: u32| r.spec_get_series(id) is None,
    {
        let r = WatchTrackingStore { series: Vec::new() };
        proof {
            assert(r@ =~= Seq::<SeriesView>::empty());
            assert forall|id: u32| r.spec_get_series(id) is None by {
                lemma_find_series_absent(r@, id);
            }
        }
        r
    }

    fn series_index(&self, id: u32) -> (r: Option<usize>)
        ensures
            match r {
                Some(i) => i < self@.len() && self@[i as int].id == id && (forall|j: int|
                    0 <= j < i ==> self@[j].id != id),
                None => forall|j: int| 0 <= j < self@.len() ==> self@[j].id != id,
            },
    {
        let m = self.series.len();
        let mut i: usize = 0;
        while i < m
            invariant
                m == self@.len(),
                m == self.series@.len(),
                i <= m,
                forall|j: int| 0 <= j < i ==> self@[j].id != id,
            decreases m - i,
        {
            proof {
                assert(self@[i as int] == self.series@[i as int]@);
            }
            if self.series[i].id() == id {
                return Some(i);
            }
            i += 1;
        }
        None
    }

    /// Point lookup by series id; the caller receives its own copy of the
    /// record, to mutate and write back.
    pub fn get_series(&self, id: u32) -> (r: Option<Series>)
        requires
            self.wf(),
        ensures
            match r {
                Some(series) => self.spec_get_series(id) == Some(series@) && series.wf(),
                None => self.spec_get_series(id) is None,
            },
    {
        match self.series_index(id) {
            Some(i) => {
                proof {
                    lemma_find_series_at(self@, id, i as int);
                }
                Some(self.series[i].clone())
            },
            None => {
                proof {
                    lemma_find_series_absent(self@, id);
                }
                None
            },
        }
    }

    /// Writes one record into the store, replacing the record with the same
    /// id; the explicit durability flush of a batch of mutations.
    pub fn put_series(&mut self, series: &Series)
        requires
            old(self).wf(),
            series.wf(),
        ensures
            final(self).wf(),
            final(self).spec_get_series(series@.id) == Some(series@),
            forall|x: u32|
                x != series@.id ==> final(self).spec_get_series(x) == old(self).spec_get_series(x),
    {
        match self.series_index(series.id()) {
            Some(i) => {
                let ghost pre = self@;
                let copy = series.clone();
                let ghost sv = copy@;
                self.series.remove(i);
                self.series.insert(i, copy);
                proof {
                    let post = self@;
                    assert(post =~= pre.update(i as int, sv));
                    lemma_find_series_at(post, series@.id, i as int);
                    assert forall|x: u32| x != series@.id implies spec_find_series(post, x)
                        == spec_find_series(pre, x) by {
                        lemma_find_series_update_other(pre, i as int, sv, x);
                    }
                }
            },
            None => {
                let ghost pre = self@;
                let copy = series.clone();
                let ghost sv = copy@;
                self.series.push(copy);
                proof {
                    let post = self@;
                    assert(post =~= pre.push(sv));
                    lemma_find_series_at(post, series@.id, pre.len() as int);
                    assert forall|x: u32| x != series@.id implies spec_find_series(post, x)
                        == spec_find_series(pre, x) by {
                        lemma_find_series_push_other(pre, sv, x);
                    }
                }
            },
        }
    }

    /// Removes one series record; series removal is explicit only.
    pub fn remove_series(&mut self, id: u32)
        requires
            old(self).wf(),
        ensures
            final(self).wf(),
            final(self).spec_get_series(id) is None,
            forall|x: u32|
                x != id ==> final(self).spec_get_series(x) == old(self).spec_get_series(x),
    {
        match self.series_index(id) {
            Some(i) => {
                let ghost pre = self@;
                self.series.remove(i);
                proof {
                    let post = self@;
                    assert(post =~= pre.remove(i as int));
                    assert forall|j: int| 0 <= j < post.len() implies post[j].id != id by {
                        if j >= i {
                            assert(post[j] == pre[j + 1]);
                        }
                    }
                    lemma_find_series_absent(post, id);
                    assert forall|x: u32| x != id implies spec_find_series(post, x)
                        == spec_find_series(pre, x) by {
                        lemma_find_series_remove_other(pre, i as int, x);
                    }
                }
            },
            None => {
                proof {
                    lemma_find_series_absent(self@, id);
                }
            },
        }
    }

    /// Full enumeration of the series records, for bulk and aggregate
    /// operations; the caller receives copies.
    pub fn get_series_collection(&self) -> (r: Vec<Series>)
        ensures
            r@.map_values(|s: Series| s@) == self@,
    {
        let m = self.series.len();
        let mut r: Vec<Series> = Vec::new();
        let mut i: usize = 0;
        while i < m
            invariant
                m == self.series@.len(),
                i <= m,
                r@.len() == i as int,
                forall|k: int| 0 <= k < i ==> (#[trigger] r@[k])@ == self.series@[k]@,
            decreases m - i,
        {
            let copy = self.series[i].clone();
            r.push(copy);
            i += 1;
        }
        proof {
            assert(r@.map_values(|s: Series| s@) =~= self@);
        }
        r
    }
}

impl Series {
    /// Records one episode as watched, creating the season record first
    /// when it is absent, persists the record durably into the store before
    /// returning, and reports whether the episode was newly added; callers
    /// use the report to roll the step back — re-remove — when a dependent
    /// step later fails.
    pub fn add_episode(
        &mut self,
        season_number: u32,
        episode_number: u32,
        store: &mut WatchTrackingStore,
    ) -> (newly_added: bool)
        requires
            old(self).wf(),
            old(store).wf(),
        ensures
            add_episode_post(old(self)@, final(self)@, season_number, episode_number, newly_added),
            final(store).wf(),
            final(store).spec_get_series(final(self)@.id) == Some(final(self)@),
            forall|x: u32|
                x != final(self)@.id ==> final(store).spec_get_series(x) == old(
                    store,
                ).spec_get_series(x),
    {
        let newly_added = self.track_new_episode(season_number, episode_number);
        store.put_series(self);
        newly_added
    }

    /// The one explicit durability flush: writes this record back into the
    /// store.  Mutations are not persisted per call — a batched unit of
    /// change calls this once at its end.
    pub fn update(&self, store: &mut WatchTrackingStore)
        requires
            old(store).wf(),
            self.wf(),
        ensures
            final(store).wf(),
            final(store).spec_get_series(self@.id) == Some(self@),
            forall|x: u32|
                x != self@.id ==> final(store).spec_get_series(x) == old(store).spec_get_series(x),
    {
        store.put_series(self);
    }
}


/// The sum of a sequence of runtimes, in minutes.
pub open spec fn spec_sum(s: Seq<u32>) -> int
    decreases s.len(),
{
    if s.len() == 0 {
        0int
    } else {
        spec_sum(s.drop_last()) + s.last()
    }
}

/// Aggregates the fetched runtimes of a series' watched episodes into its
/// average-minutes figure (zero when nothing is watched), used for ranking
/// in statistics views.
pub fn get_total_average_watchtime(runtimes: &Vec<u32>) -> (r: u32)
    requires
        runtimes@.len() <= u32::MAX,
    ensures
        runtimes@.len() == 0 ==> r == 0,
        runtimes@.len() > 0 ==> r as int == spec_sum(runtimes@) / runtimes@.len() as int,
{
    let n = runtimes.len();
    if n == 0 {
        return 0;
    }
    let mut sum: u64 = 0;
    let mut i: usize = 0;
    proof {
        assert(runtimes@.take(0int) =~= Seq::<u32>::empty());
    }
    while i < n
        invariant
            n == runtimes@.len(),
            n <= u32::MAX,
            i <= n,
            sum as int == spec_sum(runtimes@.take(i as int)),
            sum <= (i as int) * (u32::MAX as int),
        decreases n - i,
    {
        proof {
            assert(runtimes@.take(i + 1).drop_last() =~= runtimes@.take(i as int));
            assert(runtimes@.take(i + 1).last() == runtimes@[i as int]);
            assert((i as int) * (u32::MAX as int) + (u32::MAX as int) == ((i + 1) as int) * (
            u32::MAX as int)) by (nonlinear_arith);
            assert((i + 1) as int * (u32::MAX as int) <= (u32::MAX as int) * (u32::MAX as int))
                by (nonlinear_arith)
                requires
                    i + 1 <= u32::MAX as int,
            ;
        }
        sum = sum + runtimes[i] as u64;
        i += 1;
    }
    proof {
        assert(runtimes@.take(n as int) =~= runtimes@);
        assert(sum as int / n as int <= u32::MAX as int) by (nonlinear_arith)
            requires
                0 < n as int <= u32::MAX as int,
                0 <= sum as int <= (n as int) * (u32::MAX as int),
        ;
        assert(sum as int / n as int >= 0) by (nonlinear_arith)
            requires
                0 < n as int,
                0 <= sum as int,
        ;
    }
    let average = sum / (n as u64);
    proof {
        assert(average as int == spec_sum(runtimes@) / runtimes@.len() as int);
    }
    average as u32
}

/// Descending by the average-minutes figure: each entry's figure is at
/// least every later one's.
pub open spec fn spec_sorted_desc_by_time(s: Seq<(u32, u32)>) -> bool {
    forall|a: int, b: int| 0 <= a < b < s.len() ==> s[a].1 >= s[b].1
}

/// Ranks `(series id, average minutes)` pairs for the statistics view:
/// the result is the same collection of pairs, ordered by descending
/// average minutes.
pub fn rank_by_average_watchtime(items: Vec<(u32, u32)>) -> (r: Vec<(u32, u32)>)
    ensures
        spec_sorted_desc_by_time(r@),
        r@.to_multiset() == items@.to_multiset(),
{
    broadcast use vstd::seq_lib::group_to_multiset_ensures;

    let mut work = items;
    let mut r: Vec<(u32, u32)> = Vec::new();
    proof {
        assert(r@.to_multiset() =~= Multiset::<(u32, u32)>::empty());
        assert(r@.to_multiset().add(work@.to_multiset()) =~= items@.to_multiset());
    }
    while work.len() > 0
        invariant
            spec_sorted_desc_by_time(r@),
            r@.to_multiset().add(work@.to_multiset()) == items@.to_multiset(),
            forall|a: int, b: int|
                0 <= a < r@.len() && 0 <= b < work@.len() ==> r@[a].1 >= work@[b].1,
        decreases work@.len(),
    {
        let m = work.len();
        let mut best: usize = 0;
        let mut j: usize = 1;
        while j < m
            invariant
                m == work@.len(),
                best < j <= m,
                forall|k: int| 0 <= k < j ==> work@[k].1 <= work@[best as int].1,
            decreases m - j,
        {
            if work[j].1 > work[best].1 {
                best = j;
            }
            j += 1;
        }
        let ghost pre_work = work@;
        let ghost pre_r = r@;
        let item = work.remove(best);
        r.push(item);
        proof {
            pre_work.to_multiset_ensures();
            pre_r.to_multiset_ensures();
            assert(pre_work.remove(best as int).to_multiset() =~= pre_work.to_multiset().remove(
                item,
            ));
            assert(pre_r.push(item).to_multiset() =~= pre_r.to_multiset().insert(item));
            assert(r@.to_multiset().add(work@.to_multiset()) =~= items@.to_multiset());
            assert(pre_work.to_multiset().contains(item));
            assert forall|b: int| 0 <= b < work@.len() implies item.1 >= work@[b].1 by {
                if b < best {
                    assert(work@[b] == pre_work[b]);
                } else {
                    assert(work@[b] == pre_work[b + 1]);
                }
            }
        }
    }
    proof {
        assert(work@.to_multiset() =~= Multiset::<(u32, u32)>::empty());
        assert(r@.to_multiset() =~= items@.to_multiset());
    }
    r
}

} // verus!
