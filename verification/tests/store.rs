use series_troxide::store::{
    get_total_average_watchtime, rank_by_average_watchtime, Season, Series, WatchTrackingStore,
};

#[test]
fn track_episode_is_idempotent() {
    let mut season = Season::new(1);
    season.track_episode(4);
    let once: Vec<u32> = season.watched_episodes();
    season.track_episode(4);
    assert_eq!(season.watched_episodes(), once);
    assert_eq!(season.episodes_watched(), 1);
    assert!(season.is_episode_watched(4));
}

#[test]
fn untrack_of_nonmember_is_a_noop() {
    let mut season = Season::new(1);
    season.track_episode(1);
    season.track_episode(2);
    let before: Vec<u32> = season.watched_episodes();
    season.untrack_episode(9);
    assert_eq!(season.watched_episodes(), before);
    assert_eq!(season.episodes_watched(), 2);
}

#[test]
fn untrack_removes_a_member() {
    let mut season = Season::new(1);
    season.track_episode(1);
    season.track_episode(2);
    season.untrack_episode(1);
    assert!(!season.is_episode_watched(1));
    assert!(season.is_episode_watched(2));
    assert_eq!(season.episodes_watched(), 1);
}

#[test]
fn watched_episodes_are_kept_ascending() {
    let mut season = Season::new(1);
    season.track_episode(5);
    season.track_episode(1);
    season.track_episode(3);
    assert_eq!(season.watched_episodes(), vec![1, 3, 5]);
}

#[test]
fn fully_tracked_iff_count_equals_declared_order() {
    let mut season = Season::new(1);
    season.set_episode_order(Some(3));
    season.track_episode(1);
    season.track_episode(2);
    assert_eq!(season.episodes_watched(), 2);
    assert!(!season.is_fully_tracked());

    season.track_episode(3);
    assert_eq!(season.episodes_watched(), 3);
    assert!(season.is_fully_tracked());

    season.untrack_episode(2);
    assert!(!season.is_fully_tracked());
}

#[test]
fn season_without_declared_order_is_never_fully_tracked() {
    let mut season = Season::new(1);
    season.track_episode(1);
    assert!(!season.is_fully_tracked());
}

#[test]
fn add_episode_reports_newly_added_once_and_persists() {
    let mut store = WatchTrackingStore::new();
    let mut series = Series::new(String::from("Show"), 7);
    assert!(series.add_episode(1, 3, &mut store));
    assert!(!series.add_episode(1, 3, &mut store));
    let season = series.get_season(1).unwrap();
    assert!(season.is_episode_watched(3));
    assert_eq!(season.episodes_watched(), 1);

    // The record was persisted before returning, with no explicit flush.
    let persisted = store.get_series(7).unwrap();
    assert!(persisted.get_season(1).unwrap().is_episode_watched(3));
}

#[test]
fn add_episode_unchecked_has_the_same_effect() {
    let mut series = Series::new(String::from("Show"), 7);
    series.add_episode_unchecked(2, 5);
    series.add_episode_unchecked(2, 5);
    let season = series.get_season(2).unwrap();
    assert!(season.is_episode_watched(5));
    assert_eq!(season.episodes_watched(), 1);
}

#[test]
fn remove_episode_rolls_back_an_added_one() {
    let mut store = WatchTrackingStore::new();
    let mut series = Series::new(String::from("Show"), 7);
    assert!(series.add_episode(1, 3, &mut store));
    series.remove_episode(1, 3);
    let season = series.get_season(1).unwrap();
    assert!(!season.is_episode_watched(3));
    // The season record itself persists until removed explicitly.
    assert_eq!(season.episodes_watched(), 0);
}

#[test]
fn add_season_does_not_prepopulate_and_remove_season_resets() {
    let mut series = Series::new(String::from("Show"), 7);
    series.add_season(4);
    assert_eq!(series.get_season(4).unwrap().episodes_watched(), 0);

    series.add_episode_unchecked(4, 1);
    series.add_season(4);
    assert_eq!(series.get_season(4).unwrap().episodes_watched(), 1);

    series.remove_season(4);
    assert!(series.get_season(4).is_none());
}

#[test]
fn toggle_episode_tracking_flips_membership() {
    let mut series = Series::new(String::from("Show"), 7);
    series.toggle_episode_tracking(1, 2);
    assert!(series.get_season(1).unwrap().is_episode_watched(2));
    series.toggle_episode_tracking(1, 2);
    assert!(!series.get_season(1).unwrap().is_episode_watched(2));
}

#[test]
fn toggle_season_tracking_fills_then_removes() {
    let mut series = Series::new(String::from("Show"), 7);

    // Untracked season: the toggle tracks episodes 1..=order.
    series.toggle_season_tracking(1, 3);
    let season = series.get_season(1).unwrap();
    assert_eq!(season.watched_episodes(), vec![1, 2, 3]);

    // Exactly `order` watched: the toggle removes the season record.
    series.toggle_season_tracking(1, 3);
    assert!(series.get_season(1).is_none());
}

#[test]
fn toggle_season_tracking_tops_up_a_partial_season() {
    let mut series = Series::new(String::from("Show"), 7);
    series.add_episode_unchecked(1, 2);
    series.toggle_season_tracking(1, 3);
    assert_eq!(series.get_season(1).unwrap().watched_episodes(), vec![1, 2, 3]);
}

#[test]
fn store_updates_are_explicit() {
    let mut store = WatchTrackingStore::new();
    assert!(store.get_series(7).is_none());

    let mut series = Series::new(String::from("Show"), 7);
    series.add_episode_unchecked(1, 1);
    assert!(store.get_series(7).is_none());

    series.update(&mut store);
    let copy = store.get_series(7).unwrap();
    assert_eq!(copy.id(), 7);
    assert_eq!(copy.name(), "Show");
    assert!(copy.get_season(1).unwrap().is_episode_watched(1));

    // Mutating the copy changes nothing until it is written back.
    let mut copy = copy;
    copy.add_episode_unchecked(1, 2);
    assert!(!store.get_series(7).unwrap().get_season(1).unwrap().is_episode_watched(2));
    copy.update(&mut store);
    assert!(store.get_series(7).unwrap().get_season(1).unwrap().is_episode_watched(2));
}

#[test]
fn store_removal_is_explicit_and_collection_enumerates() {
    let mut store = WatchTrackingStore::new();
    Series::new(String::from("A"), 1).update(&mut store);
    Series::new(String::from("B"), 2).update(&mut store);

    let mut ids: Vec<u32> = store.get_series_collection().iter().map(|s| s.id()).collect();
    ids.sort();
    assert_eq!(ids, vec![1, 2]);

    store.remove_series(1);
    assert!(store.get_series(1).is_none());
    assert!(store.get_series(2).is_some());
    assert_eq!(store.get_series_collection().len(), 1);
}

#[test]
fn average_watchtime_is_the_truncated_mean() {
    assert_eq!(get_total_average_watchtime(&vec![30, 40, 50]), 40);
    assert_eq!(get_total_average_watchtime(&vec![30, 45]), 37);
    assert_eq!(get_total_average_watchtime(&vec![25]), 25);
    assert_eq!(get_total_average_watchtime(&Vec::new()), 0);
}

#[test]
fn ranking_sorts_by_descending_watchtime() {
    let ranked = rank_by_average_watchtime(vec![(1, 30), (2, 90), (3, 60), (4, 90)]);
    let minutes: Vec<u32> = ranked.iter().map(|(_, m)| *m).collect();
    assert_eq!(minutes, vec![90, 90, 60, 30]);

    let mut ids: Vec<u32> = ranked.iter().map(|(id, _)| *id).collect();
    ids.sort();
    assert_eq!(ids, vec![1, 2, 3, 4]);
}
