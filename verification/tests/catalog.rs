use series_troxide::episodes::{get_release_remaining_time, Episode, EpisodeList};

fn rfc3339_of(epoch: i64) -> String {
    chrono::DateTime::<chrono::Utc>::from_timestamp(epoch, 0)
        .unwrap()
        .to_rfc3339()
}

fn episode(season: u32, number: u32, airstamp: Option<String>) -> Episode {
    Episode {
        season,
        number: Some(number),
        name: format!("S{}E{}", season, number),
        airstamp,
        summary: None,
    }
}

const NOW: i64 = 1_600_000_000;
const DAY: i64 = 86_400;

#[test]
fn watchability_resolves_by_airstamp() {
    let past = episode(1, 1, Some(rfc3339_of(NOW - DAY)));
    let future = episode(1, 2, Some(rfc3339_of(NOW + DAY)));
    let absent = episode(1, 3, None);

    assert_eq!(EpisodeList::is_episode_watchable(&past, NOW).unwrap(), Some(true));
    assert_eq!(EpisodeList::is_episode_watchable(&future, NOW).unwrap(), Some(false));
    assert_eq!(EpisodeList::is_episode_watchable(&absent, NOW).unwrap(), None);
}

#[test]
fn watchability_boundary_instant_is_watchable() {
    let on_the_dot = episode(1, 1, Some(rfc3339_of(NOW)));
    assert_eq!(EpisodeList::is_episode_watchable(&on_the_dot, NOW).unwrap(), Some(true));
}

#[test]
fn malformed_airstamp_is_rejected_not_fatal() {
    let bad = episode(1, 1, Some(String::from("yesterday-ish")));
    assert!(EpisodeList::is_episode_watchable(&bad, NOW).is_err());
    assert!(EpisodeList::from_episodes(vec![episode(1, 1, None), bad]).is_err());
}

#[test]
fn get_episode_finds_the_exact_match() {
    let catalog = EpisodeList::from_episodes(vec![
        episode(1, 1, None),
        episode(1, 2, None),
        episode(2, 1, None),
    ])
    .unwrap();

    let found = catalog.get_episode(2, 1).unwrap();
    assert_eq!(found.season, 2);
    assert_eq!(found.number, Some(1));
    assert_eq!(found.name, "S2E1");
    assert!(catalog.get_episode(3, 1).is_none());
    assert!(catalog.get_episode(1, 3).is_none());
}

#[test]
fn get_episodes_filters_and_keeps_order() {
    let catalog = EpisodeList::from_episodes(vec![
        episode(2, 9, None),
        episode(1, 1, None),
        episode(2, 4, None),
        episode(2, 1, None),
    ])
    .unwrap();

    let season_two: Vec<String> = catalog.get_episodes(2).into_iter().map(|e| e.name).collect();
    assert_eq!(season_two, vec!["S2E9", "S2E4", "S2E1"]);
    assert!(catalog.get_episodes(5).is_empty());
}

#[test]
fn total_watchable_counts_only_released_episodes() {
    let catalog = EpisodeList::from_episodes(vec![
        episode(1, 1, Some(rfc3339_of(NOW - 2 * DAY))),
        episode(1, 2, Some(rfc3339_of(NOW - DAY))),
        episode(1, 3, Some(rfc3339_of(NOW + DAY))),
        episode(2, 1, None),
    ])
    .unwrap();

    assert_eq!(catalog.get_total_watchable_episodes(NOW), 2);
}

#[test]
fn season_numbers_are_ascending_whatever_the_input_order() {
    let catalog = EpisodeList::from_episodes(vec![
        episode(3, 1, Some(rfc3339_of(NOW + DAY))),
        episode(1, 1, Some(rfc3339_of(NOW - DAY))),
        episode(3, 2, Some(rfc3339_of(NOW - DAY))),
        episode(2, 1, None),
        episode(1, 2, Some(rfc3339_of(NOW - DAY))),
        episode(2, 2, Some(rfc3339_of(NOW - DAY))),
    ])
    .unwrap();

    let totals = catalog.get_season_numbers_with_total_episode(NOW);
    let seasons: Vec<u32> = totals.iter().map(|(season, _)| *season).collect();
    assert_eq!(seasons, vec![1, 2, 3]);

    let all: Vec<usize> = totals.iter().map(|(_, t)| t.get_all_episodes()).collect();
    let watchable: Vec<usize> = totals.iter().map(|(_, t)| t.get_all_watchable_episodes()).collect();
    assert_eq!(all, vec![2, 2, 2]);
    assert_eq!(watchable, vec![2, 1, 1]);

    let watchable_only = catalog.get_season_numbers_with_total_watchable_episode(NOW);
    assert_eq!(watchable_only, vec![(1, 2), (2, 1), (3, 1)]);
}

#[test]
fn previous_and_next_episode_around_now() {
    let catalog = EpisodeList::from_episodes(vec![
        episode(1, 1, Some(rfc3339_of(NOW - DAY))),
        episode(1, 2, Some(rfc3339_of(NOW + DAY))),
    ])
    .unwrap();

    let previous = catalog.get_previous_episode(NOW).unwrap();
    assert_eq!((previous.season, previous.number), (1, Some(1)));

    let next = catalog.get_next_episode(NOW).unwrap();
    assert_eq!((next.season, next.number), (1, Some(2)));

    let (next, release_time) = catalog.get_next_episode_and_time(NOW).unwrap();
    assert_eq!((next.season, next.number), (1, Some(2)));
    let remaining = release_time.get_remaining_release_time(NOW).unwrap();
    assert!(!remaining.is_empty());
    assert_eq!(remaining, "1 days");
}

#[test]
fn previous_episode_is_the_last_when_everything_aired() {
    let catalog = EpisodeList::from_episodes(vec![
        episode(1, 1, Some(rfc3339_of(NOW - 3 * DAY))),
        episode(1, 2, Some(rfc3339_of(NOW - 2 * DAY))),
        episode(1, 3, Some(rfc3339_of(NOW - DAY))),
    ])
    .unwrap();

    let previous = catalog.get_previous_episode(NOW).unwrap();
    assert_eq!(previous.number, Some(3));
}

#[test]
fn previous_episode_scan_aborts_on_undecidable_lookahead() {
    // The successor of the first episode has no airstamp, so the whole scan
    // yields nothing instead of skipping it.
    let catalog = EpisodeList::from_episodes(vec![
        episode(1, 1, Some(rfc3339_of(NOW - DAY))),
        episode(1, 2, None),
        episode(1, 3, Some(rfc3339_of(NOW + DAY))),
    ])
    .unwrap();

    assert!(catalog.get_previous_episode(NOW).is_none());
}

#[test]
fn empty_catalog_has_no_previous_or_next() {
    let catalog = EpisodeList::from_episodes(Vec::new()).unwrap();
    assert!(catalog.get_previous_episode(NOW).is_none());
    assert!(catalog.get_next_episode(NOW).is_none());
    assert!(catalog.get_next_episode_and_time(NOW).is_none());
    assert_eq!(catalog.get_total_watchable_episodes(NOW), 0);
    assert!(catalog.get_season_numbers_with_total_episode(NOW).is_empty());
}

#[test]
fn release_remaining_time_delegates_to_the_one_routine() {
    let future = episode(1, 1, Some(rfc3339_of(NOW + 2 * 604_800 + DAY)));
    assert_eq!(
        get_release_remaining_time(&future, NOW).unwrap().as_deref(),
        Some("2 weeks")
    );

    let aired = episode(1, 2, Some(rfc3339_of(NOW)));
    assert_eq!(get_release_remaining_time(&aired, NOW).unwrap(), None);

    let absent = episode(1, 3, None);
    assert_eq!(get_release_remaining_time(&absent, NOW).unwrap(), None);

    let bad = episode(1, 4, Some(String::from("soon")));
    assert!(get_release_remaining_time(&bad, NOW).is_err());
}
