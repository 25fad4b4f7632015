use series_troxide::cache::{
    get_cache_file_path, plan_load, CacheError, CacheGateway, CacheKey, LoadPlan,
};
use series_troxide::episodes::{Episode, EpisodeList, FetchError, LoadError};

#[test]
fn cache_keys_map_to_deterministic_paths() {
    assert_eq!(get_cache_file_path(&CacheKey::SeriesEpisodeList(42)), "episode_list/42");
    assert_eq!(get_cache_file_path(&CacheKey::SeriesEpisodeList(0)), "episode_list/0");
}

#[test]
fn cache_round_trip_is_byte_identical() {
    let mut cache = CacheGateway::new();
    let key = CacheKey::SeriesEpisodeList(42);
    let payload: Vec<u8> = vec![0, 1, 2, 254, 255, 42];
    cache.write(&key, payload.clone());
    assert_eq!(cache.read(&key).unwrap(), payload);
}

#[test]
fn cache_read_of_missing_key_is_not_found() {
    let cache = CacheGateway::new();
    assert_eq!(
        cache.read(&CacheKey::SeriesEpisodeList(7)).unwrap_err(),
        CacheError::NotFound
    );
}

#[test]
fn cache_write_replaces_and_leaves_other_keys_alone() {
    let mut cache = CacheGateway::new();
    let first = CacheKey::SeriesEpisodeList(1);
    let second = CacheKey::SeriesEpisodeList(2);
    cache.write(&first, vec![1, 1]);
    cache.write(&second, vec![2, 2]);
    cache.write(&first, vec![9, 9, 9]);
    assert_eq!(cache.read(&first).unwrap(), vec![9, 9, 9]);
    assert_eq!(cache.read(&second).unwrap(), vec![2, 2]);
}

#[test]
fn load_plan_follows_the_read_outcome() {
    assert!(matches!(plan_load(Ok(vec![1])), LoadPlan::UseCache(bytes) if bytes == vec![1]));
    assert!(matches!(plan_load(Err(CacheError::NotFound)), LoadPlan::FetchThenWrite));
    assert!(matches!(plan_load(Err(CacheError::Io)), LoadPlan::FetchOnly));
}

#[test]
fn absent_cache_means_one_fetch_and_one_write_then_none() {
    let mut cache = CacheGateway::new();
    let series_id = 42;
    let mut fetches = 0;
    let mut cache_writes = 0;

    // First load: the cache is absent, so the plan demands exactly one
    // remote fetch and one write-through of the raw payload.
    let first_load = match EpisodeList::load_step(&cache, series_id) {
        LoadPlan::UseCache(_) => unreachable!("the cache starts empty"),
        LoadPlan::FetchOnly => unreachable!("an in-memory read cannot fail"),
        LoadPlan::FetchThenWrite => {
            fetches += 1;
            let fetched = fetch_from_fake_remote();
            cache_writes += 1;
            EpisodeList::complete_load(&mut cache, series_id, Ok(fetched), true).unwrap()
        },
    };
    assert_eq!(fetches, 1);
    assert_eq!(cache_writes, 1);
    assert!(first_load.get_episode(1, 1).is_some());

    // Immediately following load: served from the cache, zero fetches, and
    // the payload comes back byte-identical.
    match EpisodeList::load_step(&cache, series_id) {
        LoadPlan::UseCache(bytes) => {
            assert_eq!(bytes, fetch_from_fake_remote().1);
        },
        _ => unreachable!("the payload was written through"),
    }
    assert_eq!(fetches, 1);
    assert_eq!(cache_writes, 1);
}

fn fetch_from_fake_remote() -> (Vec<Episode>, Vec<u8>) {
    let episodes = vec![Episode {
        season: 1,
        number: Some(1),
        name: String::from("Pilot"),
        airstamp: Some(String::from("2020-01-01T20:00:00+00:00")),
        summary: Some(String::from("It begins.")),
    }];
    let raw_payload = Vec::from(&b"[{\"season\":1,\"number\":1,\"name\":\"Pilot\"}]"[..]);
    (episodes, raw_payload)
}

#[test]
fn failed_fetch_is_fatal_and_leaves_the_cache_untouched() {
    let mut cache = CacheGateway::new();
    let outcome = EpisodeList::complete_load(&mut cache, 42, Err(FetchError), true);
    assert_eq!(outcome.unwrap_err(), LoadError::Fetch(FetchError));
    assert!(cache.read(&CacheKey::SeriesEpisodeList(42)).is_err());
}

#[test]
fn malformed_fetched_airstamp_fails_the_load_after_the_write_through() {
    let mut cache = CacheGateway::new();
    let episodes = vec![Episode {
        season: 1,
        number: Some(1),
        name: String::from("Pilot"),
        airstamp: Some(String::from("whenever")),
        summary: None,
    }];
    let raw_payload = vec![1, 2, 3];
    let outcome =
        EpisodeList::complete_load(&mut cache, 42, Ok((episodes, raw_payload.clone())), true);
    assert!(matches!(outcome.unwrap_err(), LoadError::Timestamp(_)));
    assert_eq!(cache.read(&CacheKey::SeriesEpisodeList(42)).unwrap(), raw_payload);
}
