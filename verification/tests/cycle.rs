use std::collections::{HashSet, VecDeque};

use crunchyma::catalog::{Episode, FeedEntry, Image, LocaleName, SeriesInfo, SeriesRating};
use crunchyma::clock::Timestamp;
use crunchyma::cycle::{background_task, check_releases, Action, Announcer, Event, Stage};
use crunchyma::releases::{make_msg_text, ReleaseError};

const DAY: i64 = 86_400;
const TODAY: i64 = 19_700 * DAY;

fn episode(id: &str, free: i64, premium: i64) -> Episode {
    Episode {
        id: id.to_string(),
        title: format!("Title of {}", id),
        slug_title: format!("title-of-{}", id),
        description: "About.".to_string(),
        series_id: format!("series-of-{}", id),
        series_title: "Show".to_string(),
        series_slug_title: "show".to_string(),
        season_id: "season".to_string(),
        season_number: 1,
        episode_number: Some(3),
        audio_locale: "ja-JP".to_string(),
        categories: vec!["Action".to_string()],
        maturity_ratings: vec!["TV-14".to_string()],
        duration_minutes: 24,
        free_available_date: Timestamp::new(free, 0),
        premium_available_date: Timestamp::new(premium, 0),
        is_clip: false,
    }
}

fn clip(id: &str, free: i64, premium: i64) -> Episode {
    let mut entry = episode(id, free, premium);
    entry.is_clip = true;
    entry
}

fn series() -> SeriesInfo {
    SeriesInfo {
        poster_tall: vec![Image { source: "https://img.example/poster.jpg".to_string(), width: 480, height: 720 }],
        rating: SeriesRating { average: "4.9".to_string(), total: 1_500 },
    }
}

fn locales() -> Vec<LocaleName> {
    vec![LocaleName { code: "en-US".to_string(), name: "English".to_string() }]
}

/// A catalog, a store and a channel that answer the machine.
struct World {
    now: i64,
    store: HashSet<String>,
    channel: Option<String>,
    delivered: Vec<String>,
    captions: Vec<String>,
    chats: Vec<i64>,
    looked_up: Vec<String>,
    inserted: Vec<String>,
    pulled: usize,
    paused: u64,
    trail: Vec<&'static str>,
    fail_connect: bool,
    fail_locales: bool,
    fail_feed_at: Option<usize>,
    fail_lookup: bool,
    fail_enrich: HashSet<String>,
    fail_deliver: HashSet<String>,
    fail_insert: HashSet<String>,
    duplicate_on_insert: HashSet<String>,
}

impl World {
    fn at(now: i64) -> World {
        World {
            now,
            store: HashSet::new(),
            channel: Some("-1001".to_string()),
            delivered: Vec::new(),
            captions: Vec::new(),
            chats: Vec::new(),
            looked_up: Vec::new(),
            inserted: Vec::new(),
            pulled: 0,
            paused: 0,
            trail: Vec::new(),
            fail_connect: false,
            fail_locales: false,
            fail_feed_at: None,
            fail_lookup: false,
            fail_enrich: HashSet::new(),
            fail_deliver: HashSet::new(),
            fail_insert: HashSet::new(),
            duplicate_on_insert: HashSet::new(),
        }
    }

    fn clock(&self) -> Timestamp {
        Timestamp::new(self.now, 0)
    }

    /// Runs one cycle from a tick to its end and hands back how it ended.
    fn cycle(&mut self, feed: Vec<FeedEntry>) -> Result<(), ReleaseError> {
        let mut feed: VecDeque<FeedEntry> = feed.into();
        let mut state = Announcer::Idle;
        let mut event = Event::Tick;
        let mut series_of = String::new();
        for _ in 0..10_000 {
            let (next, action) = background_task(state, event, &self.clock());
            state = next;
            event = match action {
                Action::KeepWaiting => panic!("the machine ignored an answer"),
                Action::Connect => {
                    self.trail.push("connect");
                    if self.fail_connect {
                        Event::Failed(ReleaseError::CrunchyrollError("login refused".to_string()))
                    } else {
                        Event::Connected
                    }
                }
                Action::LoadLocales => {
                    self.trail.push("locales");
                    if self.fail_locales {
                        Event::Failed(ReleaseError::ReqwestError("no route".to_string()))
                    } else {
                        Event::Locales(locales())
                    }
                }
                Action::NextEntry => {
                    self.pulled += 1;
                    if self.fail_feed_at == Some(self.pulled) {
                        Event::Failed(ReleaseError::CrunchyrollError("page failed".to_string()))
                    } else {
                        match feed.pop_front() {
                            Some(entry) => Event::Entry(entry),
                            None => Event::EndOfFeed,
                        }
                    }
                }
                Action::FindRecord(id) => {
                    self.looked_up.push(id.clone());
                    if self.fail_lookup {
                        Event::Failed(ReleaseError::DatabaseError("store down".to_string()))
                    } else {
                        Event::Lookup(self.store.contains(&id))
                    }
                }
                Action::Pause(seconds) => {
                    self.trail.push("pause");
                    self.paused += seconds;
                    self.now += seconds as i64;
                    Event::Paused
                }
                Action::FetchSeries(id) => {
                    self.trail.push("series");
                    series_of = id.clone();
                    let of = id.trim_start_matches("series-of-").to_string();
                    if self.fail_enrich.contains(&of) {
                        Event::Failed(ReleaseError::CrunchyrollError("no series".to_string()))
                    } else {
                        Event::Series { info: series(), channel: self.channel.clone() }
                    }
                }
                Action::Deliver(message) => {
                    self.trail.push("deliver");
                    let id = message.keyboard[0][1].url.trim_start_matches("https://www.crunchyroll.com/watch/").to_string();
                    assert_eq!(message.keyboard[0][0].url, format!("https://www.crunchyroll.com/series/{}", series_of));
                    if self.fail_deliver.contains(&id) {
                        Event::Failed(ReleaseError::RequestError("flood".to_string()))
                    } else {
                        self.delivered.push(id);
                        self.captions.push(message.caption);
                        self.chats.push(message.chat_id);
                        assert_eq!(message.photo, "https://img.example/poster.jpg");
                        Event::Delivered
                    }
                }
                Action::Insert(record) => {
                    self.trail.push("insert");
                    if self.fail_insert.contains(&record.id) {
                        Event::Failed(ReleaseError::DatabaseError("disk full".to_string()))
                    } else if self.duplicate_on_insert.contains(&record.id) || self.store.contains(&record.id) {
                        self.store.insert(record.id);
                        Event::Duplicate
                    } else {
                        self.store.insert(record.id.clone());
                        self.inserted.push(record.id);
                        Event::Inserted
                    }
                }
                Action::Finish(result) => {
                    assert!(matches!(state, Announcer::Idle));
                    return result;
                }
            };
        }
        panic!("the cycle did not end");
    }
}

fn entries(episodes: Vec<Episode>) -> Vec<FeedEntry> {
    episodes.into_iter().map(FeedEntry::Episode).collect()
}

#[test]
fn a_clip_is_left_out_and_nothing_is_announced_twice() {
    let mut world = World::at(TODAY + 3_600);
    let feed = || entries(vec![clip("clip", TODAY + 60, TODAY + 60), episode("real", TODAY + 60, TODAY + 60)]);
    assert!(world.cycle(feed()).is_ok());
    assert_eq!(world.looked_up, vec!["real"]);
    assert_eq!(world.delivered, vec!["real"]);
    assert_eq!(world.inserted, vec!["real"]);
    assert!(world.cycle(feed()).is_ok());
    assert_eq!(world.delivered, vec!["real"]);
    assert_eq!(world.inserted, vec!["real"]);
}

#[test]
fn a_scan_stops_at_one_page() {
    let mut world = World::at(TODAY + 40_000);
    let feed: Vec<Episode> = (0..150).map(|i| episode(&format!("e{:03}", i), TODAY + 10 + i, TODAY + 10 + i)).collect();
    assert!(world.cycle(entries(feed)).is_ok());
    assert_eq!(world.pulled, 100);
    assert_eq!(world.looked_up.len(), 100);
    assert_eq!(world.delivered.len(), 100);
    assert_eq!(world.delivered[0], "e000");
    assert_eq!(world.delivered[99], "e099");
}

#[test]
fn entries_that_are_passed_over_count_towards_the_page() {
    let mut world = World::at(TODAY + 40_000);
    let mut feed: Vec<FeedEntry> = Vec::new();
    for i in 0..60 {
        feed.push(FeedEntry::Other);
        feed.push(FeedEntry::Episode(episode(&format!("e{:03}", i), TODAY + 10, TODAY + 10)));
    }
    assert!(world.cycle(feed).is_ok());
    assert_eq!(world.pulled, 100);
    assert_eq!(world.delivered.len(), 50);
}

#[test]
fn a_short_feed_ends_the_scan() {
    let mut world = World::at(TODAY + 40_000);
    assert!(world.cycle(entries(vec![episode("only", TODAY + 1, TODAY + 1)])).is_ok());
    assert_eq!(world.pulled, 2);
    assert_eq!(world.delivered, vec!["only"]);
    let mut empty = World::at(TODAY + 40_000);
    assert!(empty.cycle(Vec::new()).is_ok());
    assert_eq!(empty.pulled, 1);
    assert!(empty.delivered.is_empty());
}

#[test]
fn announcements_come_earliest_first() {
    let mut world = World::at(TODAY + 40_000);
    let feed = entries(vec![
        episode("t3", TODAY + 300, TODAY + 300),
        episode("t1", TODAY + 100, TODAY + 100),
        episode("t2", TODAY + 200, TODAY + 200),
    ]);
    assert!(world.cycle(feed).is_ok());
    assert_eq!(world.delivered, vec!["t1", "t2", "t3"]);
}

#[test]
fn what_is_not_yet_released_waits_for_a_later_cycle() {
    let mut world = World::at(TODAY + 3_600);
    let feed = || entries(vec![episode("tonight", TODAY + 70_000, TODAY + 60_000), episode("out", TODAY + 60, TODAY + 60)]);
    assert!(world.cycle(feed()).is_ok());
    assert_eq!(world.looked_up, vec!["tonight", "out"]);
    assert_eq!(world.delivered, vec!["out"]);
    assert!(!world.store.contains("tonight"));
    world.now = TODAY + 60_001;
    assert!(world.cycle(feed()).is_ok());
    assert_eq!(world.delivered, vec!["out", "tonight"]);
}

#[test]
fn an_episode_released_this_very_instant_is_not_yet_announced() {
    let mut world = World::at(TODAY + 3_600);
    assert!(world.cycle(entries(vec![episode("now", TODAY + 3_600, TODAY + 3_600)])).is_ok());
    assert!(world.delivered.is_empty());
}

#[test]
fn what_has_a_record_is_not_admitted() {
    let mut world = World::at(TODAY + 3_600);
    world.store.insert("seen".to_string());
    assert!(world.cycle(entries(vec![episode("seen", TODAY + 1, TODAY + 1), episode("new", TODAY + 2, TODAY + 2)])).is_ok());
    assert_eq!(world.delivered, vec!["new"]);
}

#[test]
fn a_duplicate_key_counts_as_stored() {
    let mut world = World::at(TODAY + 3_600);
    world.duplicate_on_insert.insert("a".to_string());
    let feed = || entries(vec![episode("a", TODAY + 1, TODAY + 1), episode("b", TODAY + 2, TODAY + 2)]);
    assert!(world.cycle(feed()).is_ok());
    assert_eq!(world.delivered, vec!["a", "b"]);
    assert!(world.cycle(feed()).is_ok());
    assert_eq!(world.delivered, vec!["a", "b"]);
}

#[test]
fn over_many_cycles_every_episode_is_announced_once() {
    let mut world = World::at(TODAY + 100);
    for round in 0..12 {
        let feed: Vec<Episode> = (0..20).map(|i| episode(&format!("e{:02}", i), TODAY + 1_000 * i, TODAY + 1_000 * i)).collect();
        assert!(world.cycle(entries(feed)).is_ok());
        world.now += 2_000;
        let mut seen = HashSet::new();
        for id in &world.delivered {
            assert!(seen.insert(id.clone()), "{} announced twice by round {}", id, round);
            assert!(world.store.contains(id));
        }
    }
    assert_eq!(world.delivered.len(), 20);
}

#[test]
fn a_failed_enrichment_passes_one_episode_by() {
    let mut world = World::at(TODAY + 3_600);
    world.fail_enrich.insert("b".to_string());
    let feed = || entries(vec![episode("a", TODAY + 1, TODAY + 1), episode("b", TODAY + 2, TODAY + 2), episode("c", TODAY + 3, TODAY + 3)]);
    assert!(world.cycle(feed()).is_ok());
    assert_eq!(world.delivered, vec!["a", "c"]);
    assert!(!world.store.contains("b"));
    world.fail_enrich.clear();
    assert!(world.cycle(feed()).is_ok());
    assert_eq!(world.delivered, vec!["a", "c", "b"]);
}

#[test]
fn a_failed_delivery_passes_one_episode_by() {
    let mut world = World::at(TODAY + 3_600);
    world.fail_deliver.insert("a".to_string());
    let feed = || entries(vec![episode("a", TODAY + 1, TODAY + 1), episode("b", TODAY + 2, TODAY + 2)]);
    assert!(world.cycle(feed()).is_ok());
    assert_eq!(world.delivered, vec!["b"]);
    assert_eq!(world.inserted, vec!["b"]);
    world.fail_deliver.clear();
    assert!(world.cycle(feed()).is_ok());
    assert_eq!(world.delivered, vec!["b", "a"]);
}

#[test]
fn a_failed_insert_ends_the_cycle() {
    let mut world = World::at(TODAY + 3_600);
    world.fail_insert.insert("a".to_string());
    let result = world.cycle(entries(vec![episode("a", TODAY + 1, TODAY + 1), episode("b", TODAY + 2, TODAY + 2)]));
    match result {
        Err(ReleaseError::DatabaseError(cause)) => assert_eq!(cause, "disk full"),
        other => panic!("unexpected {:?}", other),
    }
    assert_eq!(world.delivered, vec!["a"]);
    assert!(world.store.is_empty());
}

#[test]
fn a_failed_page_ends_the_cycle() {
    let mut world = World::at(TODAY + 3_600);
    world.fail_feed_at = Some(2);
    let result = world.cycle(entries(vec![episode("a", TODAY + 1, TODAY + 1), episode("b", TODAY + 2, TODAY + 2)]));
    match result {
        Err(ReleaseError::CrunchyrollError(cause)) => assert_eq!(cause, "page failed"),
        other => panic!("unexpected {:?}", other),
    }
    assert!(world.delivered.is_empty());
}

#[test]
fn a_failed_lookup_ends_the_cycle() {
    let mut world = World::at(TODAY + 3_600);
    world.fail_lookup = true;
    let result = world.cycle(entries(vec![episode("a", TODAY + 1, TODAY + 1)]));
    assert!(matches!(result, Err(ReleaseError::DatabaseError(_))));
    assert!(world.delivered.is_empty());
}

#[test]
fn without_a_client_the_cycle_is_over_at_once() {
    let mut world = World::at(TODAY + 3_600);
    world.fail_connect = true;
    let result = world.cycle(entries(vec![episode("a", TODAY + 1, TODAY + 1)]));
    assert!(matches!(result, Err(ReleaseError::CrunchyrollError(_))));
    assert_eq!(world.trail, vec!["connect"]);
    assert_eq!(world.pulled, 0);
}

#[test]
fn without_locale_names_the_cycle_is_over() {
    let mut world = World::at(TODAY + 3_600);
    world.fail_locales = true;
    let result = world.cycle(entries(vec![episode("a", TODAY + 1, TODAY + 1)]));
    assert!(matches!(result, Err(ReleaseError::ReqwestError(_))));
    assert_eq!(world.trail, vec!["connect", "locales"]);
}

#[test]
fn a_missing_channel_ends_the_cycle() {
    let mut world = World::at(TODAY + 3_600);
    world.channel = None;
    match world.cycle(entries(vec![episode("a", TODAY + 1, TODAY + 1)])) {
        Err(ReleaseError::MissingEnvVar(name)) => assert_eq!(name, "CHANNEL_ID"),
        other => panic!("unexpected {:?}", other),
    }
    world.channel = Some("channel".to_string());
    match world.cycle(entries(vec![episode("a", TODAY + 1, TODAY + 1)])) {
        Err(ReleaseError::InvalidEnvVar(name)) => assert_eq!(name, "CHANNEL_ID"),
        other => panic!("unexpected {:?}", other),
    }
    assert!(world.delivered.is_empty());
}

#[test]
fn each_announcement_is_paused_for_enriched_sent_and_recorded_in_turn() {
    let mut world = World::at(TODAY + 3_600);
    assert!(world.cycle(entries(vec![episode("a", TODAY + 1, TODAY + 1), episode("b", TODAY + 2, TODAY + 2)])).is_ok());
    assert_eq!(
        world.trail,
        vec!["connect", "locales", "pause", "series", "deliver", "insert", "pause", "series", "deliver", "insert"]
    );
    assert_eq!(world.paused, 2);
}

#[test]
fn the_announcement_carries_text_and_channel() {
    let mut world = World::at(TODAY + 3_600);
    world.channel = Some("-100987".to_string());
    let mut dubbed = episode("a", TODAY + 1, TODAY + 1);
    dubbed.audio_locale = "en-US".to_string();
    let expected = make_msg_text(&dubbed, &series().rating, &locales());
    assert!(expected.starts_with("<b>Show (English dub)</b>"));
    assert!(world.cycle(vec![FeedEntry::Episode(dubbed)]).is_ok());
    assert_eq!(world.chats, vec![-100_987]);
    assert_eq!(world.captions, vec![expected]);
}

#[test]
fn a_tick_during_a_cycle_starts_nothing() {
    let now = Timestamp::new(TODAY, 0);
    let (state, action) = background_task(Announcer::Idle, Event::Tick, &now);
    assert!(matches!(action, Action::Connect));
    let (state, action) = background_task(state, Event::Tick, &now);
    assert!(matches!(action, Action::KeepWaiting));
    assert!(matches!(state, Announcer::Connecting));
    let (state, _) = background_task(state, Event::Connected, &now);
    let (state, action) = background_task(state, Event::Tick, &now);
    assert!(matches!(action, Action::KeepWaiting));
    assert!(matches!(state, Announcer::LoadingLocales));
    let (state, _) = background_task(state, Event::Locales(Vec::new()), &now);
    let (state, action) = background_task(state, Event::Tick, &now);
    assert!(matches!(action, Action::KeepWaiting));
    assert!(matches!(state, Announcer::Scanning { pulled: 1, .. }));
}

#[test]
fn at_rest_only_a_tick_counts() {
    let now = Timestamp::new(TODAY, 0);
    for event in [Event::Connected, Event::EndOfFeed, Event::Paused, Event::Delivered, Event::Inserted, Event::Duplicate, Event::Lookup(true)] {
        let (state, action) = background_task(Announcer::Idle, event, &now);
        assert!(matches!(action, Action::KeepWaiting));
        assert!(matches!(state, Announcer::Idle));
    }
}

#[test]
fn a_check_does_not_start_by_itself() {
    let now = Timestamp::new(TODAY, 0);
    let (state, action) = check_releases(Announcer::Idle, Event::Tick, &now);
    assert!(matches!(action, Action::KeepWaiting));
    assert!(matches!(state, Announcer::Idle));
    let (state, action) = check_releases(Announcer::LoadingLocales, Event::Locales(locales()), &now);
    assert!(matches!(action, Action::NextEntry));
    assert!(matches!(state, Announcer::Scanning { pulled: 1, .. }));
}

#[test]
fn a_queue_without_an_episode_at_the_cursor_ends_the_cycle() {
    let now = Timestamp::new(TODAY, 0);
    let state = Announcer::Publishing {
        locales: Vec::new(),
        queue: Vec::new(),
        cursor: 0,
        stage: Stage::Delivering,
        sorted_at: now,
        gated_at: now,
    };
    let (state, action) = background_task(state, Event::Delivered, &now);
    assert!(matches!(action, Action::Finish(Ok(()))));
    assert!(matches!(state, Announcer::Idle));
}

#[test]
fn a_feed_that_repeats_an_identifier_is_taken_at_its_word() {
    let mut world = World::at(TODAY + 3_600);
    assert!(world.cycle(entries(vec![episode("a", TODAY + 1, TODAY + 1), episode("a", TODAY + 1, TODAY + 1)])).is_ok());
    assert_eq!(world.delivered, vec!["a", "a"]);
}
