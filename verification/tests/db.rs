use crunchyma::catalog::{Episode, KnownUser};
use crunchyma::clock::Timestamp;
use crunchyma::db::{create_episode, get_or_create_user, UserStep};

fn episode(number: Option<u32>) -> Episode {
    Episode {
        id: "GEP1".to_string(),
        title: "The First Day".to_string(),
        slug_title: "the-first-day".to_string(),
        description: "A thing happens.".to_string(),
        series_id: "GSER".to_string(),
        series_title: "My Show".to_string(),
        series_slug_title: "my-show".to_string(),
        season_id: "GSEA".to_string(),
        season_number: 3,
        episode_number: number,
        audio_locale: "en-US".to_string(),
        categories: Vec::new(),
        maturity_ratings: Vec::new(),
        duration_minutes: 24,
        free_available_date: Timestamp::new(0, 0),
        premium_available_date: Timestamp::new(0, 0),
        is_clip: false,
    }
}

#[test]
fn the_record_copies_what_was_announced() {
    let record = create_episode(&episode(Some(12)));
    assert_eq!(record.id, "GEP1");
    assert_eq!(record.title, "The First Day");
    assert_eq!(record.description, Some("A thing happens.".to_string()));
    assert_eq!(record.series_title, "My Show");
    assert_eq!(record.series_id, "GSER");
    assert_eq!(record.season_id, "GSEA");
    assert_eq!(record.number, 12);
    assert_eq!(record.season_number, 3);
    assert_eq!(record.audio_locale, "en-US");
}

#[test]
fn an_episode_without_a_number_is_recorded_as_zero() {
    assert_eq!(create_episode(&episode(None)).number, 0);
    let mut last = episode(Some(u32::MAX));
    last.season_number = u32::MAX;
    let record = create_episode(&last);
    assert_eq!(record.number, 4_294_967_295);
    assert_eq!(record.season_number, 4_294_967_295);
}

#[test]
fn a_known_user_is_handed_back() {
    let known = KnownUser { id: 7, name: "Ada L".to_string(), username: None, is_admin: true };
    match get_or_create_user(Some(known), 7, "Other", Some("Name"), Some("other".to_string())) {
        UserStep::Known(user) => {
            assert_eq!(user.id, 7);
            assert_eq!(user.name, "Ada L");
            assert_eq!(user.username, None);
            assert!(user.is_admin);
        }
        other => panic!("unexpected {:?}", other),
    }
}

#[test]
fn a_new_user_gets_a_trimmed_name_and_is_no_admin() {
    match get_or_create_user(None, 42, "Ada", Some("Lovelace"), Some("ada".to_string())) {
        UserStep::Create(user) => {
            assert_eq!(user.id, 42);
            assert_eq!(user.name, "Ada Lovelace");
            assert_eq!(user.username, Some("ada".to_string()));
            assert!(!user.is_admin);
        }
        other => panic!("unexpected {:?}", other),
    }
    match get_or_create_user(None, 43, "Ada", None, None) {
        UserStep::Create(user) => {
            assert_eq!(user.name, "Ada");
            assert_eq!(user.username, None);
        }
        other => panic!("unexpected {:?}", other),
    }
    match get_or_create_user(None, 44, "  Ada ", Some(" B \u{a0}"), None) {
        UserStep::Create(user) => assert_eq!(user.name, "Ada   B"),
        other => panic!("unexpected {:?}", other),
    }
}

#[test]
fn a_user_number_above_the_signed_range_wraps_round() {
    match get_or_create_user(None, u64::MAX, "A", None, None) {
        UserStep::Create(user) => assert_eq!(user.id, -1),
        other => panic!("unexpected {:?}", other),
    }
    match get_or_create_user(None, 1u64 << 63, "A", None, None) {
        UserStep::Create(user) => assert_eq!(user.id, i64::MIN),
        other => panic!("unexpected {:?}", other),
    }
    match get_or_create_user(None, i64::MAX as u64, "A", None, None) {
        UserStep::Create(user) => assert_eq!(user.id, i64::MAX),
        other => panic!("unexpected {:?}", other),
    }
}
