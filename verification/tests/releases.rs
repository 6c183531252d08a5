use crunchyma::catalog::{Episode, Image, LocaleName, SeriesInfo, SeriesRating};
use crunchyma::clock::Timestamp;
use crunchyma::releases::{
    client_settings, create_client, make_announcement, make_keyboard, make_msg_text, make_tags,
    make_title, parse_channel_id, pick_poster, squeezed_or, underscored, ErrorKind, ReleaseError,
    AUDIO_LOCALES_URL, CRUNCHYROLL_HEADER, FALLBACK_POSTER_IMAGE, PAGE_SIZE, PAUSE_SECONDS,
    POLL_SECONDS,
};

fn episode() -> Episode {
    Episode {
        id: "GEP1".to_string(),
        title: "The First Day".to_string(),
        slug_title: "the-first--day".to_string(),
        description: "A thing happens.".to_string(),
        series_id: "GSER".to_string(),
        series_title: "My Show".to_string(),
        series_slug_title: "my-show".to_string(),
        season_id: "GSEA".to_string(),
        season_number: 2,
        episode_number: Some(5),
        audio_locale: "ja-JP".to_string(),
        categories: vec!["Action".to_string(), "Slice of Life".to_string()],
        maturity_ratings: vec!["TV-14".to_string()],
        duration_minutes: 24,
        free_available_date: Timestamp::new(1_700_000_000, 0),
        premium_available_date: Timestamp::new(1_699_000_000, 0),
        is_clip: false,
    }
}

fn rating() -> SeriesRating {
    SeriesRating { average: "4.8".to_string(), total: 12_345 }
}

fn english() -> Vec<LocaleName> {
    vec![
        LocaleName { code: "ja-JP".to_string(), name: "Japanese".to_string() },
        LocaleName { code: "en-US".to_string(), name: "English".to_string() },
    ]
}

fn image(source: &str, width: u32, height: u32) -> Image {
    Image { source: source.to_string(), width, height }
}

#[test]
fn the_settings_of_the_check() {
    assert_eq!(PAGE_SIZE, 100);
    assert_eq!(PAUSE_SECONDS, 1);
    assert_eq!(POLL_SECONDS, 60);
    assert_eq!(FALLBACK_POSTER_IMAGE, "https://cdn.jokelbaf.dev/crunchyma/404.png");
    assert_eq!(AUDIO_LOCALES_URL, "https://static.crunchyroll.com/config/i18n/v3/audio_languages.json");
    assert!(CRUNCHYROLL_HEADER.starts_with("Crunchyroll/4.90.2 "));
}

#[test]
fn each_error_prints_its_kind_and_cause() {
    let cases = vec![
        (ReleaseError::CrunchyrollError("boom".to_string()), ErrorKind::Crunchyroll, "Crunchyroll error: boom"),
        (ReleaseError::DatabaseError("down".to_string()), ErrorKind::Database, "Database error: down"),
        (ReleaseError::MissingEnvVar("X".to_string()), ErrorKind::MissingEnvVar, "Missing environment variable: X"),
        (ReleaseError::InvalidEnvVar("Y".to_string()), ErrorKind::InvalidEnvVar, "Invalid environment variable: Y"),
        (ReleaseError::RequestError("nope".to_string()), ErrorKind::Request, "Request error: nope"),
        (ReleaseError::ReqwestError("timeout".to_string()), ErrorKind::Reqwest, "Reqwest error: timeout"),
    ];
    for (error, kind, text) in cases {
        assert_eq!(error.kind(), kind);
        assert_eq!(error.message(), text);
    }
}

#[test]
fn slugs_become_hashtag_bodies() {
    assert_eq!(underscored("my-show"), "my_show");
    assert_eq!(underscored("the-first--day"), "the_first_day");
    assert_eq!(underscored("a___b-_-c"), "a_b_c");
    assert_eq!(underscored("plain"), "plain");
    assert_eq!(underscored(""), "");
    assert_eq!(underscored("--"), "_");
}

#[test]
fn the_squeezed_text_is_preferred() {
    assert_eq!(squeezed_or("a__b".to_string(), Some("a_b".to_string())), "a_b");
    assert_eq!(squeezed_or("a__b".to_string(), None), "a__b");
}

#[test]
fn two_hashtags_end_the_message() {
    assert_eq!(make_tags("the_first_day", "my_show"), "#the_first_day #my_show");
}

#[test]
fn japanese_audio_needs_no_remark() {
    assert_eq!(make_title(&"My Show".to_string(), &"ja-JP".to_string(), &english()), "My Show");
}

#[test]
fn a_dub_is_named_by_its_language() {
    assert_eq!(
        make_title(&"My Show".to_string(), &"en-US".to_string(), &english()),
        "My Show (English dub)"
    );
}

#[test]
fn an_unknown_locale_is_named_by_its_code() {
    assert_eq!(
        make_title(&"My Show".to_string(), &"de-DE".to_string(), &english()),
        "My Show (de-DE dub)"
    );
    assert_eq!(
        make_title(&"My Show".to_string(), &"de-DE".to_string(), &Vec::new()),
        "My Show (de-DE dub)"
    );
}

#[test]
fn the_message_text_in_full() {
    let text = make_msg_text(&episode(), &rating(), &english());
    let expected = "<b>My Show</b>\n\n<b>Genres:</b> #action, #slice_of_life\n\n<blockquote><b>About:</b>\nA thing happens.\n\nSeason: <b>2</b>\nEpisode: <b>5</b>\nDuration: <b>24 mins</b>\nSeries rating: <b>4.8\u{e2}\u{2dc}\u{2026} (12.3K)</b>\nAge restrictions: <b>TV-14</b></blockquote>\n\n#the_first_day #my_show";
    assert_eq!(text, expected);
}

#[test]
fn the_message_text_of_a_dub_without_a_number() {
    let mut dubbed = episode();
    dubbed.audio_locale = "en-US".to_string();
    dubbed.episode_number = None;
    dubbed.maturity_ratings = vec!["TV-14".to_string(), "16+".to_string()];
    dubbed.categories = Vec::new();
    dubbed.duration_minutes = 0;
    let votes = SeriesRating { average: "5".to_string(), total: 999 };
    let text = make_msg_text(&dubbed, &votes, &english());
    let expected = "<b>My Show (English dub)</b>\n\n<b>Genres:</b> \n\n<blockquote><b>About:</b>\nA thing happens.\n\nSeason: <b>2</b>\nEpisode: <b>0</b>\nDuration: <b>0 mins</b>\nSeries rating: <b>5\u{e2}\u{2dc}\u{2026} (999)</b>\nAge restrictions: <b>TV-14, 16+</b></blockquote>\n\n#the_first_day #my_show";
    assert_eq!(text, expected);
}

#[test]
fn the_keyboard_links_series_and_episode() {
    let keyboard = make_keyboard(&episode());
    assert_eq!(keyboard.len(), 1);
    assert_eq!(keyboard[0].len(), 2);
    assert_eq!(keyboard[0][0].text, "View Anime");
    assert_eq!(keyboard[0][0].url, "https://www.crunchyroll.com/series/GSER");
    assert_eq!(keyboard[0][1].text, "Watch Episode");
    assert_eq!(keyboard[0][1].url, "https://www.crunchyroll.com/watch/GEP1");
}

#[test]
fn the_largest_poster_is_picked() {
    let posters = vec![image("small", 60, 90), image("large", 1560, 2340), image("medium", 480, 720)];
    assert_eq!(pick_poster(&posters), "large");
}

#[test]
fn among_equally_large_posters_the_last_is_picked() {
    let posters = vec![image("first", 100, 200), image("second", 200, 100), image("third", 10, 10)];
    assert_eq!(pick_poster(&posters), "second");
}

#[test]
fn very_large_posters_are_compared_exactly() {
    let posters = vec![image("huge", u32::MAX, u32::MAX), image("tiny", 1, 1), image("wide", u32::MAX, 2)];
    assert_eq!(pick_poster(&posters), "huge");
}

#[test]
fn without_posters_the_fallback_is_sent() {
    assert_eq!(pick_poster(&Vec::new()), FALLBACK_POSTER_IMAGE);
}

#[test]
fn the_channel_is_read_from_its_setting() {
    assert!(matches!(parse_channel_id(Some("-1001234567890")), Ok(-1_001_234_567_890)));
    assert!(matches!(parse_channel_id(Some("42")), Ok(42)));
}

#[test]
fn a_missing_channel_setting_is_told_apart_from_a_bad_one() {
    match parse_channel_id(None) {
        Err(ReleaseError::MissingEnvVar(name)) => assert_eq!(name, "CHANNEL_ID"),
        other => panic!("unexpected {:?}", other),
    }
    for bad in ["", "abc", "12.5", " 7", "9223372036854775808"] {
        match parse_channel_id(Some(bad)) {
            Err(ReleaseError::InvalidEnvVar(name)) => assert_eq!(name, "CHANNEL_ID"),
            other => panic!("unexpected {:?}", other),
        }
    }
}

#[test]
fn an_announcement_is_put_together() {
    let series = SeriesInfo { poster_tall: vec![image("poster", 10, 20)], rating: rating() };
    let message = make_announcement(&episode(), &series, &english(), -100);
    assert_eq!(message.chat_id, -100);
    assert_eq!(message.photo, "poster");
    assert_eq!(message.caption, make_msg_text(&episode(), &rating(), &english()));
    assert_eq!(message.keyboard[0][1].url, "https://www.crunchyroll.com/watch/GEP1");
}

#[test]
fn client_settings_need_e_mail_and_password() {
    match create_client(None, Some("secret".to_string()), None) {
        Err(ReleaseError::MissingEnvVar(name)) => assert_eq!(name, "CRUNCHYROLL_EMAIL"),
        other => panic!("unexpected {:?}", other),
    }
    match create_client(None, None, Some("device".to_string())) {
        Err(ReleaseError::MissingEnvVar(name)) => assert_eq!(name, "CRUNCHYROLL_EMAIL"),
        other => panic!("unexpected {:?}", other),
    }
    match create_client(Some("me@example.org".to_string()), None, None) {
        Err(ReleaseError::MissingEnvVar(name)) => assert_eq!(name, "CRUNCHYROLL_PASSWORD"),
        other => panic!("unexpected {:?}", other),
    }
}

#[test]
fn client_settings_keep_a_given_device() {
    let settings = create_client(
        Some("me@example.org".to_string()),
        Some("secret".to_string()),
        Some("1234".to_string()),
    )
    .expect("settings");
    assert_eq!(settings.email, "me@example.org");
    assert_eq!(settings.password, "secret");
    assert_eq!(settings.device_id, "1234");
    assert_eq!(settings.device_type, "iPhone 15");
    assert_eq!(settings.device_name, Some("iPhone 15".to_string()));
    assert_eq!(settings.user_agent, CRUNCHYROLL_HEADER);
}

#[test]
fn client_settings_make_up_a_device() {
    let first = create_client(Some("a".to_string()), Some("b".to_string()), None).expect("settings");
    let second = create_client(Some("a".to_string()), Some("b".to_string()), None).expect("settings");
    assert_eq!(first.device_id.chars().count(), 36);
    assert_eq!(second.device_id.chars().count(), 36);
    assert_ne!(first.device_id, second.device_id);
    assert!(uuid::Uuid::parse_str(&first.device_id).is_ok());
}

#[test]
fn client_settings_take_the_device_they_are_given() {
    let settings = client_settings(Some("a".to_string()), Some("b".to_string()), "dev".to_string())
        .expect("settings");
    assert_eq!(settings.device_id, "dev");
    assert!(client_settings(None, Some("b".to_string()), "dev".to_string()).is_err());
}
