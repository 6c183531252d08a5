//! The release check: its errors, its settings and the message it sends.

use crate::catalog::{Announcement, Episode, Image, LinkButton, LocaleName, SeriesInfo, SeriesRating};
use crate::text::{
    decimal, joined, parse_i64, parsed_i64, push_decimal, push_joined, push_replaced, push_signed_decimal, replaced,
    signed_decimal,
};
use crate::utils::{abbreviated, format_number, genre_line, parse_categories};
use vstd::prelude::*;
use vstd::string::StringExecFns;

verus! {

/// How many feed entries one cycle looks at, and the page size asked of the catalog.
pub const PAGE_SIZE: u32 = 100;

/// The seconds between two ticks of the timer that starts the cycles.
pub const POLL_SECONDS: u64 = 60;

/// The seconds to wait before each announcement, to stay under the channel's rate limit.
pub const PAUSE_SECONDS: u64 = 1;

/// Why a release check, or the set-up for one, failed. Causes from the catalog, the store,
/// the channel and the network are carried as the text they print.
#[derive(Debug)]
pub enum ReleaseError {
    CrunchyrollError(String),
    DatabaseError(String),
    MissingEnvVar(String),
    InvalidEnvVar(String),
    RequestError(String),
    ReqwestError(String),
}

/// The kinds of failure, without their causes.
#[derive(Clone, Copy, Debug, PartialEq, Eq, Structural)]
pub enum ErrorKind {
    Crunchyroll,
    Database,
    MissingEnvVar,
    InvalidEnvVar,
    Request,
    Reqwest,
}

/// The kind of an error.
pub open spec fn error_kind(error: ReleaseError) -> ErrorKind {
    match error {
        ReleaseError::CrunchyrollError(_) => ErrorKind::Crunchyroll,
        ReleaseError::DatabaseError(_) => ErrorKind::Database,
        ReleaseError::MissingEnvVar(_) => ErrorKind::MissingEnvVar,
        ReleaseError::InvalidEnvVar(_) => ErrorKind::InvalidEnvVar,
        ReleaseError::RequestError(_) => ErrorKind::Request,
        ReleaseError::ReqwestError(_) => ErrorKind::Reqwest,
    }
}

/// The words the message of an error of this kind starts with.
pub open spec fn error_prefix(kind: ErrorKind) -> Seq<char> {
    match kind {
        ErrorKind::Crunchyroll => "Crunchyroll error: "@,
        ErrorKind::Database => "Database error: "@,
        ErrorKind::MissingEnvVar => "Missing environment variable: "@,
        ErrorKind::InvalidEnvVar => "Invalid environment variable: "@,
        ErrorKind::Request => "Request error: "@,
        ErrorKind::Reqwest => "Reqwest error: "@,
    }
}

/// The cause or the variable name an error carries.
pub open spec fn error_detail(error: ReleaseError) -> Seq<char> {
    match error {
        ReleaseError::CrunchyrollError(detail) => detail@,
        ReleaseError::DatabaseError(detail) => detail@,
        ReleaseError::MissingEnvVar(detail) => detail@,
        ReleaseError::InvalidEnvVar(detail) => detail@,
        ReleaseError::RequestError(detail) => detail@,
        ReleaseError::ReqwestError(detail) => detail@,
    }
}

impl ReleaseError {
    /// The kind of the error.
    pub fn kind(&self) -> (kind: ErrorKind)
        ensures
            kind == error_kind(*self),
    {
        match self {
            ReleaseError::CrunchyrollError(_) => ErrorKind::Crunchyroll,
            ReleaseError::DatabaseError(_) => ErrorKind::Database,
            ReleaseError::MissingEnvVar(_) => ErrorKind::MissingEnvVar,
            ReleaseError::InvalidEnvVar(_) => ErrorKind::InvalidEnvVar,
            ReleaseError::RequestError(_) => ErrorKind::Request,
            ReleaseError::ReqwestError(_) => ErrorKind::Reqwest,
        }
    }

    /// The message of the error, as it goes to the log.
    pub fn message(&self) -> (text: String)
        ensures
            text@ == error_prefix(error_kind(*self)) + error_detail(*self),
    {
        match self {
            ReleaseError::CrunchyrollError(detail) => String::from_str("Crunchyroll error: ").concat(
                detail.as_str(),
            ),
            ReleaseError::DatabaseError(detail) => String::from_str("Database error: ").concat(
                detail.as_str(),
            ),
            ReleaseError::MissingEnvVar(detail) => String::from_str(
                "Missing environment variable: ",
            ).concat(detail.as_str()),
            ReleaseError::InvalidEnvVar(detail) => String::from_str(
                "Invalid environment variable: ",
            ).concat(detail.as_str()),
            ReleaseError::RequestError(detail) => String::from_str("Request error: ").concat(
                detail.as_str(),
            ),
            ReleaseError::ReqwestError(detail) => String::from_str("Reqwest error: ").concat(
                detail.as_str(),
            ),
        }
    }
}

/// Whether `regex::Regex::new` accepts `pattern`.
pub uninterp spec fn regex_compiles(pattern: Seq<char>) -> bool;

/// What `regex::Regex::replace_all` makes of `text` for the regex compiled from `pattern`:
/// every non-overlapping match, leftmost first, replaced by the expansion of `replacement`.
pub uninterp spec fn regex_replaced(
    pattern: Seq<char>,
    text: Seq<char>,
    replacement: Seq<char>,
) -> Seq<char>;

/// `regex::Regex::new` on `pattern`, then `regex::Regex::replace_all` on `text`. Compiling
/// fails or succeeds by the pattern alone, and the replaced text is a function of the three
/// arguments; neither is spelled out here.
#[verifier::external_body]
fn regex_replace_all(pattern: &str, text: &str, replacement: &str) -> (out: Option<String>)
    ensures
        out is Some <==> regex_compiles(pattern@),
        out matches Some(replaced_text) ==> replaced_text@ == regex_replaced(
            pattern@,
            text@,
            replacement@,
        ),
{
    match regex::Regex::new(pattern) {
        Ok(re) => Some(re.replace_all(text, replacement).into_owned()),
        Err(_) => None,
    }
}

/// `text` with every run of underscores shortened to one; the shortening is the regex
/// replacement of `_+` by `_`.
pub open spec fn squeezed(text: Seq<char>) -> Seq<char> {
    if regex_compiles("_+"@) {
        regex_replaced("_+"@, text, "_"@)
    } else {
        text
    }
}

/// A slug as a hashtag body: hyphens become underscores, runs of underscores become one.
pub open spec fn slug_tag(slug: Seq<char>) -> Seq<char> {
    squeezed(replaced(slug, '-', '_'))
}

/// Chooses between the squeezed text and the text as it was.
pub fn squeezed_or(text: String, squeezed_text: Option<String>) -> (out: String)
    ensures
        out@ == match squeezed_text {
            Some(short) => short@,
            None => text@,
        },
{
    match squeezed_text {
        Some(short) => short,
        None => text,
    }
}

/// Turns a slug into the body of a hashtag.
pub fn underscored(slug: &str) -> (tag: String)
    ensures
        tag@ == slug_tag(slug@),
{
    let mut plain = String::new();
    push_replaced(&mut plain, slug, '-', '_');
    let short = regex_replace_all("_+", plain.as_str(), "_");
    squeezed_or(plain, short)
}

/// The two hashtags that end an announcement.
pub open spec fn tag_line(episode_tag: Seq<char>, series_tag: Seq<char>) -> Seq<char> {
    seq!['#'] + episode_tag + seq![' ', '#'] + series_tag
}

pub fn make_tags(episode_tag: &str, series_tag: &str) -> (tags: String)
    ensures
        tags@ == tag_line(episode_tag@, series_tag@),
{
    let mut tags = String::new();
    tags.push('#');
    tags.append(episode_tag);
    tags.push(' ');
    tags.push('#');
    tags.append(series_tag);
    tags
}

/// The picture sent when a series has no poster.
pub const FALLBACK_POSTER_IMAGE: &'static str = "https://cdn.jokelbaf.dev/crunchyma/404.png";

/// The number of pixels of a picture.
pub open spec fn area(image: Image) -> int {
    image.width as int * image.height as int
}

/// The index of the largest picture, the last one among equally large ones; -1 if there is none.
pub open spec fn largest(images: Seq<Image>) -> int
    decreases images.len(),
{
    if images.len() == 0 {
        -1
    } else {
        let before = largest(images.drop_last());
        if before < 0 || area(images.last()) >= area(images[before]) {
            images.len() - 1
        } else {
            before
        }
    }
}

/// The address of the picture that goes with an announcement.
pub open spec fn poster_source(images: Seq<Image>) -> Seq<char> {
    if images.len() == 0 {
        FALLBACK_POSTER_IMAGE@
    } else {
        images[largest(images)].source@
    }
}

/// `largest` picks a picture that no other exceeds and that none behind it equals.
pub proof fn lemma_largest(images: Seq<Image>)
    requires
        images.len() > 0,
    ensures
        0 <= largest(images) < images.len(),
        forall|i: int| 0 <= i < images.len() ==> area(#[trigger] images[i]) <= area(images[largest(images)]),
        forall|i: int|
            largest(images) < i < images.len() ==> area(#[trigger] images[i]) < area(
                images[largest(images)],
            ),
    decreases images.len(),
{
    let front = images.drop_last();
    if front.len() == 0 {
        assert(largest(front) == -1);
    } else {
        lemma_largest(front);
        assert forall|i: int| 0 <= i < images.len() implies area(#[trigger] images[i]) <= area(
            images[largest(images)],
        ) by {
            if i < front.len() {
                assert(images[i] == front[i]);
            }
        }
        assert forall|i: int| largest(images) < i < images.len() implies area(
            #[trigger] images[i],
        ) < area(images[largest(images)]) by {
            if i < front.len() {
                assert(images[i] == front[i]);
            }
        }
    }
}

fn pixels(image: &Image) -> (count: u64)
    ensures
        count == area(*image),
{
    let width = image.width as u64;
    let height = image.height as u64;
    assert(width * height <= 0xffff_ffff * 0xffff_ffff) by (nonlinear_arith)
        requires
            width <= 0xffff_ffff,
            height <= 0xffff_ffff,
    ;
    width * height
}

/// Picks the poster of the highest resolution, or the fallback picture.
pub fn pick_poster(images: &Vec<Image>) -> (source: String)
    ensures
        source@ == poster_source(images@),
{
    if images.len() == 0 {
        return String::from_str(FALLBACK_POSTER_IMAGE);
    }
    let mut best: usize = 0;
    let mut i: usize = 1;
    assert(largest(images@.take(1).drop_last()) == -1);
    while i < images.len()
        invariant
            1 <= i <= images.len(),
            best == largest(images@.take(i as int)),
            best < i,
        decreases images.len() - i,
    {
        proof {
            assert(images@.take(i + 1).drop_last() == images@.take(i as int));
            assert(images@.take(i as int)[best as int] == images@[best as int]);
        }
        if pixels(&images[i]) >= pixels(&images[best]) {
            best = i;
        }
        i = i + 1;
    }
    assert(images@.take(images.len() as int) == images@);
    images[best].source.clone()
}

/// The name of the language behind a locale code as the list from `start` on has it; the
/// code itself where the list does not know it.
pub open spec fn language_of(locales: Seq<LocaleName>, start: int, code: Seq<char>) -> Seq<char>
    decreases locales.len() - start,
{
    if start < 0 || start >= locales.len() {
        code
    } else if locales[start].code@ == code {
        locales[start].name@
    } else {
        language_of(locales, start + 1, code)
    }
}

/// The heading of an announcement: the series title, and for any audio but Japanese the
/// language of the dub.
pub open spec fn display_title(
    series_title: Seq<char>,
    audio_locale: Seq<char>,
    locales: Seq<LocaleName>,
) -> Seq<char> {
    if audio_locale == "ja-JP"@ {
        series_title
    } else {
        series_title + " ("@ + language_of(locales, 0, audio_locale) + " dub)"@
    }
}

/// Looks up the language of a locale code.
pub fn language_name(locales: &Vec<LocaleName>, code: &String) -> (name: String)
    ensures
        name@ == language_of(locales@, 0, code@),
{
    let mut i: usize = 0;
    while i < locales.len()
        invariant
            language_of(locales@, i as int, code@) == language_of(locales@, 0, code@),
        decreases locales.len() - i,
    {
        if locales[i].code == *code {
            return locales[i].name.clone();
        }
        i = i + 1;
    }
    code.clone()
}

/// Writes the heading of an announcement.
pub fn make_title(series_title: &String, audio_locale: &String, locales: &Vec<LocaleName>) -> (title:
    String)
    ensures
        title@ == display_title(series_title@, audio_locale@, locales@),
{
    if *audio_locale == String::from_str("ja-JP") {
        series_title.clone()
    } else {
        let language = language_name(locales, audio_locale);
        let mut title = series_title.clone();
        title.append(" (");
        title.append(language.as_str());
        title.append(" dub)");
        title
    }
}

/// The text of an announcement put together from its parts.
pub open spec fn caption_text(
    title: Seq<char>,
    genres: Seq<char>,
    description: Seq<char>,
    season: nat,
    episode: nat,
    minutes: int,
    average: Seq<char>,
    votes: Seq<char>,
    ages: Seq<char>,
    tags: Seq<char>,
) -> Seq<char> {
    "<b>"@ + title + "</b>\n\n<b>Genres:</b> "@ + genres + "\n\n<blockquote><b>About:</b>\n"@
        + description + "\n\nSeason: <b>"@ + decimal(season) + "</b>\nEpisode: <b>"@ + decimal(
        episode,
    ) + "</b>\nDuration: <b>"@ + signed_decimal(minutes) + " mins</b>\nSeries rating: <b>"@
        + average + "\u{e2}\u{2dc}\u{2026} ("@ + votes + ")</b>\nAge restrictions: <b>"@ + ages
        + "</b></blockquote>\n\n"@ + tags
}

/// The number an episode is announced under: its own, or 0 where the catalog gives none.
pub open spec fn shown_number(number: Option<u32>) -> nat {
    match number {
        Some(n) => n as nat,
        None => 0,
    }
}

/// The text of the announcement of an episode.
pub open spec fn msg_text(episode: Episode, rating: SeriesRating, locales: Seq<LocaleName>) -> Seq<
    char,
> {
    caption_text(
        display_title(episode.series_title@, episode.audio_locale@, locales),
        genre_line(episode.categories.deep_view()),
        episode.description@,
        episode.season_number as nat,
        shown_number(episode.episode_number),
        episode.duration_minutes as int,
        rating.average@,
        abbreviated(rating.total as nat),
        joined(episode.maturity_ratings.deep_view(), ", "@),
        tag_line(slug_tag(episode.slug_title@), slug_tag(episode.series_slug_title@)),
    )
}

/// Puts the text of an announcement together.
pub fn compose_caption(
    title: &str,
    genres: &str,
    episode: &Episode,
    rating: &SeriesRating,
    tags: &str,
) -> (text: String)
    ensures
        text@ == caption_text(
            title@,
            genres@,
            episode.description@,
            episode.season_number as nat,
            shown_number(episode.episode_number),
            episode.duration_minutes as int,
            rating.average@,
            abbreviated(rating.total as nat),
            joined(episode.maturity_ratings.deep_view(), ", "@),
            tags@,
        ),
{
    let mut text = String::from_str("<b>");
    text.append(title);
    text.append("</b>\n\n<b>Genres:</b> ");
    text.append(genres);
    text.append("\n\n<blockquote><b>About:</b>\n");
    text.append(episode.description.as_str());
    text.append("\n\nSeason: <b>");
    push_decimal(&mut text, episode.season_number as u64);
    text.append("</b>\nEpisode: <b>");
    let number: u32 = match episode.episode_number {
        Some(n) => n,
        None => 0,
    };
    push_decimal(&mut text, number as u64);
    text.append("</b>\nDuration: <b>");
    push_signed_decimal(&mut text, episode.duration_minutes);
    text.append(" mins</b>\nSeries rating: <b>");
    text.append(rating.average.as_str());
    text.append("\u{e2}\u{2dc}\u{2026} (");
    let votes = format_number(rating.total);
    text.append(votes.as_str());
    text.append(")</b>\nAge restrictions: <b>");
    push_joined(&mut text, &episode.maturity_ratings, ", ");
    text.append("</b></blockquote>\n\n");
    text.append(tags);
    text
}

/// Writes the text of the announcement of an episode.
pub fn make_msg_text(episode: &Episode, rating: &SeriesRating, locales: &Vec<LocaleName>) -> (text:
    String)
    ensures
        text@ == msg_text(*episode, *rating, locales@),
{
    let episode_tag = underscored(episode.slug_title.as_str());
    let series_tag = underscored(episode.series_slug_title.as_str());
    let tags = make_tags(episode_tag.as_str(), series_tag.as_str());
    let title = make_title(&episode.series_title, &episode.audio_locale, locales);
    let genres = parse_categories(&episode.categories);
    compose_caption(title.as_str(), genres.as_str(), episode, rating, tags.as_str())
}

/// Whether `keyboard` is the one row of two link buttons that goes under the announcement of
/// `episode`: one to the series, one to the episode.
pub open spec fn keyboard_for(keyboard: Vec<Vec<LinkButton>>, episode: Episode) -> bool {
    &&& keyboard@.len() == 1
    &&& keyboard@[0]@.len() == 2
    &&& keyboard@[0]@[0].text@ == "View Anime"@
    &&& keyboard@[0]@[0].url@ == "https://www.crunchyroll.com/series/"@ + episode.series_id@
    &&& keyboard@[0]@[1].text@ == "Watch Episode"@
    &&& keyboard@[0]@[1].url@ == "https://www.crunchyroll.com/watch/"@ + episode.id@
}

/// Makes the link buttons that go under the announcement of an episode.
pub fn make_keyboard(episode: &Episode) -> (keyboard: Vec<Vec<LinkButton>>)
    ensures
        keyboard_for(keyboard, *episode),
{
    let series_button = LinkButton {
        text: String::from_str("View Anime"),
        url: String::from_str("https://www.crunchyroll.com/series/").concat(
            episode.series_id.as_str(),
        ),
    };
    let episode_button = LinkButton {
        text: String::from_str("Watch Episode"),
        url: String::from_str("https://www.crunchyroll.com/watch/").concat(episode.id.as_str()),
    };
    let mut row: Vec<LinkButton> = Vec::new();
    row.push(series_button);
    row.push(episode_button);
    let mut keyboard: Vec<Vec<LinkButton>> = Vec::new();
    keyboard.push(row);
    keyboard
}

/// The name of the setting that holds the channel to announce in.
pub open spec fn channel_variable() -> Seq<char> {
    "CHANNEL_ID"@
}

/// The channel a setting names: the integer it writes; a missing setting and one that
/// writes no 64-bit integer fail in their own ways, each naming the setting.
pub open spec fn channel_of(raw: Option<Seq<char>>) -> Result<i64, (ErrorKind, Seq<char>)> {
    match raw {
        None => Err((ErrorKind::MissingEnvVar, channel_variable())),
        Some(text) => match parsed_i64(text) {
            Some(id) => Ok(id),
            None => Err((ErrorKind::InvalidEnvVar, channel_variable())),
        },
    }
}

/// A result with its error reduced to kind and detail.
pub open spec fn channel_outcome(channel: Result<i64, ReleaseError>) -> Result<
    i64,
    (ErrorKind, Seq<char>),
> {
    match channel {
        Ok(id) => Ok(id),
        Err(error) => Err((error_kind(error), error_detail(error))),
    }
}

/// Reads the channel to announce in from the text of its setting: a missing setting and one
/// that is no 64-bit integer are told apart.
pub fn parse_channel_id(raw: Option<&str>) -> (channel: Result<i64, ReleaseError>)
    ensures
        channel_outcome(channel) == channel_of(
            match raw {
                Some(text) => Some(text@),
                None => None,
            },
        ),
{
    match raw {
        None => Err(ReleaseError::MissingEnvVar(String::from_str("CHANNEL_ID"))),
        Some(text) => match parse_i64(text) {
            Some(id) => Ok(id),
            None => Err(ReleaseError::InvalidEnvVar(String::from_str("CHANNEL_ID"))),
        },
    }
}

/// Whether `message` is the announcement of `episode` for the channel `chat_id`.
pub open spec fn announces(
    message: Announcement,
    episode: Episode,
    series: SeriesInfo,
    locales: Seq<LocaleName>,
    chat_id: i64,
) -> bool {
    &&& message.chat_id == chat_id
    &&& message.photo@ == poster_source(series.poster_tall@)
    &&& message.caption@ == msg_text(episode, series.rating, locales)
    &&& keyboard_for(message.keyboard, episode)
}

/// Builds the announcement of an episode.
pub fn make_announcement(
    episode: &Episode,
    series: &SeriesInfo,
    locales: &Vec<LocaleName>,
    chat_id: i64,
) -> (message: Announcement)
    ensures
        announces(message, *episode, *series, locales@, chat_id),
{
    Announcement {
        chat_id,
        photo: pick_poster(&series.poster_tall),
        caption: make_msg_text(episode, &series.rating, locales),
        keyboard: make_keyboard(episode),
    }
}

/// Where the names of the audio locales are fetched from.
pub const AUDIO_LOCALES_URL: &'static str =
    "https://static.crunchyroll.com/config/i18n/v3/audio_languages.json";

/// The user agent the catalog client presents.
pub const CRUNCHYROLL_HEADER: &'static str =
    "Crunchyroll/4.90.2 (bundle_identifier:com.crunchyroll.iphone; build_number:4403585.457501952) iOS/26.2.0 Gravity/4.90.2";

/// What a catalog client is made and logged in with.
#[derive(Debug)]
pub struct ClientSettings {
    pub email: String,
    pub password: String,
    pub user_agent: String,
    pub device_id: String,
    pub device_type: String,
    pub device_name: Option<String>,
}

/// `uuid::Uuid::new_v4`, written out by its `Display`: a random identifier in hyphenated
/// form, which is 36 characters long. Nothing else is known of it.
#[verifier::external_body]
fn random_device_id() -> (id: String)
    ensures
        id@.len() == 36,
{
    uuid::Uuid::new_v4().to_string()
}

/// Why no client can be made from these settings, if that is so: the e-mail address is
/// asked for first, the password second.
pub open spec fn settings_failure(email: Option<String>, password: Option<String>) -> Option<
    (ErrorKind, Seq<char>),
> {
    if email is None {
        Some((ErrorKind::MissingEnvVar, "CRUNCHYROLL_EMAIL"@))
    } else if password is None {
        Some((ErrorKind::MissingEnvVar, "CRUNCHYROLL_PASSWORD"@))
    } else {
        None
    }
}

/// Whether `settings` are the ones made from the given e-mail address, password and device
/// identifier `device_id`.
pub open spec fn settings_from(
    settings: ClientSettings,
    email: String,
    password: String,
    device_id: String,
) -> bool {
    &&& settings.email == email
    &&& settings.password == password
    &&& settings.device_id == device_id
    &&& settings.user_agent@ == CRUNCHYROLL_HEADER@
    &&& settings.device_type@ == "iPhone 15"@
    &&& settings.device_name matches Some(name) && name@ == "iPhone 15"@
}

/// Puts the settings of a client together, with the device identifier to use.
pub fn client_settings(email: Option<String>, password: Option<String>, device_id: String) -> (settings:
    Result<ClientSettings, ReleaseError>)
    ensures
        match settings {
            Ok(made) => email matches Some(address) && password matches Some(secret)
                && settings_from(made, address, secret, device_id),
            Err(error) => settings_failure(email, password) == Some(
                (error_kind(error), error_detail(error)),
            ),
        },
{
    let email = match email {
        Some(address) => address,
        None => {
            return Err(ReleaseError::MissingEnvVar(String::from_str("CRUNCHYROLL_EMAIL")));
        },
    };
    let password = match password {
        Some(secret) => secret,
        None => {
            return Err(ReleaseError::MissingEnvVar(String::from_str("CRUNCHYROLL_PASSWORD")));
        },
    };
    Ok(
        ClientSettings {
            email,
            password,
            user_agent: String::from_str(CRUNCHYROLL_HEADER),
            device_id,
            device_type: String::from_str("iPhone 15"),
            device_name: Some(String::from_str("iPhone 15")),
        },
    )
}

/// Reads the settings of a catalog client. Without an e-mail address or a password there is
/// none; without a device identifier a random one is made up.
pub fn create_client(
    email: Option<String>,
    password: Option<String>,
    device_uuid: Option<String>,
) -> (settings: Result<ClientSettings, ReleaseError>)
    ensures
        match settings {
            Ok(made) => {
                &&& email matches Some(address) && password matches Some(secret) && settings_from(
                    made,
                    address,
                    secret,
                    made.device_id,
                )
                &&& match device_uuid {
                    Some(given) => made.device_id == given,
                    None => made.device_id@.len() == 36,
                }
            },
            Err(error) => settings_failure(email, password) == Some(
                (error_kind(error), error_detail(error)),
            ),
        },
{
    if email.is_none() || password.is_none() {
        return client_settings(email, password, String::new());
    }
    let device_id = match device_uuid {
        Some(given) => given,
        None => random_device_id(),
    };
    client_settings(email, password, device_id)
}

} // verus!
