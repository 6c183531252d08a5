//! What the release check knows of the catalog, the record store and the channel.

use crate::clock::Timestamp;
use vstd::prelude::*;

verus! {

/// One episode as the catalog lists it.
#[derive(Debug)]
pub struct Episode {
    pub id: String,
    pub title: String,
    pub slug_title: String,
    pub description: String,
    pub series_id: String,
    pub series_title: String,
    pub series_slug_title: String,
    pub season_id: String,
    pub season_number: u32,
    pub episode_number: Option<u32>,
    /// The locale code of the audio track, such as `ja-JP`.
    pub audio_locale: String,
    /// The display names of the genres.
    pub categories: Vec<String>,
    pub maturity_ratings: Vec<String>,
    pub duration_minutes: i64,
    pub free_available_date: Timestamp,
    pub premium_available_date: Timestamp,
    pub is_clip: bool,
}

/// One entry of the newest-first feed.
#[derive(Debug)]
pub enum FeedEntry {
    Episode(Episode),
    /// Any other kind of media.
    Other,
}

/// A picture of a series in one resolution.
#[derive(Debug)]
pub struct Image {
    pub source: String,
    pub width: u32,
    pub height: u32,
}

/// The aggregate rating of a series; the average comes as the catalog prints it.
#[derive(Debug)]
pub struct SeriesRating {
    pub average: String,
    pub total: u32,
}

/// What is fetched about the parent series before an episode is announced.
#[derive(Debug)]
pub struct SeriesInfo {
    pub poster_tall: Vec<Image>,
    pub rating: SeriesRating,
}

/// The readable name of an audio locale.
#[derive(Debug)]
pub struct LocaleName {
    pub code: String,
    pub name: String,
}

/// A button under the announcement that opens a link.
#[derive(Debug)]
pub struct LinkButton {
    pub text: String,
    pub url: String,
}

/// One message for the channel.
#[derive(Debug)]
pub struct Announcement {
    pub chat_id: i64,
    pub photo: String,
    pub caption: String,
    pub keyboard: Vec<Vec<LinkButton>>,
}

/// The stored proof that an episode was announced.
#[derive(Debug)]
pub struct AnnouncedRecord {
    pub id: String,
    pub title: String,
    pub description: Option<String>,
    pub series_title: String,
    pub series_id: String,
    pub season_id: String,
    pub number: i64,
    pub season_number: i64,
    pub audio_locale: String,
}

/// A chat user as the store keeps them.
#[derive(Debug)]
pub struct KnownUser {
    pub id: i64,
    pub name: String,
    pub username: Option<String>,
    pub is_admin: bool,
}

} // verus!
