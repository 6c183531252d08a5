//! What goes into the record store: the record of an announcement and a newly met user.

use crate::catalog::{AnnouncedRecord, Episode, KnownUser};
use crate::releases::shown_number;
use crate::text::{trim, trimmed};
use vstd::prelude::*;
use vstd::string::StringExecFns;

verus! {

/// Whether `record` is the record of the announcement of `episode`.
pub open spec fn records(record: AnnouncedRecord, episode: Episode) -> bool {
    &&& record.id@ == episode.id@
    &&& record.title@ == episode.title@
    &&& record.description matches Some(text) && text@ == episode.description@
    &&& record.series_title@ == episode.series_title@
    &&& record.series_id@ == episode.series_id@
    &&& record.season_id@ == episode.season_id@
    &&& record.number == shown_number(episode.episode_number)
    &&& record.season_number == episode.season_number
    &&& record.audio_locale@ == episode.audio_locale@
}

/// Makes the record that is stored once `episode` has been announced.
pub fn create_episode(episode: &Episode) -> (record: AnnouncedRecord)
    ensures
        records(record, *episode),
{
    let number: u32 = match episode.episode_number {
        Some(n) => n,
        None => 0,
    };
    AnnouncedRecord {
        id: episode.id.clone(),
        title: episode.title.clone(),
        description: Some(episode.description.clone()),
        series_title: episode.series_title.clone(),
        series_id: episode.series_id.clone(),
        season_id: episode.season_id.clone(),
        number: number as i64,
        season_number: episode.season_number as i64,
        audio_locale: episode.audio_locale.clone(),
    }
}

/// The key a chat user is stored under: the user's number read as a signed 64-bit integer,
/// wrapping round above `i64::MAX`.
pub open spec fn user_key(id: u64) -> int {
    if id <= i64::MAX {
        id as int
    } else {
        id - 0x1_0000_0000_0000_0000
    }
}

/// The name a chat user is stored under: first and last name with a blank between them,
/// trimmed.
pub open spec fn full_name(first_name: Seq<char>, last_name: Option<Seq<char>>) -> Seq<char> {
    trimmed(
        first_name + seq![' '] + match last_name {
            Some(last) => last,
            None => Seq::empty(),
        },
    )
}

/// What to do about a chat user once the store has been asked for them.
#[derive(Debug)]
pub enum UserStep {
    /// The store knows the user.
    Known(KnownUser),
    /// The store does not know the user; this one is to be inserted.
    Create(KnownUser),
}

fn key_of(id: u64) -> (key: i64)
    ensures
        key == user_key(id),
{
    if id <= 0x7fff_ffff_ffff_ffff {
        id as i64
    } else {
        let above: u64 = id - 0x8000_0000_0000_0000;
        above as i64 + i64::MIN
    }
}

/// Decides between the stored user and a new one. A new one is no admin.
pub fn get_or_create_user(
    existing: Option<KnownUser>,
    id: u64,
    first_name: &str,
    last_name: Option<&str>,
    username: Option<String>,
) -> (step: UserStep)
    ensures
        match step {
            UserStep::Known(user) => existing === Some(user),
            UserStep::Create(user) => {
                &&& existing is None
                &&& user.id == user_key(id)
                &&& user.name@ == full_name(
                    first_name@,
                    match last_name {
                        Some(last) => Some(last@),
                        None => None,
                    },
                )
                &&& user.username === username
                &&& !user.is_admin
            },
        },
{
    match existing {
        Some(user) => UserStep::Known(user),
        None => {
            let mut name = String::from_str(first_name);
            name.push(' ');
            match last_name {
                Some(last) => {
                    name.append(last);
                },
                None => {
                    assert(name@ =~= first_name@ + seq![' '] + Seq::<char>::empty());
                },
            }
            let name = String::from_str(trim(name.as_str()));
            UserStep::Create(KnownUser { id: key_of(id), name, username, is_admin: false })
        },
    }
}

} // verus!
