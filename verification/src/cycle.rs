//! The release check as a machine: it is handed what happened and says what to do next.
//! Whoever drives it waits, asks the catalog, the store and the channel, and reports back.

use crate::catalog::{AnnouncedRecord, Announcement, Episode, FeedEntry, LocaleName, SeriesInfo};
use crate::clock::Timestamp;
use crate::db::{create_episode, records};
use crate::releases::{
    announces, channel_of, error_detail, error_kind, make_announcement, parse_channel_id,
    ErrorKind, ReleaseError, PAGE_SIZE, PAUSE_SECONDS,
};
use crate::schedule::{
    admissible, first_released, is_admissible, next_released, schedule, sort_by_release,
};
use vstd::prelude::*;

verus! {

/// How far the announcement of one episode has come.
#[derive(Clone, Copy, Debug, PartialEq, Eq, Structural)]
pub enum Stage {
    /// Waiting out the pause before the announcement.
    Pausing,
    /// Waiting for what the catalog knows of the series.
    Enriching,
    /// Waiting for the channel to take the announcement.
    Delivering,
    /// Waiting for the store to take the record.
    Recording,
}

/// What happened since the machine last spoke.
#[derive(Debug)]
pub enum Event {
    /// The timer ticked.
    Tick,
    /// A catalog client was made and logged in.
    Connected,
    /// The names of the audio locales arrived.
    Locales(Vec<LocaleName>),
    /// The feed gave its next entry.
    Entry(FeedEntry),
    /// The feed has no further entry.
    EndOfFeed,
    /// The store answered whether it holds a record of the episode asked for.
    Lookup(bool),
    /// The pause is over.
    Paused,
    /// The catalog gave the series; `channel` is the channel setting as it stands now.
    Series { info: SeriesInfo, channel: Option<String> },
    /// The channel took the announcement.
    Delivered,
    /// The store took the record.
    Inserted,
    /// The store refused the record because it holds one under that key.
    Duplicate,
    /// What was asked for failed.
    Failed(ReleaseError),
}

/// What the driver is to do next.
#[derive(Debug)]
pub enum Action {
    /// Nothing new: what was asked for before is still awaited.
    KeepWaiting,
    /// Make a catalog client and log in.
    Connect,
    /// Fetch the names of the audio locales.
    LoadLocales,
    /// Take the next entry of the newest-first feed.
    NextEntry,
    /// Ask the store whether it holds a record under this identifier.
    FindRecord(String),
    /// Wait this many seconds.
    Pause(u64),
    /// Fetch the series with this identifier, and its rating.
    FetchSeries(String),
    /// Send this announcement.
    Deliver(Announcement),
    /// Store this record.
    Insert(AnnouncedRecord),
    /// The cycle is over, with this result; wait for the next tick.
    Finish(Result<(), ReleaseError>),
}

/// The state of the machine. `Idle` waits for a tick; every other state is a cycle under way.
#[derive(Debug)]
pub enum Announcer {
    Idle,
    Connecting,
    LoadingLocales,
    Scanning { locales: Vec<LocaleName>, pulled: u32, found: Vec<Episode> },
    Checking { locales: Vec<LocaleName>, pulled: u32, found: Vec<Episode>, entry: Episode },
    Publishing {
        locales: Vec<LocaleName>,
        queue: Vec<Episode>,
        cursor: usize,
        stage: Stage,
        sorted_at: Timestamp,
        gated_at: Timestamp,
    },
}

/// The state of the machine as mathematics sees it.
pub enum Model {
    Idle,
    Connecting,
    LoadingLocales,
    /// `pulled` entries were asked of the feed, the last of them still awaited.
    Scanning { locales: Seq<LocaleName>, pulled: nat, found: Seq<Episode> },
    /// The store is being asked about `entry`, the latest of `pulled` entries.
    Checking { locales: Seq<LocaleName>, pulled: nat, found: Seq<Episode>, entry: Episode },
    /// The episode at `cursor` is being announced; those before it are done with.
    Publishing {
        locales: Seq<LocaleName>,
        queue: Seq<Episode>,
        cursor: nat,
        stage: Stage,
        sorted_at: Timestamp,
        gated_at: Timestamp,
    },
}

impl View for Announcer {
    type V = Model;

    open spec fn view(&self) -> Model {
        match *self {
            Announcer::Idle => Model::Idle,
            Announcer::Connecting => Model::Connecting,
            Announcer::LoadingLocales => Model::LoadingLocales,
            Announcer::Scanning { locales, pulled, found } => Model::Scanning {
                locales: locales@,
                pulled: pulled as nat,
                found: found@,
            },
            Announcer::Checking { locales, pulled, found, entry } => Model::Checking {
                locales: locales@,
                pulled: pulled as nat,
                found: found@,
                entry,
            },
            Announcer::Publishing { locales, queue, cursor, stage, sorted_at, gated_at } => {
                Model::Publishing {
                    locales: locales@,
                    queue: queue@,
                    cursor: cursor as nat,
                    stage,
                    sorted_at,
                    gated_at,
                }
            },
        }
    }
}

/// What an action has to be, said over the values it is built from.
pub enum Plan {
    KeepWaiting,
    Connect,
    LoadLocales,
    NextEntry,
    /// Ask the store about this identifier.
    FindRecord(Seq<char>),
    Pause(nat),
    /// Fetch the series with this identifier.
    FetchSeries(Seq<char>),
    /// Announce `episode` in the channel `chat_id`.
    Deliver { episode: Episode, series: SeriesInfo, locales: Seq<LocaleName>, chat_id: i64 },
    /// Store the record of `episode`.
    Insert(Episode),
    /// End the cycle: with success, or with an error of this kind and detail.
    Finish(Option<(ErrorKind, Seq<char>)>),
}

/// Whether `action` is what `plan` asks for.
pub open spec fn carries_out(action: Action, plan: Plan) -> bool {
    match plan {
        Plan::KeepWaiting => action is KeepWaiting,
        Plan::Connect => action is Connect,
        Plan::LoadLocales => action is LoadLocales,
        Plan::NextEntry => action is NextEntry,
        Plan::FindRecord(id) => action matches Action::FindRecord(asked) && asked@ == id,
        Plan::Pause(seconds) => action matches Action::Pause(wait) && wait == seconds,
        Plan::FetchSeries(id) => action matches Action::FetchSeries(asked) && asked@ == id,
        Plan::Deliver { episode, series, locales, chat_id } => action matches Action::Deliver(
            message,
        ) && announces(message, episode, series, locales, chat_id),
        Plan::Insert(episode) => action matches Action::Insert(record) && records(record, episode),
        Plan::Finish(None) => action matches Action::Finish(Ok(_)),
        Plan::Finish(Some((kind, detail))) => action matches Action::Finish(Err(error))
            && error_kind(error) == kind && error_detail(error) == detail,
    }
}

/// The end of a cycle that failed.
pub open spec fn failed_with(error: ReleaseError) -> (Model, Plan) {
    (Model::Idle, Plan::Finish(Some((error_kind(error), error_detail(error)))))
}

/// Turns to the next episode of the queue, from `start` on, that is released at `now`: the
/// pause before its announcement begins, or the cycle ends where there is none.
pub open spec fn announce_from(
    locales: Seq<LocaleName>,
    queue: Seq<Episode>,
    start: int,
    sorted_at: Timestamp,
    now: Timestamp,
) -> (Model, Plan) {
    let index = next_released(queue, start, now);
    if index >= queue.len() {
        (Model::Idle, Plan::Finish(None))
    } else {
        (
            Model::Publishing {
                locales,
                queue,
                cursor: index as nat,
                stage: Stage::Pausing,
                sorted_at,
                gated_at: now,
            },
            Plan::Pause(PAUSE_SECONDS as nat),
        )
    }
}

/// Ends the scan: the candidates are put in order and the first released one is turned to.
pub open spec fn begin_publishing(locales: Seq<LocaleName>, found: Seq<Episode>, now: Timestamp) -> (
    Model,
    Plan,
) {
    announce_from(locales, schedule(found, now), 0, now, now)
}

/// Goes on with the scan after an entry is dealt with: the next entry is asked for while fewer
/// than `PAGE_SIZE` were, else the scan ends.
pub open spec fn scan_on(
    locales: Seq<LocaleName>,
    pulled: nat,
    found: Seq<Episode>,
    now: Timestamp,
) -> (Model, Plan) {
    if pulled < PAGE_SIZE {
        (Model::Scanning { locales, pulled: pulled + 1, found }, Plan::NextEntry)
    } else {
        begin_publishing(locales, found, now)
    }
}

/// What the announcement of the episode at `cursor` does on an event.
pub open spec fn published(
    locales: Seq<LocaleName>,
    queue: Seq<Episode>,
    cursor: nat,
    stage: Stage,
    sorted_at: Timestamp,
    gated_at: Timestamp,
    event: Event,
    now: Timestamp,
) -> (Model, Plan) {
    let here = Model::Publishing { locales, queue, cursor, stage, sorted_at, gated_at };
    let episode = queue[cursor as int];
    match (stage, event) {
        (Stage::Pausing, Event::Paused) => (
            Model::Publishing { locales, queue, cursor, stage: Stage::Enriching, sorted_at, gated_at },
            Plan::FetchSeries(episode.series_id@),
        ),
        (Stage::Enriching, Event::Series { info, channel }) => match channel_of(
            match channel {
                Some(text) => Some(text@),
                None => None,
            },
        ) {
            Ok(chat_id) => (
                Model::Publishing {
                    locales,
                    queue,
                    cursor,
                    stage: Stage::Delivering,
                    sorted_at,
                    gated_at,
                },
                Plan::Deliver { episode, series: info, locales, chat_id },
            ),
            Err(failure) => (Model::Idle, Plan::Finish(Some(failure))),
        },
        (Stage::Enriching, Event::Failed(_)) => announce_from(
            locales,
            queue,
            cursor as int + 1,
            sorted_at,
            now,
        ),
        (Stage::Delivering, Event::Delivered) => (
            Model::Publishing { locales, queue, cursor, stage: Stage::Recording, sorted_at, gated_at },
            Plan::Insert(episode),
        ),
        (Stage::Delivering, Event::Failed(_)) => announce_from(
            locales,
            queue,
            cursor as int + 1,
            sorted_at,
            now,
        ),
        (Stage::Recording, Event::Inserted) => announce_from(
            locales,
            queue,
            cursor as int + 1,
            sorted_at,
            now,
        ),
        (Stage::Recording, Event::Duplicate) => announce_from(
            locales,
            queue,
            cursor as int + 1,
            sorted_at,
            now,
        ),
        (Stage::Recording, Event::Failed(error)) => failed_with(error),
        _ => (here, Plan::KeepWaiting),
    }
}

/// What a release check under way does on an event. A failure of the feed or of the store
/// ends the cycle; the failure to enrich or deliver one episode only passes that episode by.
/// An event that does not answer what was asked for changes nothing. A queue whose cursor
/// points past its end has nothing left to announce, and the cycle ends.
pub open spec fn checked(state: Model, event: Event, now: Timestamp) -> (Model, Plan) {
    match state {
        Model::LoadingLocales => match event {
            Event::Locales(names) => (
                Model::Scanning { locales: names@, pulled: 1, found: Seq::empty() },
                Plan::NextEntry,
            ),
            Event::Failed(error) => failed_with(error),
            _ => (state, Plan::KeepWaiting),
        },
        Model::Scanning { locales, pulled, found } => match event {
            Event::Entry(FeedEntry::Episode(episode)) => if admissible(episode, now) {
                (
                    Model::Checking { locales, pulled, found, entry: episode },
                    Plan::FindRecord(episode.id@),
                )
            } else {
                scan_on(locales, pulled, found, now)
            },
            Event::Entry(FeedEntry::Other) => scan_on(locales, pulled, found, now),
            Event::EndOfFeed => begin_publishing(locales, found, now),
            Event::Failed(error) => failed_with(error),
            _ => (state, Plan::KeepWaiting),
        },
        Model::Checking { locales, pulled, found, entry } => match event {
            Event::Lookup(exists) => scan_on(
                locales,
                pulled,
                if exists {
                    found
                } else {
                    found.push(entry)
                },
                now,
            ),
            Event::Failed(error) => failed_with(error),
            _ => (state, Plan::KeepWaiting),
        },
        Model::Publishing { locales, queue, cursor, stage, sorted_at, gated_at } => if cursor
            < queue.len() {
            published(locales, queue, cursor, stage, sorted_at, gated_at, event, now)
        } else {
            (Model::Idle, Plan::Finish(None))
        },
        _ => (state, Plan::KeepWaiting),
    }
}

/// What the machine does on an event. A tick starts a cycle only when none is under way.
pub open spec fn advanced(state: Model, event: Event, now: Timestamp) -> (Model, Plan) {
    match state {
        Model::Idle => match event {
            Event::Tick => (Model::Connecting, Plan::Connect),
            _ => (state, Plan::KeepWaiting),
        },
        Model::Connecting => match event {
            Event::Connected => (Model::LoadingLocales, Plan::LoadLocales),
            Event::Failed(error) => failed_with(error),
            _ => (state, Plan::KeepWaiting),
        },
        _ => checked(state, event, now),
    }
}

/// Whether a state and an action are what the model says they have to be.
pub open spec fn follows(next: (Announcer, Action), expected: (Model, Plan)) -> bool {
    next.0@ == expected.0 && carries_out(next.1, expected.1)
}

fn fail(error: ReleaseError) -> (next: (Announcer, Action))
    ensures
        follows(next, failed_with(error)),
{
    (Announcer::Idle, Action::Finish(Err(error)))
}

fn turn_to(
    locales: Vec<LocaleName>,
    queue: Vec<Episode>,
    start: usize,
    sorted_at: Timestamp,
    now: &Timestamp,
) -> (next: (Announcer, Action))
    ensures
        follows(next, announce_from(locales@, queue@, start as int, sorted_at, *now)),
{
    let index = first_released(&queue, start, now);
    if index >= queue.len() {
        (Announcer::Idle, Action::Finish(Ok(())))
    } else {
        (
            Announcer::Publishing {
                locales,
                queue,
                cursor: index,
                stage: Stage::Pausing,
                sorted_at,
                gated_at: *now,
            },
            Action::Pause(PAUSE_SECONDS),
        )
    }
}

fn start_publishing(locales: Vec<LocaleName>, found: Vec<Episode>, now: &Timestamp) -> (next: (
    Announcer,
    Action,
))
    ensures
        follows(next, begin_publishing(locales@, found@, *now)),
{
    let queue = sort_by_release(found, now);
    turn_to(locales, queue, 0, *now, now)
}

fn continue_scan(locales: Vec<LocaleName>, pulled: u32, found: Vec<Episode>, now: &Timestamp) -> (next:
    (Announcer, Action))
    ensures
        follows(next, scan_on(locales@, pulled as nat, found@, *now)),
{
    if pulled < PAGE_SIZE {
        (Announcer::Scanning { locales, pulled: pulled + 1, found }, Action::NextEntry)
    } else {
        start_publishing(locales, found, now)
    }
}

fn publish(
    locales: Vec<LocaleName>,
    queue: Vec<Episode>,
    cursor: usize,
    stage: Stage,
    sorted_at: Timestamp,
    gated_at: Timestamp,
    event: Event,
    now: &Timestamp,
) -> (next: (Announcer, Action))
    requires
        cursor < queue.len(),
    ensures
        follows(
            next,
            published(locales@, queue@, cursor as nat, stage, sorted_at, gated_at, event, *now),
        ),
{
    match (stage, event) {
        (Stage::Pausing, Event::Paused) => {
            let series_id = queue[cursor].series_id.clone();
            (
                Announcer::Publishing {
                    locales,
                    queue,
                    cursor,
                    stage: Stage::Enriching,
                    sorted_at,
                    gated_at,
                },
                Action::FetchSeries(series_id),
            )
        },
        (Stage::Enriching, Event::Series { info, channel }) => {
            let setting: Option<&str> = match &channel {
                Some(text) => Some(text.as_str()),
                None => None,
            };
            match parse_channel_id(setting) {
                Ok(chat_id) => {
                    let message = make_announcement(&queue[cursor], &info, &locales, chat_id);
                    (
                        Announcer::Publishing {
                            locales,
                            queue,
                            cursor,
                            stage: Stage::Delivering,
                            sorted_at,
                            gated_at,
                        },
                        Action::Deliver(message),
                    )
                },
                Err(error) => (Announcer::Idle, Action::Finish(Err(error))),
            }
        },
        (Stage::Enriching, Event::Failed(_)) => turn_to(locales, queue, cursor + 1, sorted_at, now),
        (Stage::Delivering, Event::Delivered) => {
            let record = create_episode(&queue[cursor]);
            (
                Announcer::Publishing {
                    locales,
                    queue,
                    cursor,
                    stage: Stage::Recording,
                    sorted_at,
                    gated_at,
                },
                Action::Insert(record),
            )
        },
        (Stage::Delivering, Event::Failed(_)) => turn_to(locales, queue, cursor + 1, sorted_at, now),
        (Stage::Recording, Event::Inserted) => turn_to(locales, queue, cursor + 1, sorted_at, now),
        (Stage::Recording, Event::Duplicate) => turn_to(locales, queue, cursor + 1, sorted_at, now),
        (Stage::Recording, Event::Failed(error)) => fail(error),
        (stage, _) => (
            Announcer::Publishing { locales, queue, cursor, stage, sorted_at, gated_at },
            Action::KeepWaiting,
        ),
    }
}

/// Takes a release check one step on: from the state it is in and what happened to the state
/// it is in next and what to do now.
pub fn check_releases(state: Announcer, event: Event, now: &Timestamp) -> (next: (
    Announcer,
    Action,
))
    ensures
        follows(next, checked(state@, event, *now)),
{
    match state {
        Announcer::LoadingLocales => match event {
            Event::Locales(names) => (
                Announcer::Scanning { locales: names, pulled: 1, found: Vec::new() },
                Action::NextEntry,
            ),
            Event::Failed(error) => fail(error),
            _ => (Announcer::LoadingLocales, Action::KeepWaiting),
        },
        Announcer::Scanning { locales, pulled, found } => match event {
            Event::Entry(FeedEntry::Episode(episode)) => {
                if is_admissible(&episode, now) {
                    let id = episode.id.clone();
                    (
                        Announcer::Checking { locales, pulled, found, entry: episode },
                        Action::FindRecord(id),
                    )
                } else {
                    continue_scan(locales, pulled, found, now)
                }
            },
            Event::Entry(FeedEntry::Other) => continue_scan(locales, pulled, found, now),
            Event::EndOfFeed => start_publishing(locales, found, now),
            Event::Failed(error) => fail(error),
            _ => (Announcer::Scanning { locales, pulled, found }, Action::KeepWaiting),
        },
        Announcer::Checking { locales, pulled, found, entry } => match event {
            Event::Lookup(exists) => {
                let mut found = found;
                if !exists {
                    found.push(entry);
                }
                continue_scan(locales, pulled, found, now)
            },
            Event::Failed(error) => fail(error),
            _ => (Announcer::Checking { locales, pulled, found, entry }, Action::KeepWaiting),
        },
        Announcer::Publishing { locales, queue, cursor, stage, sorted_at, gated_at } => {
            if cursor < queue.len() {
                publish(locales, queue, cursor, stage, sorted_at, gated_at, event, now)
            } else {
                (Announcer::Idle, Action::Finish(Ok(())))
            }
        },
        other => (other, Action::KeepWaiting),
    }
}

/// Takes the machine one step on. `Announcer::Idle` is where it starts; a tick there begins
/// a cycle, and the cycle ends with `Action::Finish`, back in `Announcer::Idle`.
pub fn background_task(state: Announcer, event: Event, now: &Timestamp) -> (next: (
    Announcer,
    Action,
))
    ensures
        follows(next, advanced(state@, event, *now)),
{
    match state {
        Announcer::Idle => match event {
            Event::Tick => (Announcer::Connecting, Action::Connect),
            _ => (Announcer::Idle, Action::KeepWaiting),
        },
        Announcer::Connecting => match event {
            Event::Connected => (Announcer::LoadingLocales, Action::LoadLocales),
            Event::Failed(error) => fail(error),
            _ => (Announcer::Connecting, Action::KeepWaiting),
        },
        under_way => check_releases(under_way, event, now),
    }
}

} // verus!
