//! What holds of every cycle: the scan is bounded, announcements keep their order, nothing
//! unreleased is announced, and no episode is announced twice.

use crate::catalog::{Episode, FeedEntry, LocaleName};
use crate::clock::{precedes, Timestamp};
use crate::cycle::{
    advanced, announce_from, begin_publishing, scan_on, Event, Model, Plan, Stage,
};
use crate::releases::PAGE_SIZE;
use crate::schedule::{
    distinct_ids, effective_timestamp, lemma_schedule_distinct, lemma_schedule_members,
    lemma_schedule_ordered, lemma_schedule_permutes, next_released, ordered, released, schedule,
};
use vstd::prelude::*;

verus! {

/// The candidates a state holds: found so far, or queued for announcement.
pub open spec fn candidates(state: Model) -> Seq<Episode> {
    match state {
        Model::Scanning { found, .. } => found,
        Model::Checking { found, .. } => found,
        Model::Publishing { queue, .. } => queue,
        _ => Seq::empty(),
    }
}

/// The states the machine can be in: a scan has asked for at least one and at most
/// `PAGE_SIZE` entries and found fewer candidates than that; a queue is in order, and the
/// episode being announced was released when it was turned to.
pub open spec fn well_formed(state: Model) -> bool {
    match state {
        Model::Scanning { pulled, found, .. } => 1 <= pulled <= PAGE_SIZE && found.len() < pulled,
        Model::Checking { pulled, found, .. } => 1 <= pulled <= PAGE_SIZE && found.len() < pulled,
        Model::Publishing { queue, cursor, sorted_at, gated_at, .. } => {
            &&& cursor < queue.len() <= PAGE_SIZE
            &&& ordered(queue, sorted_at)
            &&& released(queue[cursor as int], gated_at)
        },
        _ => true,
    }
}

/// The search for the next released episode stays within the queue and ends on a released one.
pub proof fn lemma_next_released(queue: Seq<Episode>, start: int, now: Timestamp)
    requires
        0 <= start,
    ensures
        start <= next_released(queue, start, now) || next_released(queue, start, now)
            == queue.len(),
        next_released(queue, start, now) <= queue.len(),
        next_released(queue, start, now) < queue.len() ==> released(
            queue[next_released(queue, start, now)],
            now,
        ),
        forall|j: int|
            start <= j < next_released(queue, start, now) ==> !released(#[trigger] queue[j], now),
    decreases queue.len() - start,
{
    if start < queue.len() && !released(queue[start], now) {
        lemma_next_released(queue, start + 1, now);
    }
}

/// Every step leads from a well-formed state to a well-formed state.
pub proof fn lemma_step_keeps_well_formed(state: Model, event: Event, now: Timestamp)
    requires
        well_formed(state),
    ensures
        well_formed(advanced(state, event, now).0),
{
    match state {
        Model::Scanning { locales, pulled, found } => {
            lemma_scan_end_well_formed(locales, found, now);
        },
        Model::Checking { locales, pulled, found, entry } => {
            lemma_scan_end_well_formed(locales, found, now);
            lemma_scan_end_well_formed(locales, found.push(entry), now);
        },
        Model::Publishing { locales, queue, cursor, stage, sorted_at, gated_at } => {
            lemma_next_released(queue, cursor as int + 1, now);
        },
        _ => {},
    }
}

proof fn lemma_scan_end_well_formed(locales: Seq<LocaleName>, found: Seq<Episode>, now: Timestamp)
    requires
        found.len() <= PAGE_SIZE,
    ensures
        well_formed(begin_publishing(locales, found, now).0),
{
    lemma_schedule_ordered(found, now);
    lemma_schedule_permutes(found, now);
    lemma_next_released(schedule(found, now), 0, now);
}

/// A scan never holds more than `PAGE_SIZE` candidates, however long the feed is.
pub proof fn lemma_scan_is_bounded(state: Model)
    requires
        well_formed(state),
    ensures
        candidates(state).len() <= PAGE_SIZE,
{
}

/// The world the machine acts on: the identifiers the store holds a record of, the
/// identifiers announced so far, oldest first, and the identifiers the feed has listed in the
/// cycle under way.
pub struct World {
    pub recorded: Set<Seq<char>>,
    pub announced: Seq<Seq<char>>,
    pub listed: Set<Seq<char>>,
}

/// The machine in its world: its state, what it last asked for, and the world.
pub struct Situation {
    pub state: Model,
    pub pending: Plan,
    pub world: World,
}

/// One thing that happened, and when.
pub struct Happening {
    pub event: Event,
    pub at: Timestamp,
}

/// The world after the answer `event` to the request `pending`: a delivery that succeeded
/// is an announcement, an insert that succeeded is a record, an entry of the feed is listed,
/// and a new cycle starts with nothing listed.
pub open spec fn settled(world: World, pending: Plan, event: Event) -> World {
    match (pending, event) {
        (Plan::Deliver { episode, .. }, Event::Delivered) => World {
            announced: world.announced.push(episode.id@),
            ..world
        },
        (Plan::Insert(episode), Event::Inserted) => World {
            recorded: world.recorded.insert(episode.id@),
            ..world
        },
        (Plan::NextEntry, Event::Entry(FeedEntry::Episode(episode))) => World {
            listed: world.listed.insert(episode.id@),
            ..world
        },
        (Plan::Finish(_), Event::Tick) => World { listed: Set::empty(), ..world },
        _ => world,
    }
}

/// What is taken for granted of the world: the store says truly whether it holds a record,
/// it refuses a record as a duplicate only where it holds one, the feed lists an identifier
/// once in a cycle, and the insert that follows a delivery does not fail for another reason.
pub open spec fn fair(world: World, pending: Plan, event: Event) -> bool {
    match (pending, event) {
        (Plan::FindRecord(id), Event::Lookup(exists)) => exists == world.recorded.contains(id),
        (Plan::Insert(episode), Event::Duplicate) => world.recorded.contains(episode.id@),
        (Plan::Insert(_), Event::Failed(_)) => false,
        (Plan::NextEntry, Event::Entry(FeedEntry::Episode(episode))) => !world.listed.contains(
            episode.id@,
        ),
        _ => true,
    }
}

/// The situation after one happening.
pub open spec fn next(before: Situation, happening: Happening) -> Situation {
    let (state, plan) = advanced(before.state, happening.event, happening.at);
    Situation {
        state,
        pending: if plan is KeepWaiting {
            before.pending
        } else {
            plan
        },
        world: settled(before.world, before.pending, happening.event),
    }
}

/// The situation after a course of happenings.
pub open spec fn situation_after(start: Situation, course: Seq<Happening>) -> Situation
    decreases course.len(),
{
    if course.len() == 0 {
        start
    } else {
        next(situation_after(start, course.drop_last()), course.last())
    }
}

/// Whether the world is fair at every happening of the course.
pub open spec fn fair_course(start: Situation, course: Seq<Happening>) -> bool {
    forall|k: int|
        0 <= k < course.len() ==> {
            let before = situation_after(start, #[trigger] course.take(k));
            fair(before.world, before.pending, course[k].event)
        }
}

/// Whether every announcement among the first `upto` has its record.
pub open spec fn recorded_upto(world: World, upto: int) -> bool {
    forall|i: int| 0 <= i < upto ==> world.recorded.contains(#[trigger] world.announced[i])
}

/// Whether the candidates of a scan are new: listed by the feed in this cycle, no two
/// alike, none with a record.
pub open spec fn fresh(found: Seq<Episode>, world: World) -> bool {
    &&& distinct_ids(found)
    &&& forall|i: int|
        0 <= i < found.len() ==> world.listed.contains((#[trigger] found[i]).id@)
            && !world.recorded.contains(found[i].id@)
}

/// Whether the queue from `from` on holds only episodes without a record, and no two
/// entries of the queue are alike.
pub open spec fn unrecorded_from(queue: Seq<Episode>, from: int, world: World) -> bool {
    &&& distinct_ids(queue)
    &&& forall|j: int| from <= j < queue.len() ==> !world.recorded.contains((#[trigger] queue[j]).id@)
}

/// What holds in every situation the machine gets into in a fair world: what it waits for
/// fits its state; no identifier was announced twice; every announcement has its record,
/// but for the one whose record is being stored; and what is still to be announced has no
/// record.
pub open spec fn consistent(situation: Situation) -> bool {
    let world = situation.world;
    let pending = situation.pending;
    &&& well_formed(situation.state)
    &&& world.announced.no_duplicates()
    &&& match situation.state {
        Model::Idle => pending is Finish && recorded_upto(world, world.announced.len() as int),
        Model::Connecting => pending is Connect && recorded_upto(
            world,
            world.announced.len() as int,
        ),
        Model::LoadingLocales => pending is LoadLocales && recorded_upto(
            world,
            world.announced.len() as int,
        ),
        Model::Scanning { found, .. } => {
            &&& pending is NextEntry
            &&& recorded_upto(world, world.announced.len() as int)
            &&& fresh(found, world)
        },
        Model::Checking { found, entry, .. } => {
            &&& pending == Plan::FindRecord(entry.id@)
            &&& recorded_upto(world, world.announced.len() as int)
            &&& fresh(found, world)
            &&& world.listed.contains(entry.id@)
            &&& forall|i: int| 0 <= i < found.len() ==> (#[trigger] found[i]).id@ != entry.id@
        },
        Model::Publishing { queue, cursor, stage, .. } => {
            &&& unrecorded_from(queue, cursor as int, world)
            &&& match stage {
                Stage::Pausing => pending is Pause && recorded_upto(
                    world,
                    world.announced.len() as int,
                ),
                Stage::Enriching => pending is FetchSeries && recorded_upto(
                    world,
                    world.announced.len() as int,
                ),
                Stage::Delivering => {
                    &&& pending matches Plan::Deliver { episode, .. } && episode
                        == queue[cursor as int]
                    &&& recorded_upto(world, world.announced.len() as int)
                },
                Stage::Recording => {
                    &&& pending == Plan::Insert(queue[cursor as int])
                    &&& world.announced.len() > 0
                    &&& world.announced.last() == queue[cursor as int].id@
                    &&& recorded_upto(world, world.announced.len() - 1)
                },
            }
        },
    }
}

proof fn lemma_turn_is_consistent(
    locales: Seq<LocaleName>,
    queue: Seq<Episode>,
    start: int,
    sorted_at: Timestamp,
    now: Timestamp,
    world: World,
)
    requires
        0 <= start,
        queue.len() <= PAGE_SIZE,
        ordered(queue, sorted_at),
        unrecorded_from(queue, start, world),
        world.announced.no_duplicates(),
        recorded_upto(world, world.announced.len() as int),
    ensures
        consistent(
            Situation {
                state: announce_from(locales, queue, start, sorted_at, now).0,
                pending: announce_from(locales, queue, start, sorted_at, now).1,
                world,
            },
        ),
{
    lemma_next_released(queue, start, now);
}

proof fn lemma_scan_end_is_consistent(
    locales: Seq<LocaleName>,
    found: Seq<Episode>,
    now: Timestamp,
    world: World,
)
    requires
        found.len() <= PAGE_SIZE,
        fresh(found, world),
        world.announced.no_duplicates(),
        recorded_upto(world, world.announced.len() as int),
    ensures
        consistent(
            Situation {
                state: begin_publishing(locales, found, now).0,
                pending: begin_publishing(locales, found, now).1,
                world,
            },
        ),
{
    let queue = schedule(found, now);
    lemma_schedule_ordered(found, now);
    lemma_schedule_permutes(found, now);
    lemma_schedule_distinct(found, now);
    lemma_schedule_members(found, now);
    assert forall|j: int| 0 <= j < queue.len() implies !world.recorded.contains(
        (#[trigger] queue[j]).id@,
    ) by {
        assert(found.contains(queue[j]));
        let i = choose|i: int| 0 <= i < found.len() && found[i] == queue[j];
        assert(!world.recorded.contains(found[i].id@));
    }
    lemma_turn_is_consistent(locales, queue, 0, now, now, world);
}

proof fn lemma_scan_on_is_consistent(
    locales: Seq<LocaleName>,
    pulled: nat,
    found: Seq<Episode>,
    now: Timestamp,
    world: World,
)
    requires
        1 <= pulled <= PAGE_SIZE,
        found.len() <= pulled,
        fresh(found, world),
        world.announced.no_duplicates(),
        recorded_upto(world, world.announced.len() as int),
    ensures
        consistent(
            Situation {
                state: scan_on(locales, pulled, found, now).0,
                pending: scan_on(locales, pulled, found, now).1,
                world,
            },
        ),
{
    if pulled >= PAGE_SIZE {
        lemma_scan_end_is_consistent(locales, found, now, world);
    }
}

/// A fair happening leads from a consistent situation to a consistent situation.
pub proof fn lemma_step_keeps_consistent(before: Situation, happening: Happening)
    requires
        consistent(before),
        fair(before.world, before.pending, happening.event),
    ensures
        consistent(next(before, happening)),
{
    let event = happening.event;
    let now = happening.at;
    let world = before.world;
    let after = settled(world, before.pending, event);
    match before.state {
        Model::Scanning { locales, pulled, found } => {
            match event {
                Event::Entry(FeedEntry::Episode(episode)) => {
                    assert(fresh(found, after));
                    lemma_scan_on_is_consistent(locales, pulled, found, now, after);
                },
                Event::Entry(FeedEntry::Other) => {
                    lemma_scan_on_is_consistent(locales, pulled, found, now, after);
                },
                Event::EndOfFeed => {
                    lemma_scan_end_is_consistent(locales, found, now, after);
                },
                _ => {},
            }
        },
        Model::Checking { locales, pulled, found, entry } => {
            match event {
                Event::Lookup(exists) => {
                    if exists {
                        lemma_scan_on_is_consistent(locales, pulled, found, now, after);
                    } else {
                        let more = found.push(entry);
                        assert(fresh(more, after)) by {
                            assert forall|i: int, j: int| 0 <= i < j < more.len() implies (
                            #[trigger] more[i]).id@ != (#[trigger] more[j]).id@ by {
                                if j < found.len() {
                                    assert(more[i] == found[i] && more[j] == found[j]);
                                } else {
                                    assert(more[i] == found[i]);
                                }
                            }
                            assert forall|i: int| 0 <= i < more.len() implies after.listed.contains(
                                (#[trigger] more[i]).id@,
                            ) && !after.recorded.contains(more[i].id@) by {
                                if i < found.len() {
                                    assert(more[i] == found[i]);
                                }
                            }
                        }
                        lemma_scan_on_is_consistent(locales, pulled, more, now, after);
                    }
                },
                _ => {},
            }
        },
        Model::Publishing { locales, queue, cursor, stage, sorted_at, gated_at } => {
            let here = queue[cursor as int];
            match (stage, event) {
                (Stage::Enriching, Event::Failed(_)) => {
                    lemma_turn_is_consistent(locales, queue, cursor as int + 1, sorted_at, now, after);
                },
                (Stage::Delivering, Event::Failed(_)) => {
                    lemma_turn_is_consistent(locales, queue, cursor as int + 1, sorted_at, now, after);
                },
                (Stage::Delivering, Event::Delivered) => {
                    assert(!world.announced.contains(here.id@)) by {
                        if world.announced.contains(here.id@) {
                            let i = choose|i: int|
                                0 <= i < world.announced.len() && world.announced[i] == here.id@;
                            assert(world.recorded.contains(world.announced[i]));
                        }
                    }
                    assert(after.announced.no_duplicates()) by {
                        assert forall|i: int, j: int|
                            0 <= i < after.announced.len() && 0 <= j < after.announced.len() && i
                                != j implies after.announced[i] != after.announced[j] by {
                            if i < world.announced.len() {
                                assert(world.announced.contains(world.announced[i]));
                            }
                            if j < world.announced.len() {
                                assert(world.announced.contains(world.announced[j]));
                            }
                        }
                    }
                    assert(recorded_upto(after, after.announced.len() - 1)) by {
                        assert forall|i: int| 0 <= i < after.announced.len() - 1 implies
                            after.recorded.contains(#[trigger] after.announced[i]) by {
                            assert(after.announced[i] == world.announced[i]);
                        }
                    }
                },
                (Stage::Recording, Event::Inserted) => {
                    lemma_after_record(queue, cursor as int, world);
                    lemma_turn_is_consistent(locales, queue, cursor as int + 1, sorted_at, now, after);
                },
                (Stage::Recording, Event::Duplicate) => {
                    assert(recorded_upto(after, after.announced.len() as int)) by {
                        assert forall|i: int| 0 <= i < after.announced.len() implies
                            after.recorded.contains(#[trigger] after.announced[i]) by {
                            if i == after.announced.len() - 1 {
                                assert(after.announced[i] == here.id@);
                            }
                        }
                    }
                    lemma_turn_is_consistent(locales, queue, cursor as int + 1, sorted_at, now, after);
                },
                _ => {},
            }
        },
        _ => {},
    }
}

/// Once the record of the episode at `cursor` is stored, every announcement has its record,
/// and the episodes behind it still have none.
proof fn lemma_after_record(queue: Seq<Episode>, cursor: int, world: World)
    requires
        0 <= cursor < queue.len(),
        unrecorded_from(queue, cursor, world),
        world.announced.len() > 0,
        world.announced.last() == queue[cursor].id@,
        recorded_upto(world, world.announced.len() - 1),
    ensures
        ({
            let after = World { recorded: world.recorded.insert(queue[cursor].id@), ..world };
            &&& recorded_upto(after, after.announced.len() as int)
            &&& unrecorded_from(queue, cursor + 1, after)
        }),
{
    let after = World { recorded: world.recorded.insert(queue[cursor].id@), ..world };
    assert forall|i: int| 0 <= i < after.announced.len() implies after.recorded.contains(
        #[trigger] after.announced[i],
    ) by {
        if i < world.announced.len() - 1 {
            assert(world.recorded.contains(world.announced[i]));
        }
    }
    assert forall|j: int| cursor + 1 <= j < queue.len() implies !after.recorded.contains(
        (#[trigger] queue[j]).id@,
    ) by {
        assert(queue[cursor].id@ != queue[j].id@);
    }
}

/// The machine at rest in a world.
pub open spec fn at_rest(world: World) -> Situation {
    Situation { state: Model::Idle, pending: Plan::Finish(None), world }
}

/// The machine at rest is consistent with a world in which every announcement has its
/// record and none was made twice.
pub proof fn lemma_rest_is_consistent(world: World)
    requires
        world.announced.no_duplicates(),
        recorded_upto(world, world.announced.len() as int),
    ensures
        consistent(at_rest(world)),
{
}

/// A fair course leads from a consistent situation to a consistent situation.
pub proof fn lemma_course_keeps_consistent(start: Situation, course: Seq<Happening>)
    requires
        consistent(start),
        fair_course(start, course),
    ensures
        consistent(situation_after(start, course)),
    decreases course.len(),
{
    if course.len() > 0 {
        let front = course.drop_last();
        assert forall|k: int| 0 <= k < front.len() implies {
            let before = situation_after(start, #[trigger] front.take(k));
            fair(before.world, before.pending, front[k].event)
        } by {
            assert(front.take(k) == course.take(k));
            assert(front[k] == course[k]);
        }
        lemma_course_keeps_consistent(start, front);
        assert(course.take(course.len() - 1) == front);
        lemma_step_keeps_consistent(situation_after(start, front), course.last());
    }
}

/// No duplicate announcements. Whatever fairly happens, over any number of cycles: no
/// identifier is announced twice, and every announcement has its record in the store as soon
/// as the insert that follows it is answered.
pub proof fn lemma_no_duplicate_announcements(start: Situation, course: Seq<Happening>)
    requires
        consistent(start),
        fair_course(start, course),
    ensures
        ({
            let end = situation_after(start, course);
            &&& end.world.announced.no_duplicates()
            &&& recorded_upto(end.world, end.world.announced.len() - 1)
            &&& !(end.state matches Model::Publishing { stage: Stage::Recording, .. })
                ==> recorded_upto(end.world, end.world.announced.len() as int)
        }),
{
    lemma_course_keeps_consistent(start, course);
    let end = situation_after(start, course);
    if !(end.state matches Model::Publishing { stage: Stage::Recording, .. }) {
        assert(recorded_upto(end.world, end.world.announced.len() as int));
    }
}

/// Once a record exists, the episode is not announced again: an announcement is only ever
/// asked for where the store holds no record of the episode and none was made before.
pub proof fn lemma_recorded_is_not_announced(situation: Situation, episode: Episode)
    requires
        consistent(situation),
        situation.pending matches Plan::Deliver { episode: due, .. } && due == episode,
        situation.state matches Model::Publishing { stage: Stage::Delivering, .. },
    ensures
        !situation.world.recorded.contains(episode.id@),
        !situation.world.announced.contains(episode.id@),
{
    let world = situation.world;
    if world.announced.contains(episode.id@) {
        let i = choose|i: int| 0 <= i < world.announced.len() && world.announced[i] == episode.id@;
        assert(world.recorded.contains(world.announced[i]));
    }
}

/// An announcement is asked for only while its episode is being delivered.
pub proof fn lemma_announcement_is_pending(before: Situation, happening: Happening)
    requires
        consistent(before),
        advanced(before.state, happening.event, happening.at).1 is Deliver,
    ensures
        next(before, happening).state matches Model::Publishing { stage: Stage::Delivering, .. },
        next(before, happening).pending == advanced(before.state, happening.event, happening.at).1,
{
}

/// Availability gating. An announcement is only asked for of an episode that was released
/// when the machine turned to it, and so, time not running backwards, is released now: an
/// episode whose two dates both lie in the future is never announced.
pub proof fn lemma_unreleased_is_not_announced(state: Model, event: Event, now: Timestamp)
    requires
        well_formed(state),
        advanced(state, event, now).1 is Deliver,
    ensures
        state matches Model::Publishing { gated_at, .. } && released(
            advanced(state, event, now).1->Deliver_episode,
            gated_at,
        ) && (!precedes(now, gated_at) ==> released(
            advanced(state, event, now).1->Deliver_episode,
            now,
        )),
{
}

/// The pause before an announcement begins only for an episode that is released by then;
/// the episodes passed over on the way are not.
pub proof fn lemma_turn_skips_unreleased(
    locales: Seq<LocaleName>,
    queue: Seq<Episode>,
    start: int,
    sorted_at: Timestamp,
    now: Timestamp,
)
    requires
        0 <= start,
    ensures
        match announce_from(locales, queue, start, sorted_at, now).0 {
            Model::Publishing { cursor, .. } => {
                &&& start <= cursor < queue.len()
                &&& released(queue[cursor as int], now)
                &&& forall|j: int| start <= j < cursor ==> !released(#[trigger] queue[j], now)
            },
            _ => forall|j: int| start <= j < queue.len() ==> !released(#[trigger] queue[j], now),
        },
{
    lemma_next_released(queue, start, now);
}

/// Idempotent retry. A record refused as a duplicate counts as stored: the machine goes on
/// exactly as after a successful insert, and the cycle does not fail on it.
pub proof fn lemma_duplicate_counts_as_stored(state: Model, now: Timestamp)
    ensures
        advanced(state, Event::Duplicate, now) == advanced(state, Event::Inserted, now),
        !(advanced(state, Event::Duplicate, now).1 matches Plan::Finish(Some(_))),
        !(advanced(state, Event::Duplicate, now).1 is Deliver),
{
}

/// Within a cycle the queue stays as it is and the cursor never moves back; an announcement
/// is asked for of the episode at the cursor.
pub proof fn lemma_cycle_moves_forward(state: Model, event: Event, now: Timestamp)
    requires
        well_formed(state),
        state is Publishing,
    ensures
        advanced(state, event, now).0 matches Model::Publishing {
            queue,
            cursor,
            sorted_at,
            ..
        } ==> queue == state->Publishing_queue && sorted_at == state->Publishing_sorted_at
            && cursor >= state->Publishing_cursor,
        advanced(state, event, now).1 matches Plan::Deliver { episode, .. } ==> episode
            == state->Publishing_queue[state->Publishing_cursor as int] && advanced(
            state,
            event,
            now,
        ).0 is Publishing,
{
    let queue = state->Publishing_queue;
    let cursor = state->Publishing_cursor;
    lemma_next_released(queue, cursor as int + 1, now);
}

/// What the machine asks for on the happening `k` of a course.
pub open spec fn plan_at(start: Situation, course: Seq<Happening>, k: int) -> Plan {
    advanced(situation_after(start, course.take(k)).state, course[k].event, course[k].at).1
}

/// Whether the machine is announcing, in one and the same cycle, before each of the
/// happenings `from` to `to`.
pub open spec fn one_cycle(start: Situation, course: Seq<Happening>, from: int, to: int) -> bool {
    forall|k: int| from <= k <= to ==> (#[trigger] situation_after(start, course.take(k))).state is Publishing
}

/// Every course leads from a well-formed state to a well-formed state.
pub proof fn lemma_course_keeps_well_formed(start: Situation, course: Seq<Happening>)
    requires
        well_formed(start.state),
    ensures
        well_formed(situation_after(start, course).state),
    decreases course.len(),
{
    if course.len() > 0 {
        lemma_course_keeps_well_formed(start, course.drop_last());
        lemma_step_keeps_well_formed(
            situation_after(start, course.drop_last()).state,
            course.last().event,
            course.last().at,
        );
    }
}

proof fn lemma_cycle_keeps_queue(start: Situation, course: Seq<Happening>, from: int, to: int)
    requires
        well_formed(start.state),
        0 <= from <= to <= course.len(),
        one_cycle(start, course, from, to),
    ensures
        ({
            let first = situation_after(start, course.take(from)).state;
            let last = situation_after(start, course.take(to)).state;
            &&& first is Publishing
            &&& last is Publishing
            &&& last->Publishing_queue == first->Publishing_queue
            &&& last->Publishing_sorted_at == first->Publishing_sorted_at
            &&& last->Publishing_cursor >= first->Publishing_cursor
        }),
    decreases to - from,
{
    assert(situation_after(start, course.take(from)).state is Publishing);
    assert(situation_after(start, course.take(to)).state is Publishing);
    if from < to {
        assert forall|k: int| from <= k <= to - 1 implies (#[trigger] situation_after(
            start,
            course.take(k),
        )).state is Publishing by {}
        lemma_cycle_keeps_queue(start, course, from, to - 1);
        let before = situation_after(start, course.take(to - 1));
        assert(course.take(to).drop_last() == course.take(to - 1));
        assert(course.take(to).last() == course[to - 1]);
        lemma_course_keeps_well_formed(start, course.take(to - 1));
        lemma_cycle_moves_forward(before.state, course[to - 1].event, course[to - 1].at);
    }
}

/// Ordering. Of two announcements asked for in one cycle, the later one is of an episode
/// whose effective timestamp is not earlier: candidates with timestamps T1 < T2 < T3 are
/// announced in that order.
pub proof fn lemma_announcements_keep_order(
    start: Situation,
    course: Seq<Happening>,
    earlier: int,
    later: int,
)
    requires
        well_formed(start.state),
        0 <= earlier <= later < course.len(),
        plan_at(start, course, earlier) is Deliver,
        plan_at(start, course, later) is Deliver,
        one_cycle(start, course, earlier, later),
    ensures
        ({
            let sorted_at = situation_after(start, course.take(earlier)).state->Publishing_sorted_at;
            !precedes(
                effective_timestamp(plan_at(start, course, later)->Deliver_episode, sorted_at),
                effective_timestamp(plan_at(start, course, earlier)->Deliver_episode, sorted_at),
            )
        }),
{
    lemma_cycle_keeps_queue(start, course, earlier, later);
    let first = situation_after(start, course.take(earlier)).state;
    let last = situation_after(start, course.take(later)).state;
    lemma_course_keeps_well_formed(start, course.take(earlier));
    lemma_course_keeps_well_formed(start, course.take(later));
    lemma_cycle_moves_forward(first, course[earlier].event, course[earlier].at);
    lemma_cycle_moves_forward(last, course[later].event, course[later].at);
    let queue = first->Publishing_queue;
    let a = first->Publishing_cursor as int;
    let b = last->Publishing_cursor as int;
    if a < b {
        assert(!precedes(
            effective_timestamp(queue[b], first->Publishing_sorted_at),
            effective_timestamp(queue[a], first->Publishing_sorted_at),
        ));
    }
}

} // verus!
