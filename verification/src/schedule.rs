//! Which episodes a cycle admits, and in which order it announces them.

use crate::catalog::Episode;
use crate::clock::{day_number, precedes, Timestamp};
use crate::utils::{is_in_past, is_today};
use vstd::prelude::*;

verus! {

/// An episode is admitted by the scan when it is no clip and becomes available today,
/// for free or for premium viewers.
pub open spec fn admissible(episode: Episode, now: Timestamp) -> bool {
    !episode.is_clip && (day_number(episode.free_available_date) == day_number(now) || day_number(
        episode.premium_available_date,
    ) == day_number(now))
}

/// The instant an episode is ordered by: its free date if that is today, else its premium date.
pub open spec fn effective_timestamp(episode: Episode, now: Timestamp) -> Timestamp {
    if day_number(episode.free_available_date) == day_number(now) {
        episode.free_available_date
    } else {
        episode.premium_available_date
    }
}

/// An episode is released once one of its two dates lies in the past.
pub open spec fn released(episode: Episode, now: Timestamp) -> bool {
    precedes(episode.free_available_date, now) || precedes(episode.premium_available_date, now)
}

/// `episode` put into `queue` behind every entry that is not later than it.
pub open spec fn enqueued(queue: Seq<Episode>, episode: Episode, now: Timestamp) -> Seq<Episode>
    decreases queue.len(),
{
    if queue.len() == 0 {
        seq![episode]
    } else if precedes(effective_timestamp(episode, now), effective_timestamp(queue.last(), now)) {
        enqueued(queue.drop_last(), episode, now).push(queue.last())
    } else {
        queue.push(episode)
    }
}

/// The candidates in announcing order: earliest effective timestamp first, and candidates
/// with equal timestamps in the order the scan found them.
pub open spec fn schedule(found: Seq<Episode>, now: Timestamp) -> Seq<Episode>
    decreases found.len(),
{
    if found.len() == 0 {
        Seq::empty()
    } else {
        enqueued(schedule(found.drop_last(), now), found.last(), now)
    }
}

/// The first index from `start` on whose episode is released, or the length of the queue.
pub open spec fn next_released(queue: Seq<Episode>, start: int, now: Timestamp) -> int
    decreases queue.len() - start,
{
    if start < 0 || start >= queue.len() {
        queue.len() as int
    } else if released(queue[start], now) {
        start
    } else {
        next_released(queue, start + 1, now)
    }
}

pub fn is_admissible(episode: &Episode, now: &Timestamp) -> (yes: bool)
    ensures
        yes == admissible(*episode, *now),
{
    !episode.is_clip && (is_today(&episode.free_available_date, now) || is_today(
        &episode.premium_available_date,
        now,
    ))
}

pub fn effective_time(episode: &Episode, now: &Timestamp) -> (t: Timestamp)
    ensures
        t == effective_timestamp(*episode, *now),
{
    if is_today(&episode.free_available_date, now) {
        episode.free_available_date
    } else {
        episode.premium_available_date
    }
}

pub fn is_released(episode: &Episode, now: &Timestamp) -> (yes: bool)
    ensures
        yes == released(*episode, *now),
{
    is_in_past(&episode.free_available_date, now) || is_in_past(
        &episode.premium_available_date,
        now,
    )
}

/// Putting an episode into a queue means inserting it in front of the entries that are
/// later than it, where those entries form the tail of the queue.
proof fn lemma_enqueued_is_insert(queue: Seq<Episode>, episode: Episode, now: Timestamp, pos: int)
    requires
        0 <= pos <= queue.len(),
        forall|j: int|
            pos <= j < queue.len() ==> precedes(
                effective_timestamp(episode, now),
                effective_timestamp(#[trigger] queue[j], now),
            ),
        pos > 0 ==> !precedes(
            effective_timestamp(episode, now),
            effective_timestamp(queue[pos - 1], now),
        ),
    ensures
        enqueued(queue, episode, now) == queue.insert(pos, episode),
    decreases queue.len(),
{
    if queue.len() == 0 {
        assert(queue.insert(pos, episode) =~= seq![episode]);
    } else if precedes(effective_timestamp(episode, now), effective_timestamp(queue.last(), now)) {
        assert(pos < queue.len());
        let front = queue.drop_last();
        assert forall|j: int| pos <= j < front.len() implies precedes(
            effective_timestamp(episode, now),
            effective_timestamp(#[trigger] front[j], now),
        ) by {
            assert(front[j] == queue[j]);
        }
        lemma_enqueued_is_insert(front, episode, now, pos);
        assert(front.insert(pos, episode).push(queue.last()) =~= queue.insert(pos, episode));
    } else {
        assert(pos == queue.len());
        assert(queue.push(episode) =~= queue.insert(pos, episode));
    }
}

/// Puts the candidates of a scan into announcing order.
pub fn sort_by_release(found: Vec<Episode>, now: &Timestamp) -> (queue: Vec<Episode>)
    ensures
        queue@ == schedule(found@, *now),
{
    let mut rest = found;
    let mut queue: Vec<Episode> = Vec::new();
    let ghost all = rest@;
    let ghost mut done: int = 0;
    while rest.len() > 0
        invariant
            0 <= done <= all.len(),
            rest@ == all.skip(done),
            queue@ == schedule(all.take(done), *now),
        decreases rest.len(),
    {
        let episode = rest.remove(0);
        let key = effective_time(&episode, now);
        let mut pos: usize = queue.len();
        while pos > 0 && is_in_past(&key, &effective_time(&queue[pos - 1], now))
            invariant
                pos <= queue.len(),
                key == effective_timestamp(episode, *now),
                forall|j: int|
                    pos <= j < queue.len() ==> precedes(
                        key,
                        effective_timestamp(#[trigger] queue@[j], *now),
                    ),
            decreases pos,
        {
            pos = pos - 1;
        }
        proof {
            lemma_enqueued_is_insert(queue@, episode, *now, pos as int);
            assert(episode == all[done]);
            assert(all.take(done + 1).drop_last() == all.take(done));
            assert(all.take(done + 1).last() == all[done]);
            assert(all.skip(done).remove(0) == all.skip(done + 1));
            done = done + 1;
        }
        queue.insert(pos, episode);
    }
    assert(all.take(done) == all);
    queue
}

/// Finds the next episode of the queue that may be announced now.
pub fn first_released(queue: &Vec<Episode>, start: usize, now: &Timestamp) -> (index: usize)
    ensures
        index == next_released(queue@, start as int, *now),
        start <= queue.len() ==> start <= index <= queue.len(),
{
    let mut index = start;
    while index < queue.len() && !is_released(&queue[index], now)
        invariant
            start <= index,
            next_released(queue@, index as int, *now) == next_released(queue@, start as int, *now),
        decreases queue.len() - index,
    {
        index = index + 1;
    }
    if index >= queue.len() {
        queue.len()
    } else {
        index
    }
}

/// Whether no entry of the queue is earlier than an entry in front of it.
pub open spec fn ordered(queue: Seq<Episode>, now: Timestamp) -> bool {
    forall|i: int, j: int|
        0 <= i < j < queue.len() ==> !precedes(
            effective_timestamp(#[trigger] queue[j], now),
            effective_timestamp(#[trigger] queue[i], now),
        )
}

/// Where `enqueued` puts an episode: behind the last entry that is not later than it.
pub proof fn enqueue_position(queue: Seq<Episode>, episode: Episode, now: Timestamp) -> (pos: int)
    ensures
        0 <= pos <= queue.len(),
        enqueued(queue, episode, now) == queue.insert(pos, episode),
        forall|j: int|
            pos <= j < queue.len() ==> precedes(
                effective_timestamp(episode, now),
                effective_timestamp(#[trigger] queue[j], now),
            ),
        pos > 0 ==> !precedes(
            effective_timestamp(episode, now),
            effective_timestamp(queue[pos - 1], now),
        ),
    decreases queue.len(),
{
    if queue.len() == 0 {
        assert(queue.insert(0, episode) =~= seq![episode]);
        0
    } else if precedes(effective_timestamp(episode, now), effective_timestamp(queue.last(), now)) {
        let front = queue.drop_last();
        let pos = enqueue_position(front, episode, now);
        assert(front.insert(pos, episode).push(queue.last()) =~= queue.insert(pos, episode));
        assert forall|j: int| pos <= j < queue.len() implies precedes(
            effective_timestamp(episode, now),
            effective_timestamp(#[trigger] queue[j], now),
        ) by {
            if j < front.len() {
                assert(front[j] == queue[j]);
            }
        }
        if pos > 0 {
            assert(front[pos - 1] == queue[pos - 1]);
        }
        pos
    } else {
        assert(queue.push(episode) =~= queue.insert(queue.len() as int, episode));
        queue.len() as int
    }
}

/// The schedule holds exactly the candidates of the scan, each as often as the scan found it.
pub proof fn lemma_schedule_permutes(found: Seq<Episode>, now: Timestamp)
    ensures
        schedule(found, now).len() == found.len(),
        schedule(found, now).to_multiset() == found.to_multiset(),
    decreases found.len(),
{
    broadcast use vstd::seq_lib::to_multiset_insert, vstd::seq_lib::to_multiset_build;

    if found.len() == 0 {
        assert(found =~= Seq::empty());
    } else {
        let front = found.drop_last();
        lemma_schedule_permutes(front, now);
        let pos = enqueue_position(schedule(front, now), found.last(), now);
        assert(front.push(found.last()) =~= found);
    }
}

/// Within one cycle the schedule runs in non-decreasing order of effective timestamps.
pub proof fn lemma_schedule_ordered(found: Seq<Episode>, now: Timestamp)
    ensures
        ordered(schedule(found, now), now),
    decreases found.len(),
{
    if found.len() > 0 {
        let front = schedule(found.drop_last(), now);
        lemma_schedule_ordered(found.drop_last(), now);
        let pos = enqueue_position(front, found.last(), now);
        let queue = front.insert(pos, found.last());
        assert forall|i: int, j: int| 0 <= i < j < queue.len() implies !precedes(
            effective_timestamp(#[trigger] queue[j], now),
            effective_timestamp(#[trigger] queue[i], now),
        ) by {
            if j < pos {
                assert(queue[i] == front[i] && queue[j] == front[j]);
            } else if j == pos {
                assert(queue[i] == front[i]);
                if i < pos - 1 {
                    assert(!precedes(
                        effective_timestamp(front[pos - 1], now),
                        effective_timestamp(front[i], now),
                    ));
                }
            } else if i < pos {
                assert(queue[i] == front[i] && queue[j] == front[j - 1]);
            } else if i == pos {
                assert(queue[j] == front[j - 1]);
            } else {
                assert(queue[i] == front[i - 1] && queue[j] == front[j - 1]);
            }
        }
    }
}

/// Whether no two entries carry the same identifier.
pub open spec fn distinct_ids(episodes: Seq<Episode>) -> bool {
    forall|i: int, j: int|
        0 <= i < j < episodes.len() ==> (#[trigger] episodes[i]).id@ != (#[trigger] episodes[j]).id@
}

/// Every entry of the schedule is a candidate of the scan.
pub proof fn lemma_schedule_members(found: Seq<Episode>, now: Timestamp)
    ensures
        forall|j: int|
            0 <= j < schedule(found, now).len() ==> found.contains(#[trigger] schedule(found, now)[j]),
    decreases found.len(),
{
    if found.len() > 0 {
        let front = found.drop_last();
        let before = schedule(front, now);
        lemma_schedule_members(front, now);
        let pos = enqueue_position(before, found.last(), now);
        let queue = schedule(found, now);
        assert forall|j: int| 0 <= j < queue.len() implies found.contains(#[trigger] queue[j]) by {
            if j == pos {
                assert(found[found.len() - 1] == queue[j]);
            } else {
                let k = if j < pos {
                    j
                } else {
                    j - 1
                };
                assert(queue[j] == before[k]);
                assert(front.contains(before[k]));
                let i = choose|i: int| 0 <= i < front.len() && front[i] == before[k];
                assert(found[i] == queue[j]);
            }
        }
    }
}

/// Ordering the candidates keeps their identifiers apart.
pub proof fn lemma_schedule_distinct(found: Seq<Episode>, now: Timestamp)
    requires
        distinct_ids(found),
    ensures
        distinct_ids(schedule(found, now)),
    decreases found.len(),
{
    if found.len() > 0 {
        let front = found.drop_last();
        let before = schedule(front, now);
        assert(distinct_ids(front)) by {
            assert forall|i: int, j: int| 0 <= i < j < front.len() implies (#[trigger] front[i]).id@
                != (#[trigger] front[j]).id@ by {
                assert(front[i] == found[i] && front[j] == found[j]);
            }
        }
        lemma_schedule_distinct(front, now);
        lemma_schedule_members(front, now);
        let last = found.last();
        let pos = enqueue_position(before, last, now);
        let queue = schedule(found, now);
        assert forall|k: int| 0 <= k < before.len() implies (#[trigger] before[k]).id@
            != last.id@ by {
            assert(front.contains(before[k]));
            let i = choose|i: int| 0 <= i < front.len() && front[i] == before[k];
            assert(found[i] == before[k]);
            assert(found[found.len() - 1] == last);
        }
        assert forall|i: int, j: int| 0 <= i < j < queue.len() implies (#[trigger] queue[i]).id@
            != (#[trigger] queue[j]).id@ by {
            let a = if i < pos {
                i
            } else {
                i - 1
            };
            let b = if j < pos {
                j
            } else {
                j - 1
            };
            if i == pos {
                assert(queue[j] == before[b]);
            } else if j == pos {
                assert(queue[i] == before[a]);
            } else {
                assert(queue[i] == before[a] && queue[j] == before[b]);
            }
        }
    }
}

/// The entries whose effective timestamp is `at`, in the order they stand in.
pub open spec fn due_at(episodes: Seq<Episode>, at: Timestamp, now: Timestamp) -> Seq<Episode>
    decreases episodes.len(),
{
    if episodes.len() == 0 {
        Seq::empty()
    } else if effective_timestamp(episodes.last(), now) == at {
        due_at(episodes.drop_last(), at, now).push(episodes.last())
    } else {
        due_at(episodes.drop_last(), at, now)
    }
}

proof fn lemma_due_at_push(episodes: Seq<Episode>, episode: Episode, now: Timestamp, at: Timestamp)
    ensures
        due_at(episodes.push(episode), at, now) == if effective_timestamp(episode, now) == at {
            due_at(episodes, at, now).push(episode)
        } else {
            due_at(episodes, at, now)
        },
{
    let longer = episodes.push(episode);
    assert(longer.drop_last() =~= episodes);
    assert(longer.last() == episode);
}

proof fn lemma_enqueued_due_at(queue: Seq<Episode>, episode: Episode, now: Timestamp, at: Timestamp)
    ensures
        due_at(enqueued(queue, episode, now), at, now) == if effective_timestamp(episode, now) == at {
            due_at(queue, at, now).push(episode)
        } else {
            due_at(queue, at, now)
        },
    decreases queue.len(),
{
    if queue.len() == 0 {
        assert(queue =~= Seq::empty());
        assert(seq![episode] =~= queue.push(episode));
        lemma_due_at_push(queue, episode, now, at);
    } else if precedes(effective_timestamp(episode, now), effective_timestamp(queue.last(), now)) {
        let front = queue.drop_last();
        lemma_enqueued_due_at(front, episode, now, at);
        lemma_due_at_push(enqueued(front, episode, now), queue.last(), now, at);
        lemma_due_at_push(front, queue.last(), now, at);
        assert(front.push(queue.last()) =~= queue);
    } else {
        lemma_due_at_push(queue, episode, now, at);
    }
}

/// Candidates with one and the same effective timestamp are announced in the order the scan
/// found them.
pub proof fn lemma_schedule_is_stable(found: Seq<Episode>, now: Timestamp, at: Timestamp)
    ensures
        due_at(schedule(found, now), at, now) == due_at(found, at, now),
    decreases found.len(),
{
    if found.len() > 0 {
        lemma_schedule_is_stable(found.drop_last(), now, at);
        lemma_enqueued_due_at(schedule(found.drop_last(), now), found.last(), now, at);
        lemma_due_at_push(found.drop_last(), found.last(), now, at);
        assert(found.drop_last().push(found.last()) =~= found);
    } else {
        assert(found =~= Seq::empty());
    }
}

} // verus!
