//! The replay buffer of a run: which of its events late viewers still get.

use vstd::prelude::*;

use crate::train::TrainEvent;

verus! {

/// Per-batch points retained in the replay buffer. Epoch summaries never count
/// against the cap: a long run's memory stays bounded while the epoch-level
/// curve remains complete.
pub const MAX_REPLAY_BATCH_EVENTS: usize = 5000;

/// Number of `Batch` events in `events`.
pub open spec fn batch_count(events: Seq<TrainEvent>) -> nat
    decreases events.len(),
{
    if events.len() == 0 {
        0
    } else {
        batch_count(events.drop_first()) + (if events.first() is Batch {
            1nat
        } else {
            0nat
        })
    }
}

/// `events` without its oldest `Batch` event.
pub open spec fn without_oldest_batch(events: Seq<TrainEvent>) -> Seq<TrainEvent>
    decreases events.len(),
{
    if events.len() == 0 {
        events
    } else if events.first() is Batch {
        events.drop_first()
    } else {
        seq![events.first()] + without_oldest_batch(events.drop_first())
    }
}

/// The replay buffer after one more event: it goes to the end, and a batch
/// point over the cap pushes out the oldest batch point.
pub open spec fn replay_push(replay: Seq<TrainEvent>, event: TrainEvent) -> Seq<TrainEvent> {
    let grown = replay.push(event);
    if event is Batch && batch_count(grown) > MAX_REPLAY_BATCH_EVENTS {
        without_oldest_batch(grown)
    } else {
        grown
    }
}

/// The replay buffer after a whole series of events.
pub open spec fn replay_extend(replay: Seq<TrainEvent>, events: Seq<TrainEvent>) -> Seq<TrainEvent>
    decreases events.len(),
{
    if events.len() == 0 {
        replay
    } else {
        replay_push(replay_extend(replay, events.drop_last()), events.last())
    }
}

/// What is kept of a history: every event but the batch points that at least
/// [`MAX_REPLAY_BATCH_EVENTS`] later batch points follow, in the order in which
/// they came.
pub open spec fn retained(history: Seq<TrainEvent>) -> Seq<TrainEvent>
    decreases history.len(),
{
    if history.len() == 0 {
        history
    } else if history.first() is Batch && batch_count(history.drop_first())
        >= MAX_REPLAY_BATCH_EVENTS {
        retained(history.drop_first())
    } else {
        seq![history.first()] + retained(history.drop_first())
    }
}

/// Taking the first event off a history commutes with adding a last one.
proof fn lemma_push_drop_first(s: Seq<TrainEvent>, e: TrainEvent)
    requires
        s.len() > 0,
    ensures
        s.push(e).drop_first() == s.drop_first().push(e),
        s.push(e).first() == s.first(),
{
    assert(s.push(e).drop_first() =~= s.drop_first().push(e));
}

/// A further event counts as itself.
pub proof fn lemma_batch_count_push(s: Seq<TrainEvent>, e: TrainEvent)
    ensures
        batch_count(s.push(e)) == batch_count(s) + (if e is Batch {
            1nat
        } else {
            0nat
        }),
    decreases s.len(),
{
    if s.len() == 0 {
        assert(s.push(e).drop_first() =~= s);
    } else {
        lemma_push_drop_first(s, e);
        lemma_batch_count_push(s.drop_first(), e);
    }
}

/// Dropping the oldest batch point takes one off the count and nothing else
/// off the buffer.
pub proof fn lemma_without_oldest_batch(s: Seq<TrainEvent>, at: int)
    requires
        0 <= at < s.len(),
        s[at] is Batch,
        forall|k: int| 0 <= k < at ==> !(#[trigger] s[k] is Batch),
    ensures
        without_oldest_batch(s) == s.remove(at),
        batch_count(s.remove(at)) + 1 == batch_count(s),
    decreases s.len(),
{
    if at == 0 {
        assert(s.remove(0) =~= s.drop_first());
    } else {
        let rest = s.drop_first();
        assert(!(s[0] is Batch));
        assert forall|k: int| 0 <= k < at - 1 implies !(#[trigger] rest[k] is Batch) by {
            assert(rest[k] == s[k + 1]);
        }
        lemma_without_oldest_batch(rest, at - 1);
        assert(s.remove(at) =~= seq![s.first()] + rest.remove(at - 1));
        assert(s.remove(at).drop_first() =~= rest.remove(at - 1));
    }
}

/// Nothing is dropped from a history within the cap.
pub proof fn lemma_retained_within_cap(history: Seq<TrainEvent>)
    requires
        batch_count(history) <= MAX_REPLAY_BATCH_EVENTS,
    ensures
        retained(history) == history,
    decreases history.len(),
{
    if history.len() > 0 {
        lemma_retained_within_cap(history.drop_first());
        assert(seq![history.first()] + history.drop_first() =~= history);
    }
}

/// What is kept never has more batch points than the cap, and all of them while
/// there are no more than that.
proof fn lemma_retained_count(history: Seq<TrainEvent>)
    ensures
        batch_count(retained(history)) == (if batch_count(history) <= MAX_REPLAY_BATCH_EVENTS {
            batch_count(history)
        } else {
            MAX_REPLAY_BATCH_EVENTS as nat
        }),
    decreases history.len(),
{
    if history.len() > 0 {
        let rest = history.drop_first();
        lemma_retained_count(rest);
        let kept = seq![history.first()] + retained(rest);
        assert(kept.drop_first() =~= retained(rest));
    }
}

/// One push on what is kept of a history gives what is kept of the longer
/// history.
pub proof fn lemma_retained_push(history: Seq<TrainEvent>, event: TrainEvent)
    ensures
        retained(history.push(event)) == replay_push(retained(history), event),
    decreases history.len(),
{
    let longer = history.push(event);
    lemma_batch_count_push(history, event);
    lemma_retained_count(history);
    lemma_batch_count_push(retained(history), event);
    if history.len() == 0 {
        assert(longer.drop_first() =~= Seq::<TrainEvent>::empty());
        assert(longer =~= seq![event]);
        lemma_retained_within_cap(longer);
    } else if batch_count(longer) <= MAX_REPLAY_BATCH_EVENTS {
        lemma_retained_within_cap(history);
        lemma_retained_within_cap(longer);
    } else {
        let rest = history.drop_first();
        lemma_push_drop_first(history, event);
        lemma_retained_push(rest, event);
        lemma_batch_count_push(rest, event);
        lemma_retained_count(rest);
        lemma_batch_count_push(retained(rest), event);
        if history.first() is Batch {
            if batch_count(rest) >= MAX_REPLAY_BATCH_EVENTS {
                // Both drop the first batch point.
            } else {
                // The first batch point is the one that the new event pushes out.
                lemma_retained_within_cap(rest);
                lemma_retained_within_cap(rest.push(event));
                assert(retained(history) =~= history);
                assert(history.push(event).drop_first() =~= rest.push(event));
            }
        } else {
            let kept = retained(rest).push(event);
            assert(retained(history).push(event) =~= seq![history.first()] + kept);
            assert((seq![history.first()] + kept).drop_first() =~= kept);
        }
    }
}

} // verus!
