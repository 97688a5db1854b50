//! The notification contract and the vocabulary its users are specified in.

use vstd::prelude::*;
use vstd::std_specs::iter::IteratorSpec;

verus! {

/// One call of the notification contract, as contracts speak of it.
pub enum Event<T> {
    /// `on_start`
    Start,
    /// `on_updates`, with the items that the batch yields, in order.
    Updates(Seq<T>),
    /// `on_commit`
    Commit,
    /// `on_completed`
    Completed,
}

/// A consumer of update batches grouped into transactions.
///
/// An implementation describes itself by two predicates. `accepts` says which
/// calls are in order in a given state; a call that is not accepted is a
/// mistake of the caller, not a failure to report, and is excluded by the
/// methods' preconditions. `step` says how a call may change the observer and
/// what it may return; a failure of the observer's own is an `Err` of the
/// call. An implementation that states neither accepts every call in every
/// order and promises nothing of what the call does.
///
/// Every implementation promises the lifecycle: after a successful `on_start`
/// it takes batches and a commit, after a successful `on_updates` it still
/// does, after a successful `on_commit` it takes the next `on_start`, and
/// `on_completed` stays in order until it has been called. After a call has
/// failed nothing is promised about what is in order, except `on_completed`.
pub trait Observer<T, E>: std::fmt::Debug + Send where T: Send, E: Send {
    /// Whether `event` is in order in this state.
    open spec fn accepts(&self, event: Event<T>) -> bool {
        true
    }

    /// Whether `event`, delivered in state `pre`, may leave the observer in
    /// state `post` and return `result`.
    open spec fn step(pre: &Self, event: Event<T>, post: &Self, result: Result<(), E>) -> bool {
        true
    }

    /// A transaction begins.
    fn on_start(&mut self) -> (result: Result<(), E>)
        requires
            old(self).accepts(Event::Start),
        ensures
            Self::step(old(self), Event::Start, final(self), result),
            result is Ok ==> final(self).accepts(Event::Commit),
            result is Ok ==> forall|items: Seq<T>| #[trigger] final(self).accepts(Event::Updates(items)),
            old(self).accepts(Event::Completed) ==> final(self).accepts(Event::Completed),
    ;

    /// The transaction is complete.
    fn on_commit(&mut self) -> (result: Result<(), E>)
        requires
            old(self).accepts(Event::Commit),
        ensures
            Self::step(old(self), Event::Commit, final(self), result),
            result is Ok ==> final(self).accepts(Event::Start),
            old(self).accepts(Event::Completed) ==> final(self).accepts(Event::Completed),
    ;

    /// One batch of the transaction. The batch is produced while it is drawn
    /// and can be drawn only once; it has to end.
    fn on_updates<I: Iterator<Item = T>>(&mut self, updates: I) -> (result: Result<(), E>)
        requires
            updates.obeys_prophetic_iter_laws(),
            updates.decrease() is Some,
            old(self).accepts(Event::Updates(updates.remaining())),
        ensures
            Self::step(old(self), Event::Updates(updates.remaining()), final(self), result),
            result is Ok ==> final(self).accepts(Event::Commit),
            result is Ok ==> forall|items: Seq<T>| #[trigger] final(self).accepts(Event::Updates(items)),
            old(self).accepts(Event::Completed) ==> final(self).accepts(Event::Completed),
    ;

    /// The producer shuts down; no call follows.
    fn on_completed(&mut self) -> (result: Result<(), E>)
        requires
            old(self).accepts(Event::Completed),
        ensures
            Self::step(old(self), Event::Completed, final(self), result),
    ;
}

/// The calls that make up one transaction carrying `batches`: a start, one
/// `on_updates` per batch in the order given, and a commit.
pub open spec fn transaction<T>(batches: Seq<Seq<T>>) -> Seq<Event<T>> {
    Seq::new(
        batches.len() + 2,
        |i: int|
            if i == 0 {
                Event::Start
            } else if i <= batches.len() {
                Event::Updates(batches[i - 1])
            } else {
                Event::Commit
            },
    )
}

/// Delivering `events` to an observer in state `pre`, in order and each with
/// success, can leave it in state `post`.
pub open spec fn delivers<T: Send, E: Send, O: Observer<T, E>>(
    pre: O,
    events: Seq<Event<T>>,
    post: O,
) -> bool
    decreases events.len(),
{
    if events.len() == 0 {
        post == pre
    } else {
        exists|mid: O|
            delivers::<T, E, O>(pre, events.drop_last(), mid) && #[trigger] O::step(
                &mid,
                events.last(),
                &post,
                Ok(()),
            )
    }
}

/// Delivering `events` in order, stopping at the first failure, can leave an
/// observer that was in state `pre` in state `post` and give `result`.
///
/// On success every event was delivered. On failure some event was the first
/// to fail: those before it were delivered with success, it returned the error,
/// and none after it was delivered.
pub open spec fn forwards<T: Send, E: Send, O: Observer<T, E>>(
    pre: O,
    events: Seq<Event<T>>,
    post: O,
    result: Result<(), E>,
) -> bool {
    match result {
        Ok(_) => delivers::<T, E, O>(pre, events, post),
        Err(_) => exists|k: int, mid: O|
            0 <= k < events.len() && delivers::<T, E, O>(pre, events.take(k), mid) && #[trigger] O::step(
                &mid,
                events[k],
                &post,
                result,
            ),
    }
}

/// One more successful delivery extends a run of successful deliveries.
pub proof fn lemma_delivers_next<T: Send, E: Send, O: Observer<T, E>>(
    pre: O,
    events: Seq<Event<T>>,
    mid: O,
    event: Event<T>,
    post: O,
    result: Result<(), E>,
)
    requires
        delivers::<T, E, O>(pre, events, mid),
        O::step(&mid, event, &post, result),
        result is Ok,
    ensures
        delivers::<T, E, O>(pre, events.push(event), post),
{
    assert(result->Ok_0 == ());
    assert(result == Ok::<(), E>(()));
    assert(events.push(event).drop_last() =~= events);
    assert(events.push(event).last() == event);
}

impl<T, E, O> Observer<T, E> for Box<O> where T: Send, E: Send, O: Observer<T, E> + ?Sized {
    open spec fn accepts(&self, event: Event<T>) -> bool {
        (**self).accepts(event)
    }

    open spec fn step(pre: &Self, event: Event<T>, post: &Self, result: Result<(), E>) -> bool {
        O::step(&**pre, event, &**post, result)
    }

    fn on_start(&mut self) -> (result: Result<(), E>) {
        (**self).on_start()
    }

    fn on_commit(&mut self) -> (result: Result<(), E>) {
        (**self).on_commit()
    }

    fn on_updates<I: Iterator<Item = T>>(&mut self, updates: I) -> (result: Result<(), E>) {
        (**self).on_updates(updates)
    }

    fn on_completed(&mut self) -> (result: Result<(), E>) {
        (**self).on_completed()
    }
}

/// Draw a lazily produced batch to its end and keep the items, in the order
/// in which they were produced, so that the batch can be handed on later.
pub fn collect_batch<T, I: Iterator<Item = T>>(updates: I) -> (batch: Vec<T>)
    requires
        updates.obeys_prophetic_iter_laws(),
        updates.decrease() is Some,
    ensures
        batch@ == updates.remaining(),
{
    let mut rest = updates;
    let mut batch: Vec<T> = Vec::new();
    loop
        invariant
            rest.obeys_prophetic_iter_laws(),
            rest.decrease() is Some,
            batch@ + rest.remaining() == updates.remaining(),
        decreases rest.decrease()->0,
    {
        match rest.next() {
            Some(item) => {
                batch.push(item);
            },
            None => {
                assert(batch@ + rest.remaining() =~= batch@);
                return batch;
            },
        }
    }
}

} // verus!
