//! An observer that may be absent.

use vstd::prelude::*;
use crate::observer::Event;
use crate::observer::Observer;
use crate::observer::delivers;

verus! {

/// An observer that wraps an inner, optional observer. While the inner one is
/// unset every event is dropped and reported as a success.
#[derive(Debug)]
pub struct OptionalObserver<O>(Option<O>);

impl<O> OptionalObserver<O> {
    /// The observer held, if any.
    pub closed spec fn inner(&self) -> Option<O> {
        self.0
    }

    /// Create a new `OptionalObserver` that holds the provided observer.
    pub fn new(observer: O) -> (wrapper: Self)
        ensures
            wrapper.inner() == Some(observer),
    {
        Self(Some(observer))
    }

    /// Replace the existing observer (if any) with the given one, returning
    /// the previous one. Neither observer is called.
    pub fn replace(&mut self, value: O) -> (previous: Option<O>)
        ensures
            previous == old(self).inner(),
            final(self).inner() == Some(value),
    {
        let previous = self.0.take();
        self.0 = Some(value);
        previous
    }

    /// Take the inner observer, if any, replacing it with none.
    pub fn take(&mut self) -> (previous: Option<O>)
        ensures
            previous == old(self).inner(),
            final(self).inner() is None,
    {
        self.0.take()
    }

    /// Check whether an actual observer is present or not.
    pub fn is_some(&self) -> (present: bool)
        ensures
            present == self.inner() is Some,
    {
        self.0.is_some()
    }
}

impl<O> Default for OptionalObserver<O> {
    /// A wrapper that holds no observer.
    fn default() -> (wrapper: Self)
        ensures
            wrapper.inner() is None,
    {
        Self(None)
    }
}

impl<O, T, E> Observer<T, E> for OptionalObserver<O> where O: Observer<T, E>, T: Send, E: Send {
    /// Everything is in order while no observer is held; otherwise what the
    /// held observer accepts.
    open spec fn accepts(&self, event: Event<T>) -> bool {
        match self.inner() {
            Some(observer) => observer.accepts(event),
            None => true,
        }
    }

    /// Without an observer the call changes nothing and succeeds; with one it
    /// is the held observer's own step, and the observer stays in place.
    open spec fn step(pre: &Self, event: Event<T>, post: &Self, result: Result<(), E>) -> bool {
        match pre.inner() {
            Some(before) => post.inner() matches Some(after) && O::step(
                &before,
                event,
                &after,
                result,
            ),
            None => post.inner() is None && result is Ok,
        }
    }

    fn on_start(&mut self) -> (result: Result<(), E>) {
        match &mut self.0 {
            Some(observer) => observer.on_start(),
            None => Ok(()),
        }
    }

    fn on_commit(&mut self) -> (result: Result<(), E>) {
        match &mut self.0 {
            Some(observer) => observer.on_commit(),
            None => Ok(()),
        }
    }

    fn on_updates<I: Iterator<Item = T>>(&mut self, updates: I) -> (result: Result<(), E>) {
        match &mut self.0 {
            Some(observer) => observer.on_updates(updates),
            None => Ok(()),
        }
    }

    fn on_completed(&mut self) -> (result: Result<(), E>) {
        match &mut self.0 {
            Some(observer) => observer.on_completed(),
            None => Ok(()),
        }
    }
}

/// An empty wrapper takes any call: the call is in order, succeeds, and
/// leaves the wrapper as it was.
pub proof fn lemma_empty_takes_any_call<O, T, E>(
    pre: OptionalObserver<O>,
    event: Event<T>,
    post: OptionalObserver<O>,
    result: Result<(), E>,
) where O: Observer<T, E>, T: Send, E: Send
    requires
        pre.inner() is None,
        <OptionalObserver<O> as Observer<T, E>>::step(&pre, event, &post, result),
    ensures
        Observer::<T, E>::accepts(&pre, event),
        result is Ok,
        post == pre,
{
}

/// An empty wrapper takes any sequence of calls: each is in order, all of
/// them can be delivered, and delivering them leaves the wrapper as it was.
pub proof fn lemma_empty_takes_any_calls<O, T, E>(
    pre: OptionalObserver<O>,
    events: Seq<Event<T>>,
    post: OptionalObserver<O>,
) where O: Observer<T, E>, T: Send, E: Send
    requires
        pre.inner() is None,
    ensures
        forall|i: int| 0 <= i < events.len() ==> Observer::<T, E>::accepts(&pre, #[trigger] events[i]),
        delivers::<T, E, OptionalObserver<O>>(pre, events, pre),
        delivers::<T, E, OptionalObserver<O>>(pre, events, post) ==> post == pre,
    decreases events.len(),
{
    if events.len() > 0 {
        lemma_empty_takes_any_calls::<O, T, E>(pre, events.drop_last(), pre);
        assert(<OptionalObserver<O> as Observer<T, E>>::step(&pre, events.last(), &pre, Ok(())));
        if delivers::<T, E, OptionalObserver<O>>(pre, events, post) {
            let mid = choose|mid: OptionalObserver<O>|
                delivers::<T, E, OptionalObserver<O>>(pre, events.drop_last(), mid)
                    && #[trigger] <OptionalObserver<O> as Observer<T, E>>::step(
                    &mid,
                    events.last(),
                    &post,
                    Ok(()),
                );
            lemma_empty_takes_any_calls::<O, T, E>(pre, events.drop_last(), mid);
        }
    }
}

/// A wrapper that holds an observer passes every call through: the call is
/// in order exactly when it is for the held observer, and its outcomes are the
/// held observer's own, with the observer still in place afterwards.
pub proof fn lemma_present_passes_call_through<O, T, E>(
    pre: OptionalObserver<O>,
    event: Event<T>,
    post: OptionalObserver<O>,
    result: Result<(), E>,
) where O: Observer<T, E>, T: Send, E: Send
    requires
        pre.inner() is Some,
    ensures
        Observer::<T, E>::accepts(&pre, event) == pre.inner()->0.accepts(event),
        <OptionalObserver<O> as Observer<T, E>>::step(&pre, event, &post, result) == (post.inner() is Some
            && O::step(&pre.inner()->0, event, &post.inner()->0, result)),
{
}

/// A sequence of calls delivered to a wrapper that holds an observer is
/// delivered to that observer, call by call.
pub proof fn lemma_present_passes_calls_through<O, T, E>(
    pre: OptionalObserver<O>,
    events: Seq<Event<T>>,
    post: OptionalObserver<O>,
) where O: Observer<T, E>, T: Send, E: Send
    requires
        pre.inner() is Some,
    ensures
        delivers::<T, E, OptionalObserver<O>>(pre, events, post) == (post.inner() is Some && delivers::<
            T,
            E,
            O,
        >(pre.inner()->0, events, post.inner()->0)),
    decreases events.len(),
{
    if events.len() == 0 {
        if post.inner() is Some && post.inner()->0 == pre.inner()->0 {
            assert(post == pre);
        }
    } else {
        let earlier = events.drop_last();
        if delivers::<T, E, OptionalObserver<O>>(pre, events, post) {
            let mid = choose|mid: OptionalObserver<O>|
                delivers::<T, E, OptionalObserver<O>>(pre, earlier, mid)
                    && #[trigger] <OptionalObserver<O> as Observer<T, E>>::step(
                    &mid,
                    events.last(),
                    &post,
                    Ok(()),
                );
            lemma_present_passes_calls_through::<O, T, E>(pre, earlier, mid);
            assert(O::step(&mid.inner()->0, events.last(), &post.inner()->0, Ok(())));
        }
        if post.inner() is Some && delivers::<T, E, O>(pre.inner()->0, events, post.inner()->0) {
            let held = choose|held: O|
                delivers::<T, E, O>(pre.inner()->0, earlier, held) && #[trigger] O::step(
                    &held,
                    events.last(),
                    &post.inner()->0,
                    Ok(()),
                );
            let mid = OptionalObserver(Some(held));
            lemma_present_passes_calls_through::<O, T, E>(pre, earlier, mid);
            assert(<OptionalObserver<O> as Observer<T, E>>::step(&mid, events.last(), &post, Ok(())));
        }
    }
}

} // verus!
