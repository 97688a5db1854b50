//! Holding a transaction back until it is committed.

use vstd::prelude::*;
use vstd::pervasive::unreached;
use vstd::std_specs::iter::IteratorSpec;
use crate::observer::Event;
use crate::observer::Observer;
use crate::observer::collect_batch;
use crate::observer::delivers;
use crate::observer::forwards;
use crate::observer::lemma_delivers_next;
use crate::observer::transaction;

verus! {

/// An observer that stores the batches of a transaction and hands the whole
/// transaction to the observer it wraps only when the commit arrives.
#[derive(Debug)]
pub struct CachingObserver<O, T> {
    /// The observer that receives each transaction at its commit.
    observer: O,
    /// The batches of the open transaction, oldest first; `None` while no
    /// transaction is open.
    data: Option<Vec<Vec<T>>>,
}

impl<O, T> CachingObserver<O, T> {
    /// The wrapped observer.
    pub closed spec fn inner(&self) -> O {
        self.observer
    }

    /// The batches received since the transaction was opened, in the order of
    /// their arrival, or `None` while no transaction is open.
    pub closed spec fn pending(&self) -> Option<Seq<Seq<T>>> {
        match self.data {
            Some(batches) => Some(batches@.map_values(|batch: Vec<T>| batch@)),
            None => None,
        }
    }

    /// Create a new `CachingObserver` wrapping the provided observer.
    pub fn new(observer: O) -> (cache: Self)
        ensures
            cache.inner() == observer,
            cache.pending() is None,
    {
        Self { observer, data: None }
    }
}

impl<O, T, E> Observer<T, E> for CachingObserver<O, T> where
    O: Observer<T, E>,
    T: Send + std::fmt::Debug,
    E: Send,
{
    /// A start is in order while no transaction is open, batches and the
    /// commit while one is. In each case the wrapped observer must be ready
    /// for a start, which is the first thing that the commit sends it.
    /// `on_completed` is in order whenever it is for the wrapped observer.
    open spec fn accepts(&self, event: Event<T>) -> bool {
        match event {
            Event::Start => self.pending() is None && self.inner().accepts(Event::Start),
            Event::Updates(_) => self.pending() is Some && self.inner().accepts(Event::Start),
            Event::Commit => self.pending() is Some && self.inner().accepts(Event::Start),
            Event::Completed => self.inner().accepts(Event::Completed),
        }
    }

    /// A start opens a transaction and a batch is added to it, both without
    /// touching the wrapped observer and without fail. A commit closes the
    /// transaction and sends it to the wrapped observer as a whole, up to the
    /// first call that fails. `on_completed` goes to the wrapped observer at
    /// once and leaves the open transaction as it is.
    open spec fn step(pre: &Self, event: Event<T>, post: &Self, result: Result<(), E>) -> bool {
        match event {
            Event::Start => {
                &&& result is Ok
                &&& post.inner() == pre.inner()
                &&& post.pending() == Some(Seq::<Seq<T>>::empty())
            },
            Event::Updates(items) => {
                &&& result is Ok
                &&& post.inner() == pre.inner()
                &&& post.pending() == Some(pre.pending()->0.push(items))
            },
            Event::Commit => {
                &&& post.pending() is None
                &&& forwards::<T, E, O>(
                    pre.inner(),
                    transaction(pre.pending()->0),
                    post.inner(),
                    result,
                )
            },
            Event::Completed => {
                &&& post.pending() == pre.pending()
                &&& O::step(&pre.inner(), Event::Completed, &post.inner(), result)
            },
        }
    }

    fn on_start(&mut self) -> (result: Result<(), E>) {
        if self.data.is_none() {
            self.data = Some(Vec::new());
            assert(self.pending()->0 =~= Seq::<Seq<T>>::empty());
        } else {
            unreached::<()>()
        }
        Ok(())
    }

    fn on_commit(&mut self) -> (result: Result<(), E>) {
        let batches: Vec<Vec<T>> = match self.data.take() {
            Some(batches) => batches,
            None => unreached(),
        };
        let ghost first = self.observer;
        let ghost stored = batches@.map_values(|batch: Vec<T>| batch@);
        let ghost events = transaction(stored);
        let started = self.observer.on_start();
        if let Err(e) = started {
            return Err(e);
        }
        proof {
            lemma_delivers_next::<T, E, O>(first, events.take(0), first, events[0], self.observer, started);
            assert(events.take(0).push(events[0]) =~= events.take(1));
        }
        for updates in it: batches.into_iter()
            invariant
                it.seq() == batches@,
                first == old(self).inner(),
                old(self).pending() == Some(stored),
                stored == batches@.map_values(|batch: Vec<T>| batch@),
                events == transaction(stored),
                delivers::<T, E, O>(first, events.take(it.index() + 1), self.observer),
                self.observer.accepts(Event::Commit),
                forall|items: Seq<T>| #[trigger] self.observer.accepts(Event::Updates(items)),
                old(self).inner().accepts(Event::Completed) ==> self.observer.accepts(
                    Event::Completed,
                ),
                self.data is None,
        {
            let ghost before = self.observer;
            let ghost k: int = it.index() + 1;
            let sent = self.observer.on_updates(updates.into_iter());
            if let Err(e) = sent {
                return Err(e);
            }
            proof {
                lemma_delivers_next::<T, E, O>(first, events.take(k), before, events[k], self.observer, sent);
                assert(events.take(k).push(events[k]) =~= events.take(k + 1));
            }
        }
        let ghost before = self.observer;
        let ghost k: int = 1 + batches@.len() as int;
        let result = self.observer.on_commit();
        proof {
            if result is Ok {
                lemma_delivers_next::<T, E, O>(first, events.take(k), before, events[k], self.observer, result);
                assert(events.take(k).push(events[k]) =~= events);
            }
        }
        result
    }

    fn on_updates<I: Iterator<Item = T>>(&mut self, updates: I) -> (result: Result<(), E>) {
        let batch = collect_batch(updates);
        match &mut self.data {
            Some(data) => {
                data.push(batch);
            },
            None => unreached::<()>(),
        }
        assert(self.pending()->0 =~= old(self).pending()->0.push(updates.remaining()));
        Ok(())
    }

    fn on_completed(&mut self) -> (result: Result<(), E>) {
        self.observer.on_completed()
    }
}

/// While a transaction is open the wrapped observer is left alone: after a
/// start and any number of batches it is as it was before the start, and the
/// wrapper holds exactly those batches, in the order of their arrival.
pub proof fn lemma_batches_held_back<O, T, E>(
    pre: CachingObserver<O, T>,
    batches: Seq<Seq<T>>,
    open: CachingObserver<O, T>,
) where O: Observer<T, E>, T: Send + std::fmt::Debug, E: Send
    requires
        delivers::<T, E, CachingObserver<O, T>>(pre, transaction(batches).drop_last(), open),
    ensures
        open.inner() == pre.inner(),
        open.pending() == Some(batches),
    decreases batches.len(),
{
    let events = transaction(batches).drop_last();
    let mid = choose|mid: CachingObserver<O, T>|
        delivers::<T, E, CachingObserver<O, T>>(pre, events.drop_last(), mid) && #[trigger] <CachingObserver<
            O,
            T,
        > as Observer<T, E>>::step(&mid, events.last(), &open, Ok(()));
    if batches.len() == 0 {
    } else {
        let earlier = batches.drop_last();
        assert(events.drop_last() =~= transaction(earlier).drop_last());
        lemma_batches_held_back::<O, T, E>(pre, earlier, mid);
    }
}

/// A transaction driven through the wrapper reaches the wrapped observer as
/// one transaction, and only at the commit: the start and the batches leave
/// the wrapped observer untouched, and the commit delivers to it one start,
/// the batches one by one in the order given, each with its items as given,
/// and one commit, stopping at the first call that fails.
pub proof fn lemma_transaction_forwarded_at_commit<O, T, E>(
    pre: CachingObserver<O, T>,
    batches: Seq<Seq<T>>,
    open: CachingObserver<O, T>,
    post: CachingObserver<O, T>,
    result: Result<(), E>,
) where O: Observer<T, E>, T: Send + std::fmt::Debug, E: Send
    requires
        delivers::<T, E, CachingObserver<O, T>>(pre, transaction(batches).drop_last(), open),
        <CachingObserver<O, T> as Observer<T, E>>::step(&open, Event::Commit, &post, result),
    ensures
        open.inner() == pre.inner(),
        post.pending() is None,
        forwards::<T, E, O>(pre.inner(), transaction(batches), post.inner(), result),
{
    lemma_batches_held_back::<O, T, E>(pre, batches, open);
}

/// Once a transaction is open, a second start is out of order until the
/// commit, however many batches have arrived.
pub proof fn lemma_start_out_of_order_while_open<O, T, E>(
    pre: CachingObserver<O, T>,
    batches: Seq<Seq<T>>,
    open: CachingObserver<O, T>,
) where O: Observer<T, E>, T: Send + std::fmt::Debug, E: Send
    requires
        delivers::<T, E, CachingObserver<O, T>>(pre, transaction(batches).drop_last(), open),
    ensures
        !Observer::<T, E>::accepts(&open, Event::Start),
{
    lemma_batches_held_back::<O, T, E>(pre, batches, open);
}

/// While no transaction is open (the wrapper is new, or its last transaction
/// was committed) neither a batch nor a commit is in order.
pub proof fn lemma_batch_and_commit_out_of_order_while_closed<O, T, E>(
    cache: CachingObserver<O, T>,
    items: Seq<T>,
) where O: Observer<T, E>, T: Send + std::fmt::Debug, E: Send
    requires
        cache.pending() is None,
    ensures
        !Observer::<T, E>::accepts(&cache, Event::Updates(items)),
        !Observer::<T, E>::accepts(&cache, Event::Commit),
{
}

} // verus!
