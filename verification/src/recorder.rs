//! The producer-facing handle.
//!
//! A recorder accepts records with a fire-and-forget [`Recorder::save`]
//! that never waits on the backend: the record only joins the command
//! queue. The worker drains the queue when an answer is demanded — on
//! [`Recorder::records`], which flushes every save submitted ahead of the
//! query before answering it, and on [`Recorder::close`], which persists
//! everything still queued and hands the backend back. A recorder may also
//! start before its backend is ready ([`Recorder::with_lazy_storage`]):
//! records accepted in the meantime wait in the queue, none is rejected
//! and none is lost, and they are persisted once the backend arrives
//! ([`Recorder::storage_ready`]).
//!
//! Closing consumes the handle, so the protocol violation of saving after
//! close is ruled out by ownership rather than detected at run time.

use vstd::prelude::*;
use vstd::pervasive::unreached;
use crate::actor::Actor;
use crate::protocol::{
    saves_of, views_of, Command, lemma_saves_of_push, lemma_replies_for_push,
};
use crate::storage::Storage;

verus! {

/// Persists records without making the producer wait for the backend.
pub struct Recorder<T: Storage> {
    /// The worker, once it holds the backend; still missing while a lazy
    /// backend is being prepared.
    actor: Option<Actor<T>>,
    /// Commands submitted and not yet consumed by the worker, in
    /// submission order.
    queue: Vec<Command<T::Record, T::Query>>,
}

impl<T: Storage> Recorder<T> {
    /// Whether the backend has been handed to the worker.
    pub closed spec fn is_ready(&self) -> bool {
        self.actor is Some
    }

    /// The backend as the worker holds it now.
    pub closed spec fn storage_of(&self) -> T {
        self.actor->Some_0.storage
    }

    /// The records the backend holds now.
    pub open spec fn contents(&self) -> Seq<T::Record> {
        self.storage_of().contents()
    }

    /// The commands waiting in the queue, in submission order.
    pub closed spec fn queued(&self) -> Seq<Command<T::Record, T::Query>> {
        self.queue@
    }

    /// Takes ownership of an already-constructed backend and starts with
    /// an empty queue.
    pub fn new(storage: T) -> (recorder: Self)
        ensures
            recorder.is_ready(),
            recorder.storage_of() == storage,
            recorder.queued() == Seq::<Command<T::Record, T::Query>>::empty(),
    {
        Recorder { actor: Some(Actor::new(storage)), queue: Vec::new() }
    }

    /// Starts accepting commands before the backend is ready. Saves
    /// submitted in the meantime wait in the queue; the backend is handed
    /// over later with [`Recorder::storage_ready`].
    pub fn with_lazy_storage() -> (recorder: Self)
        ensures
            !recorder.is_ready(),
            recorder.queued() == Seq::<Command<T::Record, T::Query>>::empty(),
    {
        Recorder { actor: None, queue: Vec::new() }
    }

    /// Hands the now-ready backend to the worker. Every command submitted
    /// while the backend was being prepared is still queued, unchanged.
    pub fn storage_ready(&mut self, storage: T)
        requires
            !old(self).is_ready(),
        ensures
            final(self).is_ready(),
            final(self).storage_of() == storage,
            final(self).queued() == old(self).queued(),
    {
        self.actor = Some(Actor::new(storage));
    }

    /// Submits one record for persistence and returns immediately: the
    /// record only joins the queue, in submission order, and the backend
    /// is not touched. Works whether or not the backend is ready yet.
    pub fn save(&mut self, record: T::Record)
        ensures
            final(self).queued() == old(self).queued().push(Command::Save(record)),
            final(self).is_ready() == old(self).is_ready(),
            old(self).is_ready() ==> final(self).storage_of() == old(self).storage_of(),
    {
        self.queue.push(Command::Save(record));
    }

    /// Asks the worker for the records the query selects, after it has
    /// drained the queue: every save submitted ahead of this call is
    /// persisted first, in submission order, and the answer reflects all
    /// of them.
    pub fn records(&mut self, query: T::Query) -> (records: Vec<T::Record>)
        requires
            old(self).is_ready(),
        ensures
            final(self).is_ready(),
            final(self).storage_of().contents() == old(self).contents() + saves_of(
                old(self).queued(),
            ),
            final(self).queued() == Seq::<Command<T::Record, T::Query>>::empty(),
            records@ == T::selection(
                old(self).contents() + saves_of(old(self).queued()),
                query,
            ),
    {
        let ghost init = self.contents();
        let ghost submitted = self.queue@;
        let mut burst: Vec<Command<T::Record, T::Query>> = Vec::new();
        core::mem::swap(&mut burst, &mut self.queue);
        burst.push(Command::Load(query));
        proof {
            lemma_saves_of_push(submitted, Command::Load(query));
            lemma_replies_for_push::<T>(init, submitted, Command::Load(query));
        }
        match &mut self.actor {
            Some(worker) => {
                let mut replies = worker.process(burst);
                proof {
                    assert(burst@ == submitted.push(Command::Load(query)));
                    assert(views_of(replies@).len() == replies@.len());
                    assert(replies@.len() > 0);
                    assert(views_of(replies@)[replies@.len() - 1]
                        == replies@[replies@.len() - 1]@);
                    assert(replies@.last()@ == T::selection(init + saves_of(submitted), query));
                }
                match replies.pop() {
                    Some(answer) => answer,
                    None => unreached(),
                }
            },
            None => unreached(),
        }
    }

    /// Stops accepting new commands, persists everything still queued —
    /// in submission order — and yields back exclusive ownership of the
    /// backend. With nothing queued, the backend comes back exactly as the
    /// worker holds it, untouched.
    pub fn close(self) -> (storage: T)
        requires
            self.is_ready(),
        ensures
            storage.contents() == self.contents() + saves_of(self.queued()),
            self.queued().len() == 0 ==> storage == self.storage_of(),
    {
        let Recorder { actor, queue } = self;
        match actor {
            Some(mut worker) => {
                if queue.len() == 0 {
                    proof {
                        assert(worker.storage.contents() + saves_of(queue@)
                            =~= worker.storage.contents());
                    }
                    worker.storage
                } else {
                    let _ = worker.process(queue);
                    worker.storage
                }
            },
            None => unreached(),
        }
    }

    /// Stops the worker and deconstructs the recorder, yielding access to
    /// the underlying backend with everything still queued persisted
    /// first.
    pub fn into_storage(self) -> (storage: T)
        requires
            self.is_ready(),
        ensures
            storage.contents() == self.contents() + saves_of(self.queued()),
            self.queued().len() == 0 ==> storage == self.storage_of(),
    {
        self.close()
    }
}

} // verus!
