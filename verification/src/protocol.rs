//! The message protocol between producers and the worker.
//!
//! A [`Command`] is either a record to persist or a query to answer. The
//! spec functions here give a command sequence its meaning: which records
//! it persists, in submission order ([`saves_of`]), and what every query in
//! it must be answered with ([`replies_for`]) — namely the selection out of
//! the contents as they stand after every save submitted ahead of that
//! query, which is the read-after-write guarantee.

use vstd::prelude::*;
use crate::storage::Storage;

verus! {

/// A single request from a producer to the worker: either persist one
/// record or answer one query.
pub enum Command<R, Q> {
    /// Persist this record; ownership passes to the worker.
    Save(R),
    /// Answer with the records the query selects.
    Load(Q),
}

/// The records that a command sequence asks to persist, in submission order.
pub open spec fn saves_of<R, Q>(cmds: Seq<Command<R, Q>>) -> Seq<R>
    decreases cmds.len(),
{
    if cmds.len() == 0 {
        Seq::empty()
    } else {
        match cmds.last() {
            Command::Save(r) => saves_of(cmds.drop_last()).push(r),
            Command::Load(_) => saves_of(cmds.drop_last()),
        }
    }
}

/// The answer owed to each query of a command sequence, in order, when the
/// backend starts out holding `init`: each query is answered from the
/// contents as extended by every save submitted ahead of it. Saves
/// submitted after a query have no effect on its answer.
pub open spec fn replies_for<T: Storage>(
    init: Seq<T::Record>,
    cmds: Seq<Command<T::Record, T::Query>>,
) -> Seq<Seq<T::Record>>
    decreases cmds.len(),
{
    if cmds.len() == 0 {
        Seq::empty()
    } else {
        let prior = replies_for::<T>(init, cmds.drop_last());
        match cmds.last() {
            Command::Save(_) => prior,
            Command::Load(q) => prior.push(
                T::selection(init + saves_of(cmds.drop_last()), q),
            ),
        }
    }
}

/// One flat sequence out of consecutive chunks, keeping their order.
pub open spec fn joined<A>(chunks: Seq<Seq<A>>) -> Seq<A>
    decreases chunks.len(),
{
    if chunks.len() == 0 {
        Seq::empty()
    } else {
        joined(chunks.drop_last()) + chunks.last()
    }
}

/// The views of a sequence of vectors, element by element.
pub open spec fn views_of<A>(chunks: Seq<Vec<A>>) -> Seq<Seq<A>> {
    chunks.map_values(|chunk: Vec<A>| chunk@)
}

/// Appending a save appends its record; appending a load changes nothing.
pub proof fn lemma_saves_of_push<R, Q>(cmds: Seq<Command<R, Q>>, cmd: Command<R, Q>)
    ensures
        saves_of(cmds.push(cmd)) == (match cmd {
            Command::Save(r) => saves_of(cmds).push(r),
            Command::Load(_) => saves_of(cmds),
        }),
{
    assert(cmds.push(cmd).drop_last() =~= cmds);
}

/// Appending a load appends its owed answer, read from the contents after
/// every save already submitted; appending a save owes nothing new.
pub proof fn lemma_replies_for_push<T: Storage>(
    init: Seq<T::Record>,
    cmds: Seq<Command<T::Record, T::Query>>,
    cmd: Command<T::Record, T::Query>,
)
    ensures
        replies_for::<T>(init, cmds.push(cmd)) == (match cmd {
            Command::Save(_) => replies_for::<T>(init, cmds),
            Command::Load(q) => replies_for::<T>(init, cmds).push(
                T::selection(init + saves_of(cmds), q),
            ),
        }),
{
    assert(cmds.push(cmd).drop_last() =~= cmds);
}

/// The saves of consecutive command sequences are the saves of each, in order.
pub proof fn lemma_saves_of_concat<R, Q>(fst: Seq<Command<R, Q>>, snd: Seq<Command<R, Q>>)
    ensures
        saves_of(fst + snd) == saves_of(fst) + saves_of(snd),
    decreases snd.len(),
{
    if snd.len() == 0 {
        assert(fst + snd =~= fst);
        assert(saves_of(fst) + saves_of(snd) =~= saves_of(fst));
    } else {
        lemma_saves_of_concat(fst, snd.drop_last());
        assert(fst + snd =~= (fst + snd.drop_last()).push(snd.last()));
        lemma_saves_of_push(fst + snd.drop_last(), snd.last());
        match snd.last() {
            Command::Save(r) => {
                assert(saves_of(fst) + saves_of(snd) =~= (saves_of(fst) + saves_of(
                    snd.drop_last(),
                )).push(r));
            },
            Command::Load(_) => {},
        }
    }
}

/// Answering consecutive command sequences answers each in turn, the second
/// against the contents as left by the saves of the first.
pub proof fn lemma_replies_for_concat<T: Storage>(
    init: Seq<T::Record>,
    fst: Seq<Command<T::Record, T::Query>>,
    snd: Seq<Command<T::Record, T::Query>>,
)
    ensures
        replies_for::<T>(init, fst + snd) == replies_for::<T>(init, fst) + replies_for::<T>(
            init + saves_of(fst),
            snd,
        ),
    decreases snd.len(),
{
    if snd.len() == 0 {
        assert(fst + snd =~= fst);
        assert(replies_for::<T>(init, fst) + replies_for::<T>(init + saves_of(fst), snd)
            =~= replies_for::<T>(init, fst));
    } else {
        lemma_replies_for_concat::<T>(init, fst, snd.drop_last());
        assert(fst + snd =~= (fst + snd.drop_last()).push(snd.last()));
        lemma_replies_for_push::<T>(init, fst + snd.drop_last(), snd.last());
        lemma_replies_for_push::<T>(init + saves_of(fst), snd.drop_last(), snd.last());
        match snd.last() {
            Command::Save(_) => {},
            Command::Load(q) => {
                lemma_saves_of_concat(fst, snd.drop_last());
                assert(init + saves_of(fst + snd.drop_last()) =~= (init + saves_of(fst))
                    + saves_of(snd.drop_last()));
                assert(replies_for::<T>(init, fst) + replies_for::<T>(
                    init + saves_of(fst),
                    snd,
                ) =~= (replies_for::<T>(init, fst) + replies_for::<T>(
                    init + saves_of(fst),
                    snd.drop_last(),
                )).push(T::selection((init + saves_of(fst)) + saves_of(snd.drop_last()), q)));
            },
        }
    }
}

/// A command sequence without saves persists nothing.
pub proof fn lemma_saves_of_loads_only<R, Q>(cmds: Seq<Command<R, Q>>)
    requires
        forall|i: int| 0 <= i < cmds.len() ==> cmds[i] is Load,
    ensures
        saves_of(cmds) == Seq::<R>::empty(),
    decreases cmds.len(),
{
    if cmds.len() > 0 {
        lemma_saves_of_loads_only(cmds.drop_last());
    }
}

} // verus!
