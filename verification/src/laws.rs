//! Laws of the protocol, each stated for all inputs and proved once.

use vstd::prelude::*;
use crate::plan::{plan_of, StepModel};
use crate::protocol::{
    saves_of, replies_for, Command, lemma_replies_for_push, lemma_saves_of_loads_only,
};
use crate::storage::Storage;

verus! {

/// A sequence of saves persists exactly the submitted records, in
/// submission order: nothing is lost, duplicated or reordered between
/// submission and the backend.
pub proof fn lemma_saves_in_submission_order<R, Q>(records: Seq<R>)
    ensures
        saves_of(records.map_values(|r: R| Command::<R, Q>::Save(r))) == records,
    decreases records.len(),
{
    let cmds = records.map_values(|r: R| Command::<R, Q>::Save(r));
    if records.len() == 0 {
        assert(cmds =~= Seq::<Command<R, Q>>::empty());
        assert(saves_of(cmds) =~= records);
    } else {
        lemma_saves_in_submission_order::<R, Q>(records.drop_last());
        assert(cmds.drop_last() =~= records.drop_last().map_values(
            |r: R| Command::<R, Q>::Save(r),
        ));
        assert(cmds.last() == Command::<R, Q>::Save(records.last()));
        assert(saves_of(cmds) =~= records.drop_last().push(records.last()));
        assert(records.drop_last().push(records.last()) =~= records);
    }
}

/// A command sequence without queries is owed no answers.
pub proof fn lemma_replies_for_saves_only<T: Storage>(
    init: Seq<T::Record>,
    cmds: Seq<Command<T::Record, T::Query>>,
)
    requires
        forall|i: int| 0 <= i < cmds.len() ==> cmds[i] is Save,
    ensures
        replies_for::<T>(init, cmds) == Seq::<Seq<T::Record>>::empty(),
    decreases cmds.len(),
{
    if cmds.len() > 0 {
        lemma_replies_for_saves_only::<T>(init, cmds.drop_last());
    }
}

/// Bulk coalescing: a burst of saves alone is planned as exactly one bulk
/// flush, holding all its records in submission order — the backend sees a
/// single batched call for the whole burst.
pub proof fn lemma_bulk_coalescing<R, Q>(burst: Seq<Command<R, Q>>)
    requires
        burst.len() > 0,
        forall|i: int| 0 <= i < burst.len() ==> burst[i] is Save,
    ensures
        plan_of(burst) == seq![StepModel::<R, Q>::Flush(saves_of(burst))],
    decreases burst.len(),
{
    assert(burst.last() is Save);
    if burst.len() == 1 {
        assert(burst.drop_last() =~= Seq::<Command<R, Q>>::empty());
        assert(saves_of(burst.drop_last()) =~= Seq::<R>::empty());
        assert(saves_of(burst) == saves_of(burst.drop_last()).push(burst.last()->Save_0));
        assert(seq![burst.last()->Save_0] =~= saves_of(burst));
        assert(plan_of(burst) =~= seq![StepModel::<R, Q>::Flush(saves_of(burst))]);
    } else {
        assert(forall|i: int| 0 <= i < burst.drop_last().len() ==> burst.drop_last()[i]
            is Save);
        lemma_bulk_coalescing(burst.drop_last());
        let prior = plan_of(burst.drop_last());
        assert(prior.last() is Flush);
        assert(prior.drop_last() =~= Seq::<StepModel<R, Q>>::empty());
        assert(plan_of(burst) =~= seq![StepModel::<R, Q>::Flush(
            saves_of(burst.drop_last()).push(burst.last()->Save_0),
        )]);
        assert(saves_of(burst) =~= saves_of(burst.drop_last()).push(burst.last()->Save_0));
    }
}

/// Read after write: a query submitted after a run of saves is answered
/// from the contents as extended by exactly those records — every write
/// submitted ahead of the query is visible to it.
pub proof fn lemma_read_after_write<T: Storage>(
    init: Seq<T::Record>,
    records: Seq<T::Record>,
    query: T::Query,
)
    ensures
        replies_for::<T>(
            init,
            records.map_values(|r: T::Record| Command::<T::Record, T::Query>::Save(r)).push(
                Command::Load(query),
            ),
        ) == seq![T::selection(init + records, query)],
{
    let cmds = records.map_values(|r: T::Record| Command::<T::Record, T::Query>::Save(r));
    assert(forall|i: int| 0 <= i < cmds.len() ==> cmds[i] is Save);
    lemma_saves_in_submission_order::<T::Record, T::Query>(records);
    lemma_replies_for_saves_only::<T>(init, cmds);
    lemma_replies_for_push::<T>(init, cmds, Command::Load(query));
    assert(replies_for::<T>(init, cmds.push(Command::Load(query))) =~= seq![T::selection(
        init + records,
        query,
    )]);
}

/// Query idempotence: repeating a load with the same query, with no saves
/// in between, is owed the same records every time.
pub proof fn lemma_repeated_loads<T: Storage>(init: Seq<T::Record>, query: T::Query, times: nat)
    ensures
        replies_for::<T>(
            init,
            Seq::new(times, |i: int| Command::<T::Record, T::Query>::Load(query)),
        ) == Seq::new(times, |i: int| T::selection(init, query)),
    decreases times,
{
    let cmds = Seq::new(times, |i: int| Command::<T::Record, T::Query>::Load(query));
    let answers = Seq::new(times, |i: int| T::selection(init, query));
    if times > 0 {
        lemma_repeated_loads::<T>(init, query, (times - 1) as nat);
        let prefix = Seq::new(
            (times - 1) as nat,
            |i: int| Command::<T::Record, T::Query>::Load(query),
        );
        assert(cmds.drop_last() =~= prefix);
        assert(forall|i: int| 0 <= i < prefix.len() ==> prefix[i] is Load);
        lemma_saves_of_loads_only(prefix);
        assert(init + saves_of(prefix) =~= init);
        assert(answers =~= Seq::new((times - 1) as nat, |i: int| T::selection(init, query)).push(
            T::selection(init, query),
        ));
    } else {
        assert(cmds =~= Seq::<Command<T::Record, T::Query>>::empty());
        assert(answers =~= Seq::<Seq<T::Record>>::empty());
    }
}

} // verus!
