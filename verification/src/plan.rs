//! The worker's batching plan.
//!
//! Out of one burst of commands — the commands found waiting together — the
//! worker makes a plan: every maximal run of consecutive saves becomes one
//! bulk [`Step::Flush`], and every query becomes one [`Step::Answer`],
//! placed after the flush of the saves submitted ahead of it. Executing the
//! steps in order therefore persists every record of the burst and answers
//! every query only after the writes that preceded it, while a burst of
//! writes alone costs a single call to the backend.

use vstd::prelude::*;
use crate::protocol::{saves_of, replies_for, Command};
use crate::storage::Storage;

verus! {

/// One instruction of a plan, to be executed against the backend.
pub enum Step<R, Q> {
    /// Persist this batch with a single bulk call.
    Flush(Vec<R>),
    /// Answer this query from the backend.
    Answer(Q),
}

/// The mathematical shape of a step: a batch of records or a query.
pub enum StepModel<R, Q> {
    Flush(Seq<R>),
    Answer(Q),
}

/// The shape of one step.
pub open spec fn step_model<R, Q>(step: Step<R, Q>) -> StepModel<R, Q> {
    match step {
        Step::Flush(batch) => StepModel::Flush(batch@),
        Step::Answer(query) => StepModel::Answer(query),
    }
}

/// The shape of a whole plan.
pub open spec fn plan_model<R, Q>(steps: Seq<Step<R, Q>>) -> Seq<StepModel<R, Q>> {
    steps.map_values(|step: Step<R, Q>| step_model(step))
}

/// The plan a burst of commands calls for: each save joins the flush batch
/// open at the end of the plan, or opens a new one; each query closes the
/// open batch and is answered right after it.
pub open spec fn plan_of<R, Q>(cmds: Seq<Command<R, Q>>) -> Seq<StepModel<R, Q>>
    decreases cmds.len(),
{
    if cmds.len() == 0 {
        Seq::empty()
    } else {
        let prior = plan_of(cmds.drop_last());
        match cmds.last() {
            Command::Save(r) => if prior.len() > 0 && prior.last() is Flush {
                match prior.last() {
                    StepModel::Flush(batch) => prior.drop_last().push(
                        StepModel::Flush(batch.push(r)),
                    ),
                    StepModel::Answer(_) => prior,
                }
            } else {
                prior.push(StepModel::Flush(seq![r]))
            },
            Command::Load(q) => prior.push(StepModel::Answer(q)),
        }
    }
}

/// Every record that a plan flushes, in order.
pub open spec fn flushed_of<R, Q>(plan: Seq<StepModel<R, Q>>) -> Seq<R>
    decreases plan.len(),
{
    if plan.len() == 0 {
        Seq::empty()
    } else {
        match plan.last() {
            StepModel::Flush(batch) => flushed_of(plan.drop_last()) + batch,
            StepModel::Answer(_) => flushed_of(plan.drop_last()),
        }
    }
}

/// What each answering step of a plan yields when the steps are executed in
/// order against a backend that starts out holding `init`: the selection
/// out of the contents as extended by all batches flushed ahead of it.
pub open spec fn answers_of<T: Storage>(
    init: Seq<T::Record>,
    plan: Seq<StepModel<T::Record, T::Query>>,
) -> Seq<Seq<T::Record>>
    decreases plan.len(),
{
    if plan.len() == 0 {
        Seq::empty()
    } else {
        let prior = answers_of::<T>(init, plan.drop_last());
        match plan.last() {
            StepModel::Flush(_) => prior,
            StepModel::Answer(q) => prior.push(
                T::selection(init + flushed_of(plan.drop_last()), q),
            ),
        }
    }
}

/// The plan of a burst flushes exactly the records the burst asks to
/// persist, in submission order: batching loses nothing and reorders
/// nothing.
pub proof fn lemma_plan_flushes_all_saves<R, Q>(cmds: Seq<Command<R, Q>>)
    ensures
        flushed_of(plan_of(cmds)) == saves_of(cmds),
    decreases cmds.len(),
{
    if cmds.len() > 0 {
        lemma_plan_flushes_all_saves(cmds.drop_last());
        let prior = plan_of(cmds.drop_last());
        match cmds.last() {
            Command::Save(r) => {
                if prior.len() > 0 && prior.last() is Flush {
                    match prior.last() {
                        StepModel::Flush(batch) => {
                            assert(prior.drop_last().push(StepModel::Flush(
                                batch.push(r),
                            )).drop_last() =~= prior.drop_last());
                            assert(flushed_of(prior.drop_last()) + batch.push(r)
                                =~= (flushed_of(prior.drop_last()) + batch).push(r));
                        },
                        StepModel::Answer(_) => {},
                    }
                } else {
                    assert(prior.push(StepModel::Flush(seq![r])).drop_last() =~= prior);
                    assert(flushed_of(prior) + seq![r] =~= flushed_of(prior).push(r));
                }
            },
            Command::Load(_) => {
                assert(prior.push(StepModel::<R, Q>::Answer(cmds.last()->Load_0)).drop_last()
                    =~= prior);
            },
        }
    }
}

/// Executing the plan of a burst answers exactly what the burst's queries
/// are owed: each from the contents after every save submitted ahead of it.
pub proof fn lemma_plan_answers_all_queries<T: Storage>(
    init: Seq<T::Record>,
    cmds: Seq<Command<T::Record, T::Query>>,
)
    ensures
        answers_of::<T>(init, plan_of(cmds)) == replies_for::<T>(init, cmds),
    decreases cmds.len(),
{
    if cmds.len() > 0 {
        lemma_plan_answers_all_queries::<T>(init, cmds.drop_last());
        lemma_plan_flushes_all_saves(cmds.drop_last());
        let prior = plan_of(cmds.drop_last());
        match cmds.last() {
            Command::Save(r) => {
                if prior.len() > 0 && prior.last() is Flush {
                    match prior.last() {
                        StepModel::Flush(batch) => {
                            assert(prior.drop_last().push(StepModel::Flush(
                                batch.push(r),
                            )).drop_last() =~= prior.drop_last());
                        },
                        StepModel::Answer(_) => {},
                    }
                } else {
                    assert(prior.push(StepModel::Flush(seq![r])).drop_last() =~= prior);
                }
            },
            Command::Load(q) => {
                assert(prior.push(StepModel::<T::Record, T::Query>::Answer(q)).drop_last()
                    =~= prior);
            },
        }
    }
}

/// Lays out the plan for one burst of commands.
pub fn plan_burst<R, Q>(burst: Vec<Command<R, Q>>) -> (steps: Vec<Step<R, Q>>)
    ensures
        plan_model(steps@) == plan_of(burst@),
{
    let ghost full = burst@;
    let mut cmds = burst;
    let ghost mut taken: int = 0;
    let mut steps: Vec<Step<R, Q>> = Vec::new();
    let mut batch: Vec<R> = Vec::new();
    while cmds.len() > 0
        invariant
            0 <= taken <= full.len(),
            cmds@ == full.skip(taken),
            batch@.len() == 0 ==> plan_of(full.take(taken)) == plan_model(steps@),
            batch@.len() == 0 ==> (steps@.len() == 0 || plan_model(steps@).last() is Answer),
            batch@.len() > 0 ==> plan_of(full.take(taken)) == plan_model(steps@).push(
                StepModel::Flush(batch@),
            ),
        decreases cmds.len(),
    {
        let ghost old_steps = steps@;
        let ghost old_batch = batch@;
        let cmd = cmds.remove(0);
        proof {
            assert(cmd == full[taken]);
            assert(full.take(taken + 1) =~= full.take(taken).push(cmd));
            assert(full.take(taken + 1).drop_last() =~= full.take(taken));
        }
        match cmd {
            Command::Save(record) => {
                batch.push(record);
                proof {
                    let prior = plan_of(full.take(taken));
                    if old_batch.len() == 0 {
                        assert(prior.len() == 0 || !(prior.last() is Flush));
                        assert(plan_of(full.take(taken + 1)) =~= plan_model(steps@).push(
                            StepModel::Flush(batch@),
                        )) by {
                            assert(seq![cmd->Save_0] =~= batch@);
                        }
                    } else {
                        assert(prior.last() == StepModel::<R, Q>::Flush(old_batch));
                        assert(prior.drop_last() =~= plan_model(steps@));
                    }
                }
            },
            Command::Load(query) => {
                if batch.len() > 0 {
                    let mut flushed: Vec<R> = Vec::new();
                    core::mem::swap(&mut flushed, &mut batch);
                    steps.push(Step::Flush(flushed));
                }
                steps.push(Step::Answer(query));
                proof {
                    let prior = plan_of(full.take(taken));
                    if old_batch.len() == 0 {
                        assert(plan_model(steps@) =~= plan_model(old_steps).push(
                            StepModel::Answer(cmd->Load_0),
                        ));
                    } else {
                        assert(plan_model(steps@) =~= plan_model(old_steps).push(
                            StepModel::Flush(old_batch),
                        ).push(StepModel::Answer(cmd->Load_0)));
                    }
                }
            },
        }
        proof {
            taken = taken + 1;
            assert(cmds@ =~= full.skip(taken));
        }
    }
    proof {
        assert(full.take(taken) =~= full);
    }
    if batch.len() > 0 {
        steps.push(Step::Flush(batch));
        proof {
            assert(plan_model(steps@) =~= plan_of(full));
        }
    } else {
        proof {
            assert(plan_model(steps@) =~= plan_of(full));
        }
    }
    steps
}

} // verus!
