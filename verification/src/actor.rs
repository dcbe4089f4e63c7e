//! The worker that exclusively owns the backend.
//!
//! The actor consumes commands in queue-arrival order. Within one burst —
//! the commands found waiting together — it accumulates consecutive saves
//! into a bulk batch, flushes the batch with a single call to the backend
//! before answering any query that follows them, and never loses nor
//! duplicates a command. Every query is thus answered from contents that
//! reflect every save submitted ahead of it.

use vstd::prelude::*;
use crate::protocol::{
    saves_of, replies_for, joined, views_of, Command, lemma_saves_of_push,
    lemma_replies_for_push, lemma_saves_of_concat, lemma_replies_for_concat,
};
use crate::storage::Storage;

verus! {

/// The single background worker: the only holder of the backend while the
/// recorder lives.
pub struct Actor<T: Storage> {
    /// The backend this worker exclusively owns for its whole lifetime.
    pub storage: T,
}

impl<T: Storage> Actor<T> {
    /// Takes exclusive ownership of the backend.
    pub fn new(storage: T) -> (actor: Self)
        ensures
            actor.storage == storage,
    {
        Actor { storage }
    }

    /// Consumes one burst of commands: persists every saved record, in
    /// submission order, and answers every query from the contents as
    /// extended by all saves submitted ahead of it. Consecutive saves are
    /// flushed as one batch; a query never waits for saves submitted after
    /// it.
    pub fn process(&mut self, burst: Vec<Command<T::Record, T::Query>>) -> (replies: Vec<
        Vec<T::Record>,
    >)
        ensures
            final(self).storage.contents() == old(self).storage.contents() + saves_of(burst@),
            views_of(replies@) == replies_for::<T>(old(self).storage.contents(), burst@),
    {
        let ghost init = self.storage.contents();
        let ghost full = burst@;
        let ghost mut taken: int = 0;
        let mut cmds = burst;
        let mut bulk: Vec<T::Record> = Vec::new();
        let mut replies: Vec<Vec<T::Record>> = Vec::new();
        while cmds.len() > 0
            invariant
                0 <= taken <= full.len(),
                cmds@ == full.skip(taken),
                self.storage.contents() + bulk@ == init + saves_of(full.take(taken)),
                views_of(replies@) == replies_for::<T>(init, full.take(taken)),
            decreases cmds.len(),
        {
            let ghost old_replies = replies@;
            let cmd = cmds.remove(0);
            proof {
                assert(cmd == full[taken]);
                assert(full.take(taken + 1) =~= full.take(taken).push(cmd));
                lemma_saves_of_push(full.take(taken), cmd);
                lemma_replies_for_push::<T>(init, full.take(taken), cmd);
            }
            match cmd {
                Command::Save(record) => {
                    let ghost held = bulk@;
                    bulk.push(record);
                    proof {
                        assert(self.storage.contents() + bulk@ =~= (self.storage.contents()
                            + held).push(record));
                        assert(self.storage.contents() + bulk@ =~= init + saves_of(
                            full.take(taken + 1),
                        ));
                    }
                },
                Command::Load(query) => {
                    if bulk.len() > 0 {
                        self.storage.save(&mut bulk);
                    } else {
                        proof {
                            assert(self.storage.contents() + bulk@
                                =~= self.storage.contents());
                        }
                    }
                    let answer = self.storage.load(query);
                    replies.push(answer);
                    proof {
                        assert(views_of(replies@) =~= views_of(old_replies).push(
                            replies@.last()@,
                        ));
                    }
                },
            }
            proof {
                taken = taken + 1;
                assert(cmds@ =~= full.skip(taken));
            }
        }
        proof {
            assert(full.take(taken) =~= full);
        }
        if bulk.len() > 0 {
            self.storage.save(&mut bulk);
        } else {
            proof {
                assert(self.storage.contents() + bulk@ =~= self.storage.contents());
            }
        }
        replies
    }

    /// The worker's event loop, drained to the end: consumes every burst in
    /// arrival order, then hands the backend back. Burst boundaries decide
    /// only how writes are batched; which records end up persisted, and
    /// what every query is answered with, depend on the flat command
    /// sequence alone.
    pub fn run(self, bursts: Vec<Vec<Command<T::Record, T::Query>>>) -> (outcome: (
        T,
        Vec<Vec<T::Record>>,
    ))
        ensures
            outcome.0.contents() == self.storage.contents() + saves_of(
                joined(views_of(bursts@)),
            ),
            views_of(outcome.1@) == replies_for::<T>(
                self.storage.contents(),
                joined(views_of(bursts@)),
            ),
    {
        let ghost init = self.storage.contents();
        let ghost full = views_of(bursts@);
        let ghost mut taken: int = 0;
        let mut worker = self;
        let mut pending = bursts;
        let mut replies: Vec<Vec<T::Record>> = Vec::new();
        while pending.len() > 0
            invariant
                0 <= taken <= full.len(),
                views_of(pending@) == full.skip(taken),
                worker.storage.contents() == init + saves_of(joined(full.take(taken))),
                views_of(replies@) == replies_for::<T>(init, joined(full.take(taken))),
            decreases pending.len(),
        {
            let ghost old_replies = replies@;
            let ghost waiting = pending@;
            let burst = pending.remove(0);
            proof {
                assert(burst == waiting[0]);
                assert(views_of(waiting) == full.skip(taken));
                assert(views_of(waiting).len() == waiting.len());
                assert(waiting.len() > 0);
                assert(taken < full.len());
                assert(views_of(waiting)[0] == waiting[0]@);
                assert(full.skip(taken)[0] == full[0 + taken]);
                assert(burst@ == full[taken]);
            }
            let mut answers = worker.process(burst);
            let ghost answered = answers@;
            replies.append(&mut answers);
            proof {
                assert(full.take(taken + 1) =~= full.take(taken).push(burst@));
                assert(full.take(taken + 1).drop_last() =~= full.take(taken));
                assert(joined(full.take(taken + 1)) =~= joined(full.take(taken)) + burst@);
                lemma_saves_of_concat(joined(full.take(taken)), burst@);
                lemma_replies_for_concat::<T>(init, joined(full.take(taken)), burst@);
                assert(views_of(replies@) =~= views_of(old_replies) + views_of(answered));
                assert(pending@ == waiting.remove(0));
                assert forall|i: int| 0 <= i < pending@.len() implies views_of(pending@)[i]
                    == full.skip(taken + 1)[i] by {
                    assert(pending@[i] == waiting[i + 1]);
                    assert(views_of(pending@)[i] == pending@[i]@);
                    assert(views_of(waiting)[i + 1] == waiting[i + 1]@);
                    assert(full.skip(taken)[i + 1] == full[i + 1 + taken]);
                    assert(full.skip(taken + 1)[i] == full[i + (taken + 1)]);
                }
                assert(views_of(pending@).len() == full.skip(taken + 1).len());
                assert(views_of(pending@) =~= full.skip(taken + 1));
                taken = taken + 1;
            }
        }
        proof {
            assert(full.take(taken) =~= full);
        }
        (worker.storage, replies)
    }
}

} // verus!
