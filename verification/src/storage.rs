//! The storage contract the worker depends on, and the in-memory reference
//! backend.
//!
//! A backend is modelled by the sequence of records it holds
//! ([`Storage::contents`]) and by a deterministic reading function
//! ([`Storage::selection`]) that says which records a query selects out of
//! given contents. `save` must append the whole batch in order; `load` must
//! answer from the current contents without changing them. Both are
//! infallible at this interface: retry and drop policy belong to the
//! implementation.

use vstd::prelude::*;
use core::ops::Range;
use crate::protocol::{joined, views_of};

verus! {

/// A caller-supplied persistence backend.
///
/// Exactly one worker holds exclusive mutable access to a value of this
/// trait for its whole lifetime, so implementations need no internal
/// synchronisation.
pub trait Storage: Sized {
    /// The unit of data being persisted.
    type Record;

    /// Describes the desired data for a load operation, e.g. a filter.
    type Query;

    /// The records the backend currently holds, in the order it keeps them.
    spec fn contents(&self) -> Seq<Self::Record>;

    /// The records a query selects out of given contents. A function of the
    /// contents and the query alone, so that reads are deterministic and a
    /// repeated load without intervening saves returns the same records.
    spec fn selection(contents: Seq<Self::Record>, query: Self::Query) -> Seq<Self::Record>;

    /// Persists all given records in one call, preserving their order, and
    /// leaves the batch buffer empty so the caller can reuse it. The batch
    /// is passed as a whole to enable bulk insertion.
    fn save(&mut self, records: &mut Vec<Self::Record>)
        ensures
            final(self).contents() == old(self).contents() + old(records)@,
            final(records)@ == Seq::<Self::Record>::empty(),
    ;

    /// Returns the records the query selects, as of the moment of the call,
    /// reflecting everything already applied by prior `save` calls.
    fn load(&mut self, query: Self::Query) -> (records: Vec<Self::Record>)
        ensures
            final(self).contents() == old(self).contents(),
            records@ == Self::selection(old(self).contents(), query),
    ;
}

/// The position range a query selects from contents of length `len`: the
/// range's bounds, each clamped to the length, and an empty span when the
/// bounds are out of order.
pub open spec fn clamped_span(query: Range<usize>, len: nat) -> (int, int) {
    let lo = if query.start <= len { query.start as int } else { len as int };
    let hi = if query.end <= len { query.end as int } else { len as int };
    if hi < lo {
        (lo, lo)
    } else {
        (lo, hi)
    }
}

/// The in-memory reference backend: a plain vector of records. `save`
/// appends all given records preserving order; `load` with a contiguous
/// index range returns the records in that position range, the range
/// clamped to the records actually present.
impl<T: Copy> Storage for Vec<T> {
    type Record = T;

    type Query = Range<usize>;

    open spec fn contents(&self) -> Seq<T> {
        self@
    }

    open spec fn selection(contents: Seq<T>, query: Range<usize>) -> Seq<T> {
        let (lo, hi) = clamped_span(query, contents.len());
        contents.subrange(lo, hi)
    }

    fn save(&mut self, records: &mut Vec<T>) {
        self.append(records);
    }

    fn load(&mut self, query: Range<usize>) -> (records: Vec<T>) {
        let len = self.len();
        let lo = if query.start <= len {
            query.start
        } else {
            len
        };
        let mut hi = if query.end <= len {
            query.end
        } else {
            len
        };
        if hi < lo {
            hi = lo;
        }
        let mut records: Vec<T> = Vec::new();
        let mut i = lo;
        while i < hi
            invariant
                lo <= i <= hi <= self.len(),
                self@ == old(self)@,
                records@ == self@.subrange(lo as int, i as int),
            decreases hi - i,
        {
            records.push(self[i]);
            assert(records@ =~= self@.subrange(lo as int, i + 1));
            i = i + 1;
        }
        records
    }
}

/// An in-memory backend that keeps each bulk save as one batch, in call
/// order, so its holder can observe how writes were coalesced. Useful as a
/// test double; it answers every query with nothing.
pub struct BatchLog<T> {
    /// The batch of each bulk save call, in call order.
    pub batches: Vec<Vec<T>>,
}

impl<T> BatchLog<T> {
    /// An empty log: no bulk call has been observed yet.
    pub fn new() -> (log: Self)
        ensures
            log.batches@ == Seq::<Vec<T>>::empty(),
    {
        BatchLog { batches: Vec::new() }
    }
}

impl<T> Storage for BatchLog<T> {
    type Record = T;

    type Query = ();

    open spec fn contents(&self) -> Seq<T> {
        joined(views_of(self.batches@))
    }

    open spec fn selection(contents: Seq<T>, query: ()) -> Seq<T> {
        Seq::empty()
    }

    fn save(&mut self, records: &mut Vec<T>) {
        let mut batch: Vec<T> = Vec::new();
        core::mem::swap(&mut batch, records);
        self.batches.push(batch);
        proof {
            let prior = views_of(old(self).batches@);
            assert(views_of(self.batches@) =~= prior.push(old(records)@));
            assert(prior.push(old(records)@).drop_last() =~= prior);
            assert(joined(views_of(self.batches@)) == joined(prior) + old(records)@);
        }
    }

    fn load(&mut self, _query: ()) -> (records: Vec<T>) {
        Vec::new()
    }
}

/// A heap-indirected backend: a box behaves exactly as the backend it
/// holds, so a caller may hand the worker an owned, boxed storage chosen at
/// run time under the same contract.
impl<T: Storage> Storage for Box<T> {
    type Record = T::Record;

    type Query = T::Query;

    open spec fn contents(&self) -> Seq<T::Record> {
        (**self).contents()
    }

    open spec fn selection(contents: Seq<T::Record>, query: T::Query) -> Seq<T::Record> {
        T::selection(contents, query)
    }

    fn save(&mut self, records: &mut Vec<T::Record>) {
        (**self).save(records);
    }

    fn load(&mut self, query: T::Query) -> (records: Vec<T::Record>) {
        (**self).load(query)
    }
}

} // verus!
