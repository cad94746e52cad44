//! Query contexts: the chunk-byte-size budget and the single-use abort
//! trigger, plus the abortable execution wrapper that turns a fired trigger
//! into a cancellation error at the next poll.

use vstd::prelude::*;

use crate::error::Error;

verus! {

/// The upper bound on how large an emitted vector chunk may grow before it
/// is flushed.
#[derive(Clone, Copy, Debug, PartialEq, Eq, Structural)]
pub struct ChunkByteSize(pub usize);

impl ChunkByteSize {
    /// The unbounded budget.
    pub fn max() -> (r: ChunkByteSize)
        ensures
            r.0 == usize::MAX,
    {
        ChunkByteSize(usize::MAX)
    }

    pub fn new(bytes: usize) -> (r: ChunkByteSize)
        ensures
            r.0 == bytes,
    {
        ChunkByteSize(bytes)
    }

    pub fn bytes(&self) -> (r: usize)
        ensures
            r == self.0,
    {
        self.0
    }
}

/// The single-use handle that cancels a query; handed out once per context.
#[derive(Debug)]
pub struct QueryAbortTrigger {}

/// Per-query execution parameters: the chunk budget and the abort trigger,
/// which can be taken exactly once.
#[derive(Debug)]
pub struct QueryContextImpl {
    chunk_byte_size: ChunkByteSize,
    abort_trigger: Option<QueryAbortTrigger>,
}

impl QueryContextImpl {
    /// Whether the abort trigger is still available.
    pub closed spec fn has_trigger(self) -> bool {
        self.abort_trigger is Some
    }

    pub closed spec fn spec_chunk_byte_size(self) -> ChunkByteSize {
        self.chunk_byte_size
    }

    /// A fresh context whose abort trigger has not been handed out yet.
    pub fn new(chunk_byte_size: ChunkByteSize) -> (r: QueryContextImpl)
        ensures
            r.spec_chunk_byte_size() == chunk_byte_size,
            r.has_trigger(),
    {
        QueryContextImpl { chunk_byte_size, abort_trigger: Some(QueryAbortTrigger {  }) }
    }

    pub fn chunk_byte_size(&self) -> (r: ChunkByteSize)
        ensures
            r == self.spec_chunk_byte_size(),
    {
        self.chunk_byte_size
    }

    /// Hands the abort trigger out; a second call is the dedicated error,
    /// so the trigger can be fired at most once.
    pub fn abort_trigger(&mut self) -> (r: Result<QueryAbortTrigger, Error>)
        ensures
            r is Ok <==> old(self).has_trigger(),
            r is Err <==> r == Err::<QueryAbortTrigger, Error>(Error::AbortTriggerAlreadyUsed)
                && !old(self).has_trigger(),
            !final(self).has_trigger(),
            final(self).spec_chunk_byte_size() == old(self).spec_chunk_byte_size(),
    {
        match self.abort_trigger.take() {
            Some(t) => Ok(t),
            None => Err(Error::AbortTriggerAlreadyUsed),
        }
    }
}

/// A query result stream together with its abort signal: items are pulled
/// in order until the trigger fires; from then on every poll yields the
/// cancellation error, never a success.
#[derive(Debug)]
pub struct AbortableQueryExecution<T> {
    items: Vec<Result<T, Error>>,
    aborted: bool,
}

impl<T> AbortableQueryExecution<T> {
    pub closed spec fn remaining(self) -> Seq<Result<T, Error>> {
        self.items@
    }

    pub closed spec fn is_aborted(self) -> bool {
        self.aborted
    }

    pub fn new(items: Vec<Result<T, Error>>) -> (r: AbortableQueryExecution<T>)
        ensures
            r.remaining() == items@,
            !r.is_aborted(),
    {
        AbortableQueryExecution { items, aborted: false }
    }

    /// Fires the abort signal: consumes the single-use trigger.
    pub fn fire_abort(&mut self, trigger: QueryAbortTrigger)
        ensures
            final(self).is_aborted(),
            final(self).remaining() == old(self).remaining(),
    {
        let QueryAbortTrigger {  } = trigger;
        self.aborted = true;
    }

    /// Pulls the next item.  After an abort the result is always the
    /// cancellation error and never a success; the call always returns at
    /// once, whatever the state.
    pub fn poll_next(&mut self) -> (r: Option<Result<T, Error>>)
        ensures
            old(self).is_aborted() ==> r == Some(Err::<T, Error>(Error::Cancelled)) && *final(self)
                == *old(self),
            !old(self).is_aborted() ==> final(self).is_aborted() == old(self).is_aborted(),
            (!old(self).is_aborted() && old(self).remaining().len() > 0) ==> r == Some(
                old(self).remaining()[0],
            ) && final(self).remaining() == old(self).remaining().skip(1),
            (!old(self).is_aborted() && old(self).remaining().len() == 0) ==> r
                == None::<Result<T, Error>> && *final(self) == *old(self),
    {
        if self.aborted {
            return Some(Err(Error::Cancelled));
        }
        if self.items.len() > 0 {
            let item = self.items.remove(0);
            proof {
                assert(self.remaining() =~= old(self).remaining().skip(1));
            }
            Some(item)
        } else {
            None
        }
    }
}

} // verus!
