//! The two-phase information query: the size of the value first, then the
//! value itself into a buffer of exactly that size.
//!
//! The binding layer asks `next_call` which native call to make, makes it, and
//! hands its answer back through `size_reply` or `value_reply`.

use crate::decode::{decoded, lemma_empty_decodes_empty, ByteOrder, Shape};
use crate::info_type::InfoValue;
use crate::status::{status_result, CL_SUCCESS};
use vstd::prelude::*;

verus! {

/// A native query call.
#[derive(Clone, Copy, Debug, PartialEq, Eq, Structural)]
pub enum Call {
    /// Ask for the number of bytes of the value: no buffer, zero capacity.
    Size,
    /// Fetch the value into a buffer of exactly this many bytes.
    Value(usize),
}

/// Where a query stands.
#[derive(Clone, Copy, Debug, PartialEq, Eq, Structural)]
pub enum Stage {
    /// The size of the value is not known yet.
    Sizing,
    /// The value is to be fetched into a buffer of this many bytes.
    Fetching(usize),
    /// The query is over: it failed, or the value was fetched.
    Done,
}

/// A query in progress, with the number of native calls it has made.
#[derive(Clone, Copy, Debug, PartialEq, Eq, Structural)]
pub struct InfoQuery {
    pub stage: Stage,
    pub calls: usize,
}

impl InfoQuery {
    /// A new query on a key whose value has `width` bytes where that is fixed:
    /// then the size query is skipped.
    pub open spec fn start(width: Option<usize>) -> InfoQuery {
        match width {
            Some(w) => InfoQuery { stage: Stage::Fetching(w), calls: 0 },
            None => InfoQuery { stage: Stage::Sizing, calls: 0 },
        }
    }

    /// The stage and the count of calls agree.
    pub open spec fn wf(self) -> bool {
        &&& self.calls <= 2
        &&& self.stage is Sizing ==> self.calls == 0
        &&& self.stage is Fetching ==> self.calls <= 1
    }

    /// The call that the query makes next, if any.
    pub open spec fn call(self) -> Option<Call> {
        match self.stage {
            Stage::Sizing => Some(Call::Size),
            Stage::Fetching(n) => Some(Call::Value(n)),
            Stage::Done => None,
        }
    }

    /// The query after the size query answered with `status` and `size`:
    /// the value is fetched with exactly that size, or the query fails.
    pub open spec fn sized(self, status: i32, size: usize) -> InfoQuery {
        InfoQuery {
            stage: if status == CL_SUCCESS {
                Stage::Fetching(size)
            } else {
                Stage::Done
            },
            calls: (self.calls + 1) as usize,
        }
    }

    /// The query after the value query answered.
    pub open spec fn fetched(self) -> InfoQuery {
        InfoQuery { stage: Stage::Done, calls: (self.calls + 1) as usize }
    }

    /// A new query; `width` is the fixed number of bytes of the key's value,
    /// or `None` where the runtime reports it.
    pub fn new(width: Option<usize>) -> (q: InfoQuery)
        ensures
            q == InfoQuery::start(width),
            q.wf(),
    {
        match width {
            Some(w) => InfoQuery { stage: Stage::Fetching(w), calls: 0 },
            None => InfoQuery { stage: Stage::Sizing, calls: 0 },
        }
    }

    /// The native call to make next, or `None` once the query is over.
    pub fn next_call(&self) -> (c: Option<Call>)
        ensures
            c == self.call(),
    {
        match self.stage {
            Stage::Sizing => Some(Call::Size),
            Stage::Fetching(n) => Some(Call::Value(n)),
            Stage::Done => None,
        }
    }

    /// Takes the answer to the size query. A failure status ends the query
    /// and is returned unchanged; a size of zero is no failure.
    pub fn size_reply(&mut self, status: i32, size: usize) -> (r: Result<(), i32>)
        requires
            old(self).wf(),
            old(self).stage is Sizing,
        ensures
            *final(self) == old(self).sized(status, size),
            final(self).wf(),
            r == status_result(status, ()),
    {
        self.calls = self.calls + 1;
        if status == CL_SUCCESS {
            self.stage = Stage::Fetching(size);
            Ok(())
        } else {
            self.stage = Stage::Done;
            Err(status)
        }
    }

    /// Takes the answer to the value query: the buffer that the runtime
    /// filled, handed on as it is, or the failure status unchanged.
    pub fn value_reply<T>(&mut self, status: i32, buffer: T) -> (r: Result<T, i32>)
        requires
            old(self).wf(),
            old(self).stage is Fetching,
        ensures
            *final(self) == old(self).fetched(),
            final(self).wf(),
            r == status_result(status, buffer),
    {
        self.calls = self.calls + 1;
        self.stage = Stage::Done;
        if status == CL_SUCCESS {
            Ok(buffer)
        } else {
            Err(status)
        }
    }
}

/// A query on a key whose size varies makes exactly two native calls, the size
/// query and then the value query with the reported size, unless the size
/// query fails, which ends it at once. A query on a key of fixed width makes
/// exactly one, the value query with that width.
pub proof fn lemma_query_calls(width: Option<usize>, status: i32, size: usize)
    ensures
        width is None ==> {
            let q0 = InfoQuery::start(width);
            let q1 = q0.sized(status, size);
            &&& q0.call() == Some(Call::Size)
            &&& status == CL_SUCCESS ==> q1.call() == Some(Call::Value(size))
                && q1.fetched().call() is None && q1.fetched().calls == 2
            &&& status != CL_SUCCESS ==> q1.call() is None && q1.calls == 1
        },
        width is Some ==> {
            let q0 = InfoQuery::start(width);
            &&& q0.call() == Some(Call::Value(width->Some_0))
            &&& q0.fetched().call() is None
            &&& q0.fetched().calls == 1
        },
{
}

/// A size of zero reported by a successful size query is no failure: the
/// query goes on to fetch an empty buffer, which decodes to an empty string
/// or an empty list.
pub proof fn lemma_zero_size_is_no_error(order: ByteOrder)
    ensures
        status_result(CL_SUCCESS, ()) is Ok,
        InfoQuery::start(None).sized(CL_SUCCESS, 0).call() == Some(Call::Value(0)),
        decoded(Shape::Str, Seq::empty(), order) == Some(InfoValue::Str(Seq::empty())),
        decoded(Shape::VecNameVersion, Seq::empty(), order) == Some(
            InfoValue::VecNameVersion(Seq::empty()),
        ),
        decoded(Shape::VecUlong, Seq::empty(), order) == Some(InfoValue::VecUlong(Seq::empty())),
{
    lemma_empty_decodes_empty(order);
}

} // verus!
