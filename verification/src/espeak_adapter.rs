//! The decisions of the espeak-ng phonemizer adapter, whose worker thread
//! and bounded queue live outside the library: the queue capacity, and
//! what a full queue, a lost worker or a backend failure is reported as.

use vstd::prelude::*;
use crate::errors::PhonemizationError;
use crate::espeak::ESpeakError;
use crate::ports::Sentence;
use crate::text::owned;

verus! {

/// The queue capacity used when none is given.
pub const DEFAULT_QUEUE_CAPACITY: usize = 16;

/// The capacity a queue asked for `requested` jobs gets: the request, but
/// at least one.
pub open spec fn capacity_of(requested: usize) -> usize {
    if requested >= 1 { requested } else { 1 }
}

/// The capacity of the job queue: the requested one, but at least one.
pub fn queue_capacity(requested: usize) -> (r: usize)
    ensures
        r == capacity_of(requested),
{
    if requested >= 1 { requested } else { 1 }
}

/// Why a job could not be handed to the worker.
#[derive(Debug, Clone, Copy, PartialEq, Eq, Structural)]
pub enum SendFailure {
    Full,
    Disconnected,
}

/// The error a refused hand-off is reported as: a full queue is
/// `QueueFull`, a gone worker a backend failure.
pub fn send_failure(f: SendFailure) -> (r: PhonemizationError)
    ensures
        f is Full ==> r is QueueFull,
        f is Disconnected ==> (r matches PhonemizationError::BackendFailure(msg) && msg@ == "worker thread disconnected"@),
{
    match f {
        SendFailure::Full => PhonemizationError::QueueFull,
        SendFailure::Disconnected => PhonemizationError::BackendFailure(owned("worker thread disconnected")),
    }
}

/// The error a backend failure is reported as: a timeout stays a
/// timeout, any other failure is a backend failure carrying its message.
pub fn backend_failure(e: &ESpeakError) -> (r: PhonemizationError)
    ensures
        e is Timeout ==> r is Timeout,
        e is Failure ==> (r matches PhonemizationError::BackendFailure(msg) && msg@ == e.message_spec()),
{
    if e.is_timeout() {
        PhonemizationError::Timeout
    } else {
        PhonemizationError::BackendFailure(e.message())
    }
}

/// The result of a phonemization job from the worker's reply: `None`
/// when the worker went away before replying.
pub fn worker_outcome(reply: Option<Result<Vec<String>, ESpeakError>>) -> (r: Result<Vec<Sentence>, PhonemizationError>)
    ensures
        reply is None ==> (r matches Err(PhonemizationError::BackendFailure(msg)) && msg@ == "worker thread disconnected"@),
        reply matches Some(Err(e)) ==> (r matches Err(err) && (e is Timeout ==> err is Timeout) && (e is Failure ==> (err matches PhonemizationError::BackendFailure(msg) && msg@ == e.message_spec()))),
        reply matches Some(Ok(raw)) ==> (r matches Ok(v) && v@.len() == raw@.len() && forall|i: int| 0 <= i < v@.len() ==> #[trigger] v@[i].0 == raw@[i]),
{
    match reply {
        None => Err(send_failure(SendFailure::Disconnected)),
        Some(Err(e)) => Err(backend_failure(&e)),
        Some(Ok(raw)) => {
            let mut out: Vec<Sentence> = Vec::new();
            let ghost all = raw@;
            for s in it: raw.into_iter()
                invariant
                    it.seq() == all,
                    out@.len() == it.index(),
                    forall|i: int| 0 <= i < out@.len() ==> #[trigger] out@[i].0 == all[i],
            {
                out.push(Sentence(s));
            }
            Ok(out)
        },
    }
}

/// A queue always has room for one job, so a lone call is never refused
/// as a full queue; a capacity of zero behaves as one, and clamping again
/// changes nothing.
pub proof fn lemma_capacity_clamped(requested: usize)
    ensures
        capacity_of(requested) >= 1,
        requested >= 1 ==> capacity_of(requested) == requested,
        capacity_of(0) == capacity_of(1),
        capacity_of(capacity_of(requested)) == capacity_of(requested),
{
}

} // verus!
