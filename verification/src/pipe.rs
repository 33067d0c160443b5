//! A pool of workers that share one queue, and each give one result in the end.

use crate::error::{panic_payload_to_string, PanicPayload, PiperError};
use crate::links::LinkRecvError;
use crate::text::{concat, decimal, decimal_text};
use vstd::prelude::*;

verus! {

/// The names of the workers of a pool.
pub open spec fn pipe_worker_text(index: int) -> Seq<char> {
    "pipe-worker-"@ + decimal(index as nat)
}

/// Names the workers of a pool with that many. A pool without workers is refused.
pub fn plan_workers<E>(num_workers: usize) -> (r: Result<Vec<String>, PiperError<E>>)
    ensures
        if num_workers == 0 {
            r matches Err(PiperError::ZeroWorkers)
        } else {
            r matches Ok(names) && names@.len() == num_workers && forall|i: int|
                0 <= i < num_workers ==> (#[trigger] names@[i])@ == pipe_worker_text(i)
        },
{
    if num_workers == 0 {
        return Err(PiperError::ZeroWorkers);
    }
    let mut names: Vec<String> = Vec::new();
    for i in 0..num_workers
        invariant
            names@.len() == i,
            forall|k: int| 0 <= k < i ==> (#[trigger] names@[k])@ == pipe_worker_text(k),
    {
        let number: String = decimal_text(i as u64);
        names.push(concat("pipe-worker-", number.as_str()));
    }
    Ok(names)
}

/// What has to be done next for a worker of a pool. `S` is what it keeps, `I` an item.
#[derive(Debug)]
pub enum PipeAction<S, I, O, E> {
    Init,
    /// Look whether the pool is cancelled.
    LoadCancel,
    /// Wait for an item.
    Receive,
    Process { storage: S, item: I },
    Finalize { storage: S },
    /// The worker is done, with its result.
    Finish(Result<O, PipeFault<E>>),
}

/// What made a worker of a pool fail.
#[derive(Debug)]
pub enum PipeFault<E> {
    Init(E),
    Process(E),
    Finalize(E),
}

/// What came of what was done.
#[derive(Debug)]
pub enum PipeReply<S, I, O, E> {
    Initialized(Result<S, E>),
    Cancel(bool),
    Received(Result<I, LinkRecvError>),
    Processed { storage: S, result: Result<(), E> },
    Finalized(Result<O, E>),
}

/// Where a worker of a pool is.
#[derive(Clone, Copy, Debug, PartialEq, Eq, Structural)]
pub enum PipePhase {
    Initializing,
    Looking,
    Receiving,
    Processing,
    Finalizing,
    Done,
}

/// A worker of a pool.
#[derive(Debug)]
pub struct PipeWorker<S> {
    pub phase: PipePhase,
    pub storage: Option<S>,
}

impl<S> PipeWorker<S> {
    /// Whether the worker holds what it keeps exactly where it should.
    pub open spec fn wf(self) -> bool {
        self.storage is Some <==> (self.phase is Looking || self.phase is Receiving)
    }

    /// Whether this can come of what the worker had done last.
    pub open spec fn expects<I, O, E>(self, reply: PipeReply<S, I, O, E>) -> bool {
        match self.phase {
            PipePhase::Initializing => reply is Initialized,
            PipePhase::Looking => reply is Cancel,
            PipePhase::Receiving => reply is Received,
            PipePhase::Processing => reply is Processed,
            PipePhase::Finalizing => reply is Finalized,
            PipePhase::Done => false,
        }
    }

    /// Where the worker goes from where it is, and what has to be done next.
    pub open spec fn step<I, O, E>(self, reply: PipeReply<S, I, O, E>) -> (
        Self,
        PipeAction<S, I, O, E>,
    ) {
        let done = PipeWorker { phase: PipePhase::Done, storage: None };
        let finalizing = (
            PipeWorker { phase: PipePhase::Finalizing, storage: None },
            PipeAction::Finalize { storage: self.storage->0 },
        );
        let looking = PipeWorker { phase: PipePhase::Looking, ..self };
        match (self.phase, reply) {
            (PipePhase::Initializing, PipeReply::Initialized(Ok(storage))) => (
                PipeWorker { phase: PipePhase::Looking, storage: Some(storage) },
                PipeAction::LoadCancel,
            ),
            (PipePhase::Initializing, PipeReply::Initialized(Err(error))) => (
                done,
                PipeAction::Finish(Err(PipeFault::Init(error))),
            ),
            (PipePhase::Looking, PipeReply::Cancel(cancel)) => if cancel {
                finalizing
            } else {
                (PipeWorker { phase: PipePhase::Receiving, ..self }, PipeAction::Receive)
            },
            (PipePhase::Receiving, PipeReply::Received(Ok(item))) => (
                PipeWorker { phase: PipePhase::Processing, storage: None },
                PipeAction::Process { storage: self.storage->0, item },
            ),
            (PipePhase::Receiving, PipeReply::Received(Err(LinkRecvError::Timeout))) => (
                looking,
                PipeAction::LoadCancel,
            ),
            (PipePhase::Receiving, PipeReply::Received(Err(LinkRecvError::Closed))) => finalizing,
            (PipePhase::Processing, PipeReply::Processed { storage, result: Ok(_) }) => (
                PipeWorker { phase: PipePhase::Looking, storage: Some(storage) },
                PipeAction::LoadCancel,
            ),
            (PipePhase::Processing, PipeReply::Processed { storage, result: Err(error) }) => (
                done,
                PipeAction::Finish(Err(PipeFault::Process(error))),
            ),
            (PipePhase::Finalizing, PipeReply::Finalized(Ok(output))) => (
                done,
                PipeAction::Finish(Ok(output)),
            ),
            (PipePhase::Finalizing, PipeReply::Finalized(Err(error))) => (
                done,
                PipeAction::Finish(Err(PipeFault::Finalize(error))),
            ),
            _ => (self, PipeAction::LoadCancel),
        }
    }

    /// A worker that begins, and the first thing to be done.
    pub fn begin<I, O, E>() -> (r: (Self, PipeAction<S, I, O, E>))
        ensures
            r.0.wf(),
            r.0.phase is Initializing,
            r.1 == PipeAction::<S, I, O, E>::Init,
    {
        (PipeWorker { phase: PipePhase::Initializing, storage: None }, PipeAction::Init)
    }

    fn finish<I, O, E>(&mut self, result: Result<O, PipeFault<E>>) -> (r: PipeAction<S, I, O, E>)
        ensures
            *final(self) == (PipeWorker { phase: PipePhase::Done, storage: None::<S> }),
            r == PipeAction::<S, I, O, E>::Finish(result),
    {
        self.phase = PipePhase::Done;
        self.storage = None;
        PipeAction::Finish(result)
    }

    fn finalize<I, O, E>(&mut self) -> (r: PipeAction<S, I, O, E>)
        requires
            old(self).storage is Some,
        ensures
            *final(self) == (PipeWorker { phase: PipePhase::Finalizing, storage: None::<S> }),
            r == (PipeAction::<S, I, O, E>::Finalize { storage: old(self).storage->0 }),
    {
        self.phase = PipePhase::Finalizing;
        match self.storage.take() {
            Some(storage) => PipeAction::Finalize { storage },
            None => PipeAction::LoadCancel,
        }
    }

    /// Goes on with what came of what was done last. Tells what has to be done next.
    pub fn advance<I, O, E>(&mut self, reply: PipeReply<S, I, O, E>) -> (r: PipeAction<S, I, O, E>)
        requires
            old(self).wf(),
            old(self).expects(reply),
        ensures
            (*final(self), r) == old(self).step(reply),
            final(self).wf(),
    {
        match reply {
            PipeReply::Initialized(Ok(storage)) => {
                self.storage = Some(storage);
                self.phase = PipePhase::Looking;
                PipeAction::LoadCancel
            },
            PipeReply::Initialized(Err(error)) => self.finish(Err(PipeFault::Init(error))),
            PipeReply::Cancel(true) => self.finalize(),
            PipeReply::Cancel(false) => {
                self.phase = PipePhase::Receiving;
                PipeAction::Receive
            },
            PipeReply::Received(Ok(item)) => {
                self.phase = PipePhase::Processing;
                match self.storage.take() {
                    Some(storage) => PipeAction::Process { storage, item },
                    None => PipeAction::LoadCancel,
                }
            },
            PipeReply::Received(Err(LinkRecvError::Timeout)) => {
                self.phase = PipePhase::Looking;
                PipeAction::LoadCancel
            },
            PipeReply::Received(Err(LinkRecvError::Closed)) => self.finalize(),
            PipeReply::Processed { storage, result: Ok(_) } => {
                self.storage = Some(storage);
                self.phase = PipePhase::Looking;
                PipeAction::LoadCancel
            },
            PipeReply::Processed { storage: _, result: Err(error) } => self.finish(
                Err(PipeFault::Process(error)),
            ),
            PipeReply::Finalized(Ok(output)) => self.finish(Ok(output)),
            PipeReply::Finalized(Err(error)) => self.finish(Err(PipeFault::Finalize(error))),
        }
    }
}

/// Whether the error tells of the fault of the worker with that name.
pub open spec fn reports_pipe_fault<E>(
    error: PiperError<E>,
    name: Seq<char>,
    fault: PipeFault<E>,
) -> bool {
    match fault {
        PipeFault::Init(inner) => error matches PiperError::UserInit { worker, error: e } && worker@
            == name && e == inner,
        PipeFault::Process(inner) => error matches PiperError::UserProcess { worker, error: e }
            && worker@ == name && e == inner,
        PipeFault::Finalize(inner) => error matches PiperError::UserFinalize { worker, error: e }
            && worker@ == name && e == inner,
    }
}

/// What a worker's thread gives in the end.
pub fn worker_result<O, E>(worker: &str, result: Result<O, PipeFault<E>>) -> (r: Result<
    O,
    PiperError<E>,
>)
    ensures
        match result {
            Ok(output) => r == Ok::<O, PiperError<E>>(output),
            Err(fault) => r matches Err(error) && reports_pipe_fault(error, worker@, fault),
        },
{
    match result {
        Ok(output) => Ok(output),
        Err(PipeFault::Init(error)) => Err(
            PiperError::UserInit { worker: worker.to_owned(), error },
        ),
        Err(PipeFault::Process(error)) => Err(
            PiperError::UserProcess { worker: worker.to_owned(), error },
        ),
        Err(PipeFault::Finalize(error)) => Err(
            PiperError::UserFinalize { worker: worker.to_owned(), error },
        ),
    }
}

/// Adds the result of one more thread to the results, in the order of the workers. `joined` is what
/// the thread gave, or what it left behind where it panicked. Where there is no result, the error
/// comes back and nothing is added.
pub fn collect_output<O, E>(
    results: &mut Vec<O>,
    worker: String,
    joined: Result<Result<O, PiperError<E>>, PanicPayload>,
) -> (r: Result<(), PiperError<E>>)
    ensures
        match joined {
            Ok(Ok(output)) => r is Ok && final(results)@ == old(results)@.push(output),
            Ok(Err(error)) => r == Err::<(), PiperError<E>>(error) && final(results)@ == old(
                results,
            )@,
            Err(payload) => final(results)@ == old(results)@ && (r matches Err(
                PiperError::WorkerPanicked { worker: w, message },
            ) && w == worker && message@ == payload.text()),
        },
{
    match joined {
        Ok(Ok(output)) => {
            results.push(output);
            Ok(())
        },
        Ok(Err(error)) => Err(error),
        Err(payload) => Err(
            PiperError::WorkerPanicked { worker, message: panic_payload_to_string(payload) },
        ),
    }
}

/// Whether these are replies that can come in this order to a worker that begins as this one.
pub open spec fn can_come<S, I, O, E>(
    worker: PipeWorker<S>,
    replies: Seq<PipeReply<S, I, O, E>>,
    n: nat,
) -> bool
    decreases n,
{
    n == 0 || n <= replies.len() && can_come(worker, replies, (n - 1) as nat) && after(
        worker,
        replies,
        (n - 1) as nat,
    ).expects(replies[n - 1])
}

/// The worker once the first `n` replies have come.
pub open spec fn after<S, I, O, E>(
    worker: PipeWorker<S>,
    replies: Seq<PipeReply<S, I, O, E>>,
    n: nat,
) -> PipeWorker<S>
    decreases n,
{
    if n == 0 {
        worker
    } else {
        after(worker, replies, (n - 1) as nat).step(replies[n - 1]).0
    }
}

/// How often the worker was finalized after the first `n` replies.
pub open spec fn finalizations<S, I, O, E>(
    worker: PipeWorker<S>,
    replies: Seq<PipeReply<S, I, O, E>>,
    n: nat,
) -> nat
    decreases n,
{
    if n == 0 {
        0
    } else {
        finalizations(worker, replies, (n - 1) as nat) + if after(
            worker,
            replies,
            (n - 1) as nat,
        ).step(replies[n - 1]).1 is Finalize {
            1nat
        } else {
            0nat
        }
    }
}

/// Whatever comes, a worker is finalized once at most, and exactly once where it ends without having
/// failed before.
pub proof fn finalized_once<S, I, O, E>(
    worker: PipeWorker<S>,
    replies: Seq<PipeReply<S, I, O, E>>,
    n: nat,
)
    requires
        worker.wf(),
        worker.phase is Initializing,
        can_come(worker, replies, n),
    ensures
        after(worker, replies, n).wf(),
        finalizations(worker, replies, n) <= 1,
        after(worker, replies, n).phase is Finalizing ==> finalizations(worker, replies, n) == 1,
        !(after(worker, replies, n).phase is Finalizing) && !(after(worker, replies, n).phase is Done)
            ==> finalizations(worker, replies, n) == 0,
        n > 0 && (after(worker, replies, (n - 1) as nat).step(replies[n - 1]).1 matches PipeAction::Finish(
            Ok(_),
        )) ==> finalizations(worker, replies, n) == 1,
    decreases n,
{
    if n > 0 {
        finalized_once(worker, replies, (n - 1) as nat);
    }
}

/// The items that were received with the first `n` replies, in the order in which they came.
pub open spec fn items_received<S, I, O, E>(replies: Seq<PipeReply<S, I, O, E>>, n: nat) -> Seq<I>
    decreases n,
{
    if n == 0 {
        Seq::empty()
    } else {
        let before = items_received(replies, (n - 1) as nat);
        match replies[n - 1] {
            PipeReply::Received(Ok(item)) => before.push(item),
            _ => before,
        }
    }
}

/// The items that were given to the worker's code after the first `n` replies.
pub open spec fn items_processed<S, I, O, E>(
    worker: PipeWorker<S>,
    replies: Seq<PipeReply<S, I, O, E>>,
    n: nat,
) -> Seq<I>
    decreases n,
{
    if n == 0 {
        Seq::empty()
    } else {
        let before = items_processed(worker, replies, (n - 1) as nat);
        match after(worker, replies, (n - 1) as nat).step(replies[n - 1]).1 {
            PipeAction::Process { storage, item } => before.push(item),
            _ => before,
        }
    }
}

/// Whatever comes, each item that a worker receives is given to its code once, in the order in which
/// they came, and nothing else is.
pub proof fn items_are_processed_once<S, I, O, E>(
    worker: PipeWorker<S>,
    replies: Seq<PipeReply<S, I, O, E>>,
    n: nat,
)
    requires
        worker.wf(),
        worker.phase is Initializing,
        can_come(worker, replies, n),
    ensures
        items_processed(worker, replies, n) == items_received(replies, n),
    decreases n,
{
    if n > 0 {
        items_are_processed_once(worker, replies, (n - 1) as nat);
    }
}

} // verus!
