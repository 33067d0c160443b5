//! How failures are told.

use crate::error::{
    drain_internal_failures, node_failure_to_piper_error, panic_payload_to_string, InternalFailure,
    NodeFailure, PanicPayload, PiperError, RecvOutputError, SendInputError, TryRecvOutputError,
};
use crate::text::decimal;
use vstd::prelude::*;

verus! {

/// `before`, the name in backquotes, and `after`.
pub open spec fn named(before: Seq<char>, name: Seq<char>, after: Seq<char>) -> Seq<char> {
    before + "`"@ + name + "`"@ + after
}

/// Each error is told by its own words, with the names and messages that it holds, and the text of the
/// user's error where it holds one.
pub proof fn errors_are_told<E>(failure: &PiperError<E>, user: &str, r: String)
    requires
        call_ensures(PiperError::<E>::describe, (failure, user), r),
    ensures
        r@ == match *failure {
            PiperError::ZeroWorkers => "worker count must be greater than 0"@,
            PiperError::NoNodes => "Piper requires at least one node"@,
            PiperError::InvalidGraph { message } => "Piper graph is invalid: "@ + message@,
            PiperError::InvalidThreadCount => "node thread count must be greater than 0"@,
            PiperError::InvalidWeightedBranchConfig { branch, message } => named(
                "invalid weighted branch "@,
                branch@,
                " config: "@,
            ) + message@,
            PiperError::UnsupportedWeightedBranchFeederOutput { branch, link } => named(
                "weighted branch "@,
                branch@,
                " output link "@,
            ) + decimal(link as nat) + " cannot use feeder"@,
            PiperError::SpawnFailed { worker, source } => named(
                "failed to spawn worker thread "@,
                worker@,
                ""@,
            ),
            PiperError::WorkerPanicked { worker, message } => named(
                "worker thread "@,
                worker@,
                " panicked: "@,
            ) + message@,
            PiperError::UserInit { worker, error } => named(
                "init closure failed in worker "@,
                worker@,
                ": "@,
            ) + user@,
            PiperError::UserProcess { worker, error } => named(
                "process closure failed in worker "@,
                worker@,
                ": "@,
            ) + user@,
            PiperError::UserCleanup { worker, error } => named(
                "cleanup closure failed in worker "@,
                worker@,
                ": "@,
            ) + user@,
            PiperError::UserMerge { worker, error } => named(
                "merge closure failed in worker "@,
                worker@,
                ": "@,
            ) + user@,
            PiperError::UserFinalize { worker, error } => named(
                "finalize closure failed in worker "@,
                worker@,
                ": "@,
            ) + user@,
            PiperError::MissingStateMerge { node } => named(
                "node "@,
                node@,
                " does not provide a state merge function"@,
            ),
            PiperError::ExternalNode { node, error } => named(
                "external node "@,
                node@,
                " failed: "@,
            ) + user@,
            PiperError::Internal { worker, message } => named(
                "internal Piper failure in worker "@,
                worker@,
                ": "@,
            ) + message@,
            PiperError::Telemetry { message } => "Piper telemetry failure: "@ + message@,
        },
{
}

/// What stopped a worker is reported as what it was, with the worker's name.
pub proof fn node_failures_are_reported<E>(worker: &str, failure: NodeFailure<E>, r: PiperError<E>)
    requires
        call_ensures(node_failure_to_piper_error::<E>, (worker, failure), r),
    ensures
        match failure {
            NodeFailure::Init(e) => r matches PiperError::UserInit { worker: w, error } && w@
                == worker@ && error == e,
            NodeFailure::Process(e) => r matches PiperError::UserProcess { worker: w, error } && w@
                == worker@ && error == e,
            NodeFailure::Cleanup(e) => r matches PiperError::UserCleanup { worker: w, error } && w@
                == worker@ && error == e,
            NodeFailure::Merge(e) => r matches PiperError::UserMerge { worker: w, error } && w@
                == worker@ && error == e,
            NodeFailure::Internal(m) => r matches PiperError::Internal { worker: w, message } && w@
                == worker@ && message@ == m@,
        },
{
}

/// Whether the error tells of the failure that came in from outside. Where the user's error was of
/// another type than the pipeline's, the supervisor tells of that.
pub open spec fn tells_of<E>(error: PiperError<E>, failure: InternalFailure<Option<E>>) -> bool {
    match failure {
        InternalFailure::Internal { message } => error matches PiperError::Internal {
            worker,
            message: m,
        } && worker@ == "piper-supervisor"@ && m@ == message@,
        InternalFailure::Telemetry { message } => error matches PiperError::Telemetry { message: m }
            && m@ == message@,
        InternalFailure::External { node, error: Some(e) } => error matches PiperError::ExternalNode {
            node: n,
            error: x,
        } && n@ == node@ && x == e,
        InternalFailure::External { node, error: None } => error matches PiperError::Internal {
            worker,
            message: m,
        } && worker@ == "piper-supervisor"@ && m@ == named(
            "external node "@,
            node@,
            " reported an invalid error type"@,
        ),
    }
}

/// Failures that come in from outside ask for an abort, and the last of them is what is stored; where
/// none came in, nothing changes.
pub proof fn last_failure_is_stored<E>(
    failures: Vec<InternalFailure<Option<E>>>,
    stored: &mut Option<PiperError<E>>,
    abort: bool,
)
    requires
        call_ensures(drain_internal_failures::<E>, (failures, stored), abort),
    ensures
        abort <==> failures@.len() > 0,
        failures@.len() == 0 ==> *final(stored) == *old(stored),
        failures@.len() > 0 ==> (*final(stored) matches Some(error) && tells_of(
            error,
            failures@[failures@.len() - 1],
        )),
{
}

/// A failure that comes in from outside holds what it was made with.
pub proof fn failures_hold_their_parts<M>(
    message: String,
    node: String,
    error: M,
    internal: InternalFailure<M>,
    telemetry: InternalFailure<M>,
    external: InternalFailure<M>,
)
    requires
        call_ensures(InternalFailure::<M>::internal, (message,), internal),
        call_ensures(InternalFailure::<M>::telemetry, (message,), telemetry),
        call_ensures(InternalFailure::<M>::external, (node, error), external),
    ensures
        internal matches InternalFailure::Internal { message: m } && m == message,
        telemetry matches InternalFailure::Telemetry { message: m } && m == message,
        external matches InternalFailure::External { node: n, error: e } && n == node && e == error,
{
}

/// A panic is told by its text, where it has one.
pub proof fn panics_are_told(payload: PanicPayload, r: String)
    requires
        call_ensures(panic_payload_to_string, (payload,), r),
    ensures
        payload matches PanicPayload::Owned(s) ==> r@ == s@,
        payload matches PanicPayload::Static(s) ==> r@ == s@,
        payload is Other ==> r@ == "<non-string panic payload>"@,
{
}

/// Links that give or take nothing tell why.
pub proof fn link_errors_are_told(
    send: &SendInputError,
    recv: &RecvOutputError,
    try_recv: &TryRecvOutputError,
    sent: String,
    received: String,
    tried: String,
)
    requires
        call_ensures(SendInputError::describe, (send,), sent),
        call_ensures(RecvOutputError::describe, (recv,), received),
        call_ensures(TryRecvOutputError::describe, (try_recv,), tried),
    ensures
        sent@ == "Piper input channel is closed"@,
        recv is Closed ==> received@ == "Piper output channel is closed"@,
        recv is Timeout ==> received@ == "Piper output channel timed out"@,
        recv is TypeMismatch ==> received@ == "Piper output type mismatch"@,
        try_recv is Closed ==> tried@ == "Piper output channel is closed"@,
        try_recv is Empty ==> tried@ == "Piper output channel is empty"@,
        try_recv is TypeMismatch ==> tried@ == "Piper output type mismatch"@,
{
}

} // verus!
