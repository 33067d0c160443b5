//! Failures of a pipeline and how they are reported.

use crate::text::{concat, concat3, decimal, decimal_text};
use vstd::prelude::*;

verus! {

/// The operating system's error, carried through from a failed thread start.
#[verifier::external_type_specification]
#[verifier::external_body]
pub struct ExIoError(std::io::Error);

/// Everything that can make a pipeline fail. `E` is the error type of the user's nodes.
#[derive(Debug)]
#[non_exhaustive]
pub enum PiperError<E> {
    ZeroWorkers,
    NoNodes,
    InvalidGraph { message: String },
    InvalidThreadCount,
    InvalidWeightedBranchConfig { branch: String, message: String },
    UnsupportedWeightedBranchFeederOutput { branch: String, link: usize },
    SpawnFailed { worker: String, source: std::io::Error },
    WorkerPanicked { worker: String, message: String },
    UserInit { worker: String, error: E },
    UserProcess { worker: String, error: E },
    UserCleanup { worker: String, error: E },
    UserMerge { worker: String, error: E },
    UserFinalize { worker: String, error: E },
    MissingStateMerge { node: String },
    ExternalNode { node: String, error: E },
    Internal { worker: String, message: String },
    Telemetry { message: String },
}

/// `before`, a name in backquotes, and `after`.
pub open spec fn quoted(before: Seq<char>, name: Seq<char>, after: Seq<char>) -> Seq<char> {
    before + "`"@ + name + "`"@ + after
}

pub(crate) fn quote_name(before: &str, name: &str, after: &str) -> (r: String)
    ensures
        r@ == quoted(before@, name@, after@),
{
    let mut r: String = concat3(before, "`", name);
    r.append("`");
    r.append(after);
    r
}

impl<E> PiperError<E> {
    /// The text of the error, where `error` is the text of the user's own error, if it holds one.
    pub open spec fn text(self, error: Seq<char>) -> Seq<char> {
        match self {
            PiperError::ZeroWorkers => "worker count must be greater than 0"@,
            PiperError::NoNodes => "Piper requires at least one node"@,
            PiperError::InvalidGraph { message } => "Piper graph is invalid: "@ + message@,
            PiperError::InvalidThreadCount => "node thread count must be greater than 0"@,
            PiperError::InvalidWeightedBranchConfig { branch, message } => quoted(
                "invalid weighted branch "@,
                branch@,
                " config: "@,
            ) + message@,
            PiperError::UnsupportedWeightedBranchFeederOutput { branch, link } => quoted(
                "weighted branch "@,
                branch@,
                " output link "@,
            ) + decimal(link as nat) + " cannot use feeder"@,
            PiperError::SpawnFailed { worker, source } => quoted(
                "failed to spawn worker thread "@,
                worker@,
                ""@,
            ),
            PiperError::WorkerPanicked { worker, message } => quoted(
                "worker thread "@,
                worker@,
                " panicked: "@,
            ) + message@,
            PiperError::UserInit { worker, error: e } => quoted(
                "init closure failed in worker "@,
                worker@,
                ": "@,
            ) + error,
            PiperError::UserProcess { worker, error: e } => quoted(
                "process closure failed in worker "@,
                worker@,
                ": "@,
            ) + error,
            PiperError::UserCleanup { worker, error: e } => quoted(
                "cleanup closure failed in worker "@,
                worker@,
                ": "@,
            ) + error,
            PiperError::UserMerge { worker, error: e } => quoted(
                "merge closure failed in worker "@,
                worker@,
                ": "@,
            ) + error,
            PiperError::UserFinalize { worker, error: e } => quoted(
                "finalize closure failed in worker "@,
                worker@,
                ": "@,
            ) + error,
            PiperError::MissingStateMerge { node } => quoted(
                "node "@,
                node@,
                " does not provide a state merge function"@,
            ),
            PiperError::ExternalNode { node, error: e } => quoted(
                "external node "@,
                node@,
                " failed: "@,
            ) + error,
            PiperError::Internal { worker, message } => quoted(
                "internal Piper failure in worker "@,
                worker@,
                ": "@,
            ) + message@,
            PiperError::Telemetry { message } => "Piper telemetry failure: "@ + message@,
        }
    }

    /// The text of the error. `error` is the text of the user's own error; it is used only by the
    /// variants that hold one.
    pub fn describe(&self, error: &str) -> (r: String)
        ensures
            r@ == self.text(error@),
    {
        match self {
            PiperError::ZeroWorkers => "worker count must be greater than 0".to_owned(),
            PiperError::NoNodes => "Piper requires at least one node".to_owned(),
            PiperError::InvalidGraph { message } => concat("Piper graph is invalid: ", message.as_str()),
            PiperError::InvalidThreadCount => "node thread count must be greater than 0".to_owned(),
            PiperError::InvalidWeightedBranchConfig { branch, message } => concat(
                quote_name("invalid weighted branch ", branch.as_str(), " config: ").as_str(),
                message.as_str(),
            ),
            PiperError::UnsupportedWeightedBranchFeederOutput { branch, link } => {
                concat3(
                    quote_name("weighted branch ", branch.as_str(), " output link ").as_str(),
                    decimal_text(*link as u64).as_str(),
                    " cannot use feeder",
                )
            },
            PiperError::SpawnFailed { worker, source: _ } => quote_name(
                "failed to spawn worker thread ",
                worker.as_str(),
                "",
            ),
            PiperError::WorkerPanicked { worker, message } => concat(
                quote_name("worker thread ", worker.as_str(), " panicked: ").as_str(),
                message.as_str(),
            ),
            PiperError::UserInit { worker, error: _ } => concat(
                quote_name("init closure failed in worker ", worker.as_str(), ": ").as_str(),
                error,
            ),
            PiperError::UserProcess { worker, error: _ } => concat(
                quote_name("process closure failed in worker ", worker.as_str(), ": ").as_str(),
                error,
            ),
            PiperError::UserCleanup { worker, error: _ } => concat(
                quote_name("cleanup closure failed in worker ", worker.as_str(), ": ").as_str(),
                error,
            ),
            PiperError::UserMerge { worker, error: _ } => concat(
                quote_name("merge closure failed in worker ", worker.as_str(), ": ").as_str(),
                error,
            ),
            PiperError::UserFinalize { worker, error: _ } => concat(
                quote_name("finalize closure failed in worker ", worker.as_str(), ": ").as_str(),
                error,
            ),
            PiperError::MissingStateMerge { node } => quote_name(
                "node ",
                node.as_str(),
                " does not provide a state merge function",
            ),
            PiperError::ExternalNode { node, error: _ } => concat(
                quote_name("external node ", node.as_str(), " failed: ").as_str(),
                error,
            ),
            PiperError::Internal { worker, message } => concat(
                quote_name("internal Piper failure in worker ", worker.as_str(), ": ").as_str(),
                message.as_str(),
            ),
            PiperError::Telemetry { message } => concat(
                "Piper telemetry failure: ",
                message.as_str(),
            ),
        }
    }
}

/// Why a node's own code stopped a worker.
#[derive(Debug)]
pub enum NodeFailure<E> {
    Init(E),
    Process(E),
    Cleanup(E),
    Merge(E),
    Internal(String),
}

/// Whether `error` reports `failure` of the worker named `worker`.
pub open spec fn reports_node_failure<E>(
    error: PiperError<E>,
    worker: Seq<char>,
    failure: NodeFailure<E>,
) -> bool {
    match failure {
        NodeFailure::Init(e) => error matches PiperError::UserInit { worker: w, error: x } && w@
            == worker && x == e,
        NodeFailure::Process(e) => error matches PiperError::UserProcess { worker: w, error: x }
            && w@ == worker && x == e,
        NodeFailure::Cleanup(e) => error matches PiperError::UserCleanup { worker: w, error: x }
            && w@ == worker && x == e,
        NodeFailure::Merge(e) => error matches PiperError::UserMerge { worker: w, error: x } && w@
            == worker && x == e,
        NodeFailure::Internal(m) => error matches PiperError::Internal { worker: w, message: x }
            && w@ == worker && x@ == m@,
    }
}

/// The pipeline error that reports `failure` of the worker named `worker`.
pub fn node_failure_to_piper_error<E>(worker: &str, failure: NodeFailure<E>) -> (r: PiperError<E>)
    ensures
        reports_node_failure(r, worker@, failure),
{
    match failure {
        NodeFailure::Init(error) => PiperError::UserInit { worker: worker.to_owned(), error },
        NodeFailure::Process(error) => PiperError::UserProcess { worker: worker.to_owned(), error },
        NodeFailure::Cleanup(error) => PiperError::UserCleanup { worker: worker.to_owned(), error },
        NodeFailure::Merge(error) => PiperError::UserMerge { worker: worker.to_owned(), error },
        NodeFailure::Internal(message) => PiperError::Internal {
            worker: worker.to_owned(),
            message,
        },
    }
}

/// A failure reported to the supervisor from outside its own workers. `M` is the payload that
/// stands for a user's error.
#[derive(Debug)]
pub enum InternalFailure<M> {
    Internal { message: String },
    Telemetry { message: String },
    External { node: String, error: M },
}

impl<M> InternalFailure<M> {
    /// A failure of the runtime itself.
    pub fn internal(message: String) -> (r: Self)
        ensures
            r == (InternalFailure::<M>::Internal { message }),
    {
        InternalFailure::Internal { message }
    }

    /// A failure to record telemetry.
    pub fn telemetry(message: String) -> (r: Self)
        ensures
            r == (InternalFailure::<M>::Telemetry { message }),
    {
        InternalFailure::Telemetry { message }
    }

    /// A failure that the owner of an external node reported.
    pub fn external(node: String, error: M) -> (r: Self)
        ensures
            r == (InternalFailure::External { node, error }),
    {
        InternalFailure::External { node, error }
    }
}

/// Whether `error` reports `failure`. The payload is the user's error, or nothing where it was of
/// another type than the pipeline's.
pub open spec fn reports_internal_failure<E>(
    error: PiperError<E>,
    failure: InternalFailure<Option<E>>,
) -> bool {
    match failure {
        InternalFailure::Internal { message } => error matches PiperError::Internal {
            worker,
            message: m,
        } && worker@ == "piper-supervisor"@ && m@ == message@,
        InternalFailure::Telemetry { message } => error matches PiperError::Telemetry { message: m }
            && m@ == message@,
        InternalFailure::External { node, error: Some(e) } => error matches PiperError::ExternalNode {
            node: n,
            error: x,
        } && n@ == node@ && x == e,
        InternalFailure::External { node, error: None } => error matches PiperError::Internal {
            worker,
            message: m,
        } && worker@ == "piper-supervisor"@ && m@ == quoted(
            "external node "@,
            node@,
            " reported an invalid error type"@,
        ),
    }
}

fn internal_failure_error<E>(failure: InternalFailure<Option<E>>) -> (r: PiperError<E>)
    ensures
        reports_internal_failure(r, failure),
{
    match failure {
        InternalFailure::Internal { message } => PiperError::Internal {
            worker: "piper-supervisor".to_owned(),
            message,
        },
        InternalFailure::Telemetry { message } => PiperError::Telemetry { message },
        InternalFailure::External { node, error: Some(error) } => PiperError::ExternalNode {
            node,
            error,
        },
        InternalFailure::External { node, error: None } => PiperError::Internal {
            worker: "piper-supervisor".to_owned(),
            message: quote_name("external node ", node.as_str(), " reported an invalid error type"),
        },
    }
}

/// Takes over the failures that were received, in the order in which they came: the last one
/// replaces what was stored, and any at all asks for an abort. Returns whether an abort is asked
/// for.
pub fn drain_internal_failures<E>(
    failures: Vec<InternalFailure<Option<E>>>,
    stored_failure: &mut Option<PiperError<E>>,
) -> (abort: bool)
    ensures
        abort == (failures@.len() > 0),
        failures@.len() == 0 ==> *final(stored_failure) == *old(stored_failure),
        failures@.len() > 0 ==> (*final(stored_failure) matches Some(error)
            && reports_internal_failure(error, failures@.last())),
{
    let mut failures: Vec<InternalFailure<Option<E>>> = failures;
    match failures.pop() {
        Some(last) => {
            *stored_failure = Some(internal_failure_error(last));
            true
        },
        None => false,
    }
}

/// What a panicking thread left behind.
#[derive(Debug)]
pub enum PanicPayload {
    Owned(String),
    Static(&'static str),
    Other,
}

impl PanicPayload {
    /// The text of the panic.
    pub open spec fn text(self) -> Seq<char> {
        match self {
            PanicPayload::Owned(s) => s@,
            PanicPayload::Static(s) => s@,
            PanicPayload::Other => "<non-string panic payload>"@,
        }
    }
}

/// The text of a panic.
pub fn panic_payload_to_string(payload: PanicPayload) -> (r: String)
    ensures
        r@ == payload.text(),
{
    match payload {
        PanicPayload::Owned(s) => s,
        PanicPayload::Static(s) => s.to_owned(),
        PanicPayload::Other => "<non-string panic payload>".to_owned(),
    }
}

/// The input of a pipeline no longer takes items.
#[derive(Debug, Clone, Copy, PartialEq, Eq, Structural)]
pub struct SendInputError;

impl SendInputError {
    /// The text of the error.
    pub fn describe(&self) -> (r: String)
        ensures
            r@ == "Piper input channel is closed"@,
    {
        "Piper input channel is closed".to_owned()
    }
}

/// Why no item came out of a link.
#[derive(Debug, Clone, Copy, PartialEq, Eq, Structural)]
pub enum RecvOutputError {
    Closed,
    Timeout,
    TypeMismatch,
}

impl RecvOutputError {
    /// The text of the error.
    pub fn describe(&self) -> (r: String)
        ensures
            r@ == match *self {
                RecvOutputError::Closed => "Piper output channel is closed"@,
                RecvOutputError::Timeout => "Piper output channel timed out"@,
                RecvOutputError::TypeMismatch => "Piper output type mismatch"@,
            },
    {
        match self {
            RecvOutputError::Closed => "Piper output channel is closed".to_owned(),
            RecvOutputError::Timeout => "Piper output channel timed out".to_owned(),
            RecvOutputError::TypeMismatch => "Piper output type mismatch".to_owned(),
        }
    }
}

/// Why no item was ready on a link.
#[derive(Debug, Clone, Copy, PartialEq, Eq, Structural)]
pub enum TryRecvOutputError {
    Closed,
    Empty,
    TypeMismatch,
}

impl TryRecvOutputError {
    /// The text of the error.
    pub fn describe(&self) -> (r: String)
        ensures
            r@ == match *self {
                TryRecvOutputError::Closed => "Piper output channel is closed"@,
                TryRecvOutputError::Empty => "Piper output channel is empty"@,
                TryRecvOutputError::TypeMismatch => "Piper output type mismatch"@,
            },
    {
        match self {
            TryRecvOutputError::Closed => "Piper output channel is closed".to_owned(),
            TryRecvOutputError::Empty => "Piper output channel is empty".to_owned(),
            TryRecvOutputError::TypeMismatch => "Piper output type mismatch".to_owned(),
        }
    }
}

} // verus!
