//! What is made of what a link gives, and of a link that gives nothing.

use crate::error::{
    quote_name, quoted, InternalFailure, RecvOutputError, SendInputError, TryRecvOutputError,
};
use vstd::prelude::*;

verus! {

/// What polling a link for an item gave.
#[derive(Debug)]
pub enum RecvPoll<I> {
    Item(I),
    Timeout,
    Disconnected,
}

/// Why a link that was waited on gave no item.
#[derive(Clone, Copy, Debug, PartialEq, Eq, Structural)]
pub enum LinkRecvError {
    Timeout,
    Closed,
}

/// Why a link gave no item at once.
#[derive(Clone, Copy, Debug, PartialEq, Eq, Structural)]
pub enum LinkTryRecvError {
    Empty,
    Closed,
}

/// What polling a link gave, from what waiting on it gave.
pub fn recv_poll<I>(received: Result<I, LinkRecvError>) -> (r: RecvPoll<I>)
    ensures
        r == match received {
            Ok(item) => RecvPoll::Item(item),
            Err(LinkRecvError::Timeout) => RecvPoll::Timeout,
            Err(LinkRecvError::Closed) => RecvPoll::Disconnected,
        },
{
    match received {
        Ok(item) => RecvPoll::Item(item),
        Err(LinkRecvError::Timeout) => RecvPoll::Timeout,
        Err(LinkRecvError::Closed) => RecvPoll::Disconnected,
    }
}

/// What a user of a pipeline gets from waiting on a link. An item that came but is of another type
/// than expected comes as `None`.
pub fn received_output<T>(received: Result<Option<T>, LinkRecvError>) -> (r: Result<
    T,
    RecvOutputError,
>)
    ensures
        r == match received {
            Ok(Some(item)) => Ok(item),
            Ok(None) => Err(RecvOutputError::TypeMismatch),
            Err(LinkRecvError::Timeout) => Err(RecvOutputError::Timeout),
            Err(LinkRecvError::Closed) => Err(RecvOutputError::Closed),
        },
{
    match received {
        Ok(Some(item)) => Ok(item),
        Ok(None) => Err(RecvOutputError::TypeMismatch),
        Err(LinkRecvError::Timeout) => Err(RecvOutputError::Timeout),
        Err(LinkRecvError::Closed) => Err(RecvOutputError::Closed),
    }
}

/// What a user of a pipeline gets from a link at once. An item that came but is of another type than
/// expected comes as `None`.
pub fn try_received_output<T>(received: Result<Option<T>, LinkTryRecvError>) -> (r: Result<
    T,
    TryRecvOutputError,
>)
    ensures
        r == match received {
            Ok(Some(item)) => Ok(item),
            Ok(None) => Err(TryRecvOutputError::TypeMismatch),
            Err(LinkTryRecvError::Empty) => Err(TryRecvOutputError::Empty),
            Err(LinkTryRecvError::Closed) => Err(TryRecvOutputError::Closed),
        },
{
    match received {
        Ok(Some(item)) => Ok(item),
        Ok(None) => Err(TryRecvOutputError::TypeMismatch),
        Err(LinkTryRecvError::Empty) => Err(TryRecvOutputError::Empty),
        Err(LinkTryRecvError::Closed) => Err(TryRecvOutputError::Closed),
    }
}

/// What is counted on a link. The counts start anew once they have reached the largest number.
#[derive(Clone, Copy, Debug, PartialEq, Eq, Structural)]
pub struct LinkStats {
    pub arrivals: u64,
    pub drains: u64,
}

/// The count after `n`.
pub open spec fn next_count(n: u64) -> u64 {
    if n == u64::MAX {
        0
    } else {
        (n + 1) as u64
    }
}

impl LinkStats {
    /// Counts an item that arrived.
    pub fn note_arrival(&mut self)
        ensures
            *final(self) == (LinkStats { arrivals: next_count(old(self).arrivals), ..*old(self) }),
    {
        self.arrivals = self.arrivals.wrapping_add(1);
    }

    /// Counts an item that left.
    pub fn note_drain(&mut self)
        ensures
            *final(self) == (LinkStats { drains: next_count(old(self).drains), ..*old(self) }),
    {
        self.drains = self.drains.wrapping_add(1);
    }
}

impl Default for LinkStats {
    /// Nothing is counted.
    fn default() -> (r: Self)
        ensures
            r == (LinkStats { arrivals: 0, drains: 0 }),
    {
        LinkStats { arrivals: 0, drains: 0 }
    }
}

/// What is made of an attempt to put an item on a link.
#[derive(Clone, Copy, Debug, PartialEq, Eq, Structural)]
pub enum SendReport {
    /// It arrived, and is counted.
    Counted,
    /// It did not arrive, because the pipeline ends.
    Dropped,
    /// It did not arrive although the pipeline goes on: the pipeline is aborted and the failure
    /// reported.
    Fatal,
}

/// What is made of an attempt to put an item on a link.
pub fn send_report(sent: bool, shutdown: bool, abort: bool) -> (r: SendReport)
    ensures
        r == if sent {
            SendReport::Counted
        } else if shutdown || abort {
            SendReport::Dropped
        } else {
            SendReport::Fatal
        },
{
    if sent {
        SendReport::Counted
    } else if !shutdown && !abort {
        SendReport::Fatal
    } else {
        SendReport::Dropped
    }
}

/// The failure of a node whose output is gone while the pipeline goes on.
pub fn node_output_failure<M>() -> (r: InternalFailure<M>)
    ensures
        r matches InternalFailure::Internal { message } && message@
            == "node output channel closed unexpectedly"@,
{
    InternalFailure::internal("node output channel closed unexpectedly".to_owned())
}

/// The failure of a node that is run from outside and whose output is gone while the pipeline goes
/// on.
pub fn external_output_failure<M>(name: &str) -> (r: InternalFailure<M>)
    ensures
        r matches InternalFailure::Internal { message } && message@ == quoted(
            "external node "@,
            name@,
            " output channel closed unexpectedly"@,
        ),
{
    InternalFailure::internal(
        quote_name("external node ", name, " output channel closed unexpectedly"),
    )
}

/// What a user gets from putting an item on the input: an error where the pipeline was shut down or
/// the item did not arrive. `sent` tells whether it arrived, where it was tried.
pub fn input_sent(shutdown: bool, sent: Option<bool>) -> (r: Result<(), SendInputError>)
    ensures
        r == if !shutdown && sent == Some(true) {
            Ok::<(), SendInputError>(())
        } else {
            Err::<(), SendInputError>(SendInputError)
        },
{
    match sent {
        Some(true) => if shutdown {
            Err(SendInputError)
        } else {
            Ok(())
        },
        _ => Err(SendInputError),
    }
}

/// Whether a worker that got no item in time stops once the pipeline is shut down. Behind a feeder it
/// does; on any other link only where it takes the pipeline's input and nothing waits there.
pub fn should_stop_on_shutdown_timeout(feeder: bool, is_input_stage: bool, empty: bool) -> (r: bool)
    ensures
        r == (feeder || is_input_stage && empty),
{
    feeder || (is_input_stage && empty)
}

/// What a feeder gave when it was asked for an item.
#[derive(Debug)]
pub enum FeederAnswer<I> {
    Item(I),
    Empty,
    InShutdown,
    NoMoreWork,
    Cancelled,
}

/// What is done after a feeder was asked for an item.
#[derive(Debug)]
pub enum FeederStep<I> {
    Give(I),
    /// Nothing came in time.
    GiveUp,
    /// Nothing will come any more.
    Closed,
    /// It is asked again after this many nanoseconds.
    Sleep(u128),
}

/// How long a feeder is left alone between two questions, in nanoseconds.
pub const FEEDER_PAUSE: u128 = 1_000_000;

impl<I> FeederAnswer<I> {
    /// Whether the feeder will give nothing any more.
    pub open spec fn closes(self) -> bool {
        self is NoMoreWork || self is Cancelled
    }

    /// Whether the feeder will give nothing any more.
    pub fn is_final(&self) -> (r: bool)
        ensures
            r == self.closes(),
    {
        matches!(self, FeederAnswer::NoMoreWork | FeederAnswer::Cancelled)
    }
}

/// Decides what is done after a feeder was asked for an item that is wanted before `deadline`.
pub fn feeder_step<I>(answer: FeederAnswer<I>, now: u128, deadline: u128) -> (r: FeederStep<I>)
    ensures
        r == match answer {
            FeederAnswer::Item(item) => FeederStep::Give(item),
            FeederAnswer::NoMoreWork => FeederStep::Closed,
            FeederAnswer::Cancelled => FeederStep::Closed,
            _ => if now >= deadline {
                FeederStep::GiveUp
            } else if deadline - now < FEEDER_PAUSE {
                FeederStep::Sleep((deadline - now) as u128)
            } else {
                FeederStep::Sleep(FEEDER_PAUSE)
            },
        },
{
    match answer {
        FeederAnswer::Item(item) => FeederStep::Give(item),
        FeederAnswer::NoMoreWork | FeederAnswer::Cancelled => FeederStep::Closed,
        FeederAnswer::Empty | FeederAnswer::InShutdown => {
            if now >= deadline {
                FeederStep::GiveUp
            } else if deadline - now < FEEDER_PAUSE {
                FeederStep::Sleep(deadline - now)
            } else {
                FeederStep::Sleep(FEEDER_PAUSE)
            }
        },
    }
}

/// What a feeder's answer is to someone who does not wait.
pub fn feeder_try<I>(answer: FeederAnswer<I>) -> (r: Result<I, LinkTryRecvError>)
    ensures
        r == match answer {
            FeederAnswer::Item(item) => Ok::<I, LinkTryRecvError>(item),
            FeederAnswer::NoMoreWork => Err::<I, LinkTryRecvError>(LinkTryRecvError::Closed),
            FeederAnswer::Cancelled => Err::<I, LinkTryRecvError>(LinkTryRecvError::Closed),
            _ => Err::<I, LinkTryRecvError>(LinkTryRecvError::Empty),
        },
{
    match answer {
        FeederAnswer::Item(item) => Ok(item),
        FeederAnswer::Empty | FeederAnswer::InShutdown => Err(LinkTryRecvError::Empty),
        FeederAnswer::NoMoreWork | FeederAnswer::Cancelled => Err(LinkTryRecvError::Closed),
    }
}

/// That many nanoseconds as a counter holds them: at most the largest number.
pub fn duration_nanos_u64(nanos: u128) -> (r: u64)
    ensures
        r == if nanos <= u64::MAX {
            nanos
        } else {
            u64::MAX as u128
        },
{
    if nanos <= 0xffff_ffff_ffff_ffff {
        nanos as u64
    } else {
        u64::MAX
    }
}

} // verus!
