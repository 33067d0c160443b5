//! How many threads a node may use.
//!
//! Queue seconds and busy ratios are carried as values of a type `R` that this module never looks
//! into; durations and instants that are compared are counts of nanoseconds.

use crate::error::PiperError;
use vstd::prelude::*;

verus! {

/// The larger of two numbers.
pub open spec fn larger(a: int, b: int) -> int {
    if a >= b {
        a
    } else {
        b
    }
}

/// The larger of two counts.
pub fn max_of(a: usize, b: usize) -> (r: usize)
    ensures
        r == larger(a as int, b as int),
{
    if a >= b {
        a
    } else {
        b
    }
}

/// Half of `n`, rounded up, but at least one.
pub open spec fn half_up(n: int) -> int {
    larger((n + 1) / 2, 1)
}

fn half_rounded_up(n: usize) -> (r: usize)
    ensures
        r == half_up(n as int),
{
    max_of(n / 2 + n % 2, 1)
}

/// Limits and thresholds by which a node is scaled. A thread count of zero asks for the default.
#[derive(Clone, Copy, Debug)]
pub struct NodeScalePolicy<R> {
    pub initial_threads: usize,
    pub max_threads: usize,
    pub target_queue_seconds: R,
    pub low_queue_seconds: R,
    /// How long a node must stay underused before a thread is taken from it, in nanoseconds.
    pub scale_down_after: u128,
    pub underutilized_busy_ratio: R,
}

impl<R> NodeScalePolicy<R> {
    /// The policy for a machine that can run `available` threads at once: at most that many
    /// threads (one, where the number is not known), beginning with half of them, rounded up.
    pub fn for_parallelism(
        available: usize,
        target_queue_seconds: R,
        low_queue_seconds: R,
        scale_down_after: u128,
        underutilized_busy_ratio: R,
    ) -> (r: Self)
        ensures
            r.max_threads == larger(available as int, 1),
            r.initial_threads == half_up(r.max_threads as int),
            r.target_queue_seconds == target_queue_seconds,
            r.low_queue_seconds == low_queue_seconds,
            r.scale_down_after == scale_down_after,
            r.underutilized_busy_ratio == underutilized_busy_ratio,
    {
        let max_threads: usize = max_of(available, 1);
        NodeScalePolicy {
            initial_threads: half_rounded_up(max_threads),
            max_threads,
            target_queue_seconds,
            low_queue_seconds,
            scale_down_after,
            underutilized_busy_ratio,
        }
    }
}

/// What was asked for a node's threads when it was declared.
#[derive(Clone, Copy, Debug)]
pub struct ThreadPolicyHints<R> {
    pub fixed_threads: Option<usize>,
    pub max_threads: Option<usize>,
    pub initial_threads: Option<usize>,
    pub scale_policy: Option<NodeScalePolicy<R>>,
}

impl<R> ThreadPolicyHints<R> {
    /// Nothing asked for.
    pub fn none() -> (r: Self)
        ensures
            r.fixed_threads is None,
            r.max_threads is None,
            r.initial_threads is None,
            r.scale_policy is None,
    {
        ThreadPolicyHints {
            fixed_threads: None,
            max_threads: None,
            initial_threads: None,
            scale_policy: None,
        }
    }

    /// Whether anything asks for a number of threads that follows the load.
    pub open spec fn asks_scaling(self) -> bool {
        self.scale_policy is Some || self.max_threads is Some || self.initial_threads is Some
    }
}

/// A scale policy with every default filled in.
#[derive(Clone, Copy, Debug)]
pub struct ResolvedScalePolicy<R> {
    pub initial_threads: usize,
    pub max_threads: usize,
    pub target_queue_seconds: R,
    pub low_queue_seconds: R,
    pub scale_down_after: u128,
    pub underutilized_busy_ratio: R,
}

impl<R> ResolvedScalePolicy<R> {
    /// At least one thread to begin with, and no more than the maximum.
    pub open spec fn wf(self) -> bool {
        1 <= self.initial_threads <= self.max_threads
    }
}

/// How the number of a node's threads is decided.
#[derive(Clone, Copy, Debug)]
pub enum ResolvedThreadPolicy<R> {
    Fixed(usize),
    Scalable(ResolvedScalePolicy<R>),
    ImplicitSupport,
}

impl<R> ResolvedThreadPolicy<R> {
    /// A fixed count is positive and a scale policy is well formed.
    pub open spec fn wf(self) -> bool {
        match self {
            ResolvedThreadPolicy::Fixed(count) => count > 0,
            ResolvedThreadPolicy::Scalable(policy) => policy.wf(),
            ResolvedThreadPolicy::ImplicitSupport => true,
        }
    }
}

/// The kind of a node's thread policy, as telemetry shows it.
#[derive(Clone, Copy, Debug, PartialEq, Eq, Structural)]
pub enum NodeThreadPolicyKind {
    Fixed,
    Scalable,
    ImplicitSupport,
}

/// The kind of `policy`.
pub fn thread_policy_kind<R>(policy: &ResolvedThreadPolicy<R>) -> (r: NodeThreadPolicyKind)
    ensures
        r == match *policy {
            ResolvedThreadPolicy::Fixed(_) => NodeThreadPolicyKind::Fixed,
            ResolvedThreadPolicy::Scalable(_) => NodeThreadPolicyKind::Scalable,
            ResolvedThreadPolicy::ImplicitSupport => NodeThreadPolicyKind::ImplicitSupport,
        },
{
    match policy {
        ResolvedThreadPolicy::Fixed(_) => NodeThreadPolicyKind::Fixed,
        ResolvedThreadPolicy::Scalable(_) => NodeThreadPolicyKind::Scalable,
        ResolvedThreadPolicy::ImplicitSupport => NodeThreadPolicyKind::ImplicitSupport,
    }
}

/// The number of threads of a fixed policy.
pub fn fixed_thread_count<R>(policy: &ResolvedThreadPolicy<R>) -> (r: Option<usize>)
    ensures
        r == match *policy {
            ResolvedThreadPolicy::Fixed(count) => Some(count),
            _ => None::<usize>,
        },
{
    match policy {
        ResolvedThreadPolicy::Fixed(count) => Some(*count),
        _ => None,
    }
}

/// The largest number of threads of a scalable policy.
pub fn max_thread_count<R>(policy: &ResolvedThreadPolicy<R>) -> (r: Option<usize>)
    ensures
        r == match *policy {
            ResolvedThreadPolicy::Scalable(scale) => Some(scale.max_threads),
            _ => None::<usize>,
        },
{
    match policy {
        ResolvedThreadPolicy::Scalable(scale) => Some(scale.max_threads),
        _ => None,
    }
}

/// The queue seconds at which a scalable node grows.
pub fn target_queue_seconds<R: Copy>(policy: &ResolvedThreadPolicy<R>) -> (r: Option<R>)
    ensures
        r == match *policy {
            ResolvedThreadPolicy::Scalable(scale) => Some(scale.target_queue_seconds),
            _ => None::<R>,
        },
{
    match policy {
        ResolvedThreadPolicy::Scalable(scale) => Some(scale.target_queue_seconds),
        _ => None,
    }
}

/// The queue seconds at which a scalable node shrinks.
pub fn low_queue_seconds<R: Copy>(policy: &ResolvedThreadPolicy<R>) -> (r: Option<R>)
    ensures
        r == match *policy {
            ResolvedThreadPolicy::Scalable(scale) => Some(scale.low_queue_seconds),
            _ => None::<R>,
        },
{
    match policy {
        ResolvedThreadPolicy::Scalable(scale) => Some(scale.low_queue_seconds),
        _ => None,
    }
}

/// `policy` with its zero counts replaced: the maximum by what the machine can run, the initial
/// count by half of the maximum; the initial count is then held to the maximum.
pub open spec fn resolved_scale<R>(policy: NodeScalePolicy<R>, available: usize) -> ResolvedScalePolicy<
    R,
> {
    let max_threads: int = if policy.max_threads == 0 {
        larger(available as int, 1)
    } else {
        policy.max_threads as int
    };
    let wanted: int = if policy.initial_threads == 0 {
        half_up(max_threads)
    } else {
        policy.initial_threads as int
    };
    ResolvedScalePolicy {
        initial_threads: (if wanted <= max_threads {
            wanted
        } else {
            max_threads
        }) as usize,
        max_threads: max_threads as usize,
        target_queue_seconds: policy.target_queue_seconds,
        low_queue_seconds: policy.low_queue_seconds,
        scale_down_after: policy.scale_down_after,
        underutilized_busy_ratio: policy.underutilized_busy_ratio,
    }
}

/// Fills in the defaults of `policy` for a machine that can run `available` threads at once.
pub fn resolve_scale_policy<R>(policy: NodeScalePolicy<R>, available: usize) -> (r:
    ResolvedScalePolicy<R>)
    ensures
        r == resolved_scale(policy, available),
        r.wf(),
{
    let max_threads: usize = if policy.max_threads == 0 {
        max_of(available, 1)
    } else {
        policy.max_threads
    };
    let wanted: usize = if policy.initial_threads == 0 {
        half_rounded_up(max_threads)
    } else {
        policy.initial_threads
    };
    ResolvedScalePolicy {
        initial_threads: if wanted <= max_threads {
            wanted
        } else {
            max_threads
        },
        max_threads,
        target_queue_seconds: policy.target_queue_seconds,
        low_queue_seconds: policy.low_queue_seconds,
        scale_down_after: policy.scale_down_after,
        underutilized_busy_ratio: policy.underutilized_busy_ratio,
    }
}

/// The scale policy that the hints ask for: the given one, or else `default`, with the counts that
/// were asked for by themselves put over it.
pub open spec fn hinted_scale<R>(
    hints: ThreadPolicyHints<R>,
    default: NodeScalePolicy<R>,
) -> NodeScalePolicy<R> {
    let base = match hints.scale_policy {
        Some(policy) => policy,
        None => default,
    };
    NodeScalePolicy {
        max_threads: match hints.max_threads {
            Some(count) => count,
            None => base.max_threads,
        },
        initial_threads: match hints.initial_threads {
            Some(count) => count,
            None => base.initial_threads,
        },
        ..base
    }
}

/// The thread policy of a node, or nothing where a fixed count of zero was asked for. A fixed count
/// comes before every other hint; any other hint, or being an anchor, makes the node scalable.
pub open spec fn resolved_policy<R>(
    is_anchor: bool,
    hints: ThreadPolicyHints<R>,
    default: NodeScalePolicy<R>,
    available: usize,
) -> Option<ResolvedThreadPolicy<R>> {
    match hints.fixed_threads {
        Some(count) => if count == 0 {
            None
        } else {
            Some(ResolvedThreadPolicy::Fixed(count))
        },
        None => if hints.asks_scaling() || is_anchor {
            Some(
                ResolvedThreadPolicy::Scalable(
                    resolved_scale(hinted_scale(hints, default), available),
                ),
            )
        } else {
            Some(ResolvedThreadPolicy::ImplicitSupport)
        },
    }
}

/// Decides the thread policy of a node. `default` is the scale policy of a node that asks for
/// scaling without giving one.
pub fn resolve_thread_policy<R, E>(
    is_anchor: bool,
    hints: ThreadPolicyHints<R>,
    default: NodeScalePolicy<R>,
    available: usize,
) -> (r: Result<ResolvedThreadPolicy<R>, PiperError<E>>)
    ensures
        match resolved_policy(is_anchor, hints, default, available) {
            Some(policy) => r == Ok::<_, PiperError<E>>(policy) && policy.wf(),
            None => r matches Err(PiperError::InvalidThreadCount),
        },
{
    if let Some(fixed_threads) = hints.fixed_threads {
        if fixed_threads == 0 {
            return Err(PiperError::InvalidThreadCount);
        }
        return Ok(ResolvedThreadPolicy::Fixed(fixed_threads));
    }
    let needs_scalable: bool = hints.scale_policy.is_some() || hints.max_threads.is_some()
        || hints.initial_threads.is_some() || is_anchor;
    if needs_scalable {
        let mut policy: NodeScalePolicy<R> = match hints.scale_policy {
            Some(policy) => policy,
            None => default,
        };
        if let Some(max_threads) = hints.max_threads {
            policy.max_threads = max_threads;
        }
        if let Some(initial_threads) = hints.initial_threads {
            policy.initial_threads = initial_threads;
        }
        return Ok(ResolvedThreadPolicy::Scalable(resolve_scale_policy(policy, available)));
    }
    Ok(ResolvedThreadPolicy::ImplicitSupport)
}

/// How many workers a node is given at the start: those it must have, and those it is given while
/// there is room.
pub open spec fn startup_workers<R>(policy: ResolvedThreadPolicy<R>) -> (nat, nat) {
    match policy {
        ResolvedThreadPolicy::Fixed(count) => (count as nat, 0),
        ResolvedThreadPolicy::Scalable(scale) => (
            1,
            if scale.initial_threads >= 1 {
                (scale.initial_threads - 1) as nat
            } else {
                0
            },
        ),
        ResolvedThreadPolicy::ImplicitSupport => (1, 0),
    }
}

/// How many workers a node is given at the start.
pub fn startup_worker_count<R>(policy: &ResolvedThreadPolicy<R>) -> (r: (usize, usize))
    ensures
        (r.0 as nat, r.1 as nat) == startup_workers(*policy),
        r.0 + r.1 <= usize::MAX,
{
    match policy {
        ResolvedThreadPolicy::Fixed(count) => (*count, 0),
        ResolvedThreadPolicy::Scalable(scale) => (1, scale.initial_threads.saturating_sub(1)),
        ResolvedThreadPolicy::ImplicitSupport => (1, 0),
    }
}

/// The largest number of workers the pipeline may run: what was configured, or else twice what the
/// machine can run at once; never less than the nodes, nor than the workers they must begin with.
pub open spec fn worker_cap(
    configured: Option<usize>,
    node_count: int,
    required_base: int,
    available: int,
) -> int {
    let wanted = match configured {
        Some(cap) => cap as int,
        None => {
            let doubled = larger(available, 1) * 2;
            if doubled <= usize::MAX {
                doubled
            } else {
                usize::MAX as int
            }
        },
    };
    larger(larger(wanted, node_count), required_base)
}

/// Decides the largest number of workers the pipeline may run.
pub fn resolve_global_worker_cap(
    configured: Option<usize>,
    node_count: usize,
    required_base: usize,
    available: usize,
) -> (r: usize)
    ensures
        r == worker_cap(configured, node_count as int, required_base as int, available as int),
        r >= node_count,
        r >= required_base,
{
    let wanted: usize = match configured {
        Some(cap) => cap,
        None => match max_of(available, 1).checked_mul(2) {
            Some(doubled) => doubled,
            None => usize::MAX,
        },
    };
    max_of(max_of(wanted, node_count), required_base)
}

} // verus!
