//! What is made of values whose type is only known when the pipeline runs.
//!
//! A value that turned out to be of another type than expected comes as `None`.

use crate::error::{node_failure_to_piper_error, reports_node_failure, NodeFailure, PiperError};
use crate::supervisor::is_internal;
use vstd::prelude::*;

verus! {

/// Whether the failure is an internal one with that message.
pub open spec fn is_internal_failure<E>(failure: NodeFailure<E>, text: Seq<char>) -> bool {
    failure matches NodeFailure::Internal(message) && message@ == text
}

/// What a node's code is given to work on an item: its state, the item, and, where the node has one,
/// what it gets its outputs from.
pub fn process_parts<T, I, A, E>(
    state: Option<T>,
    input: Option<I>,
    output_acquire: Option<Option<A>>,
) -> (r: Result<(T, I, Option<A>), NodeFailure<E>>)
    ensures
        match (state, input, output_acquire) {
            (None, _, _) => r matches Err(failure) && is_internal_failure(
                failure,
                "node state type mismatch"@,
            ),
            (Some(_), None, _) => r matches Err(failure) && is_internal_failure(
                failure,
                "node input type mismatch"@,
            ),
            (Some(_), Some(_), Some(None)) => r matches Err(failure) && is_internal_failure(
                failure,
                "node output factory type mismatch"@,
            ),
            (Some(t), Some(i), Some(Some(a))) => r == Ok::<_, NodeFailure<E>>((t, i, Some(a))),
            (Some(t), Some(i), None) => r == Ok::<_, NodeFailure<E>>((t, i, None::<A>)),
        },
{
    let state: T = match state {
        Some(state) => state,
        None => {
            return Err(NodeFailure::Internal("node state type mismatch".to_owned()));
        },
    };
    let input: I = match input {
        Some(input) => input,
        None => {
            return Err(NodeFailure::Internal("node input type mismatch".to_owned()));
        },
    };
    match output_acquire {
        Some(Some(acquire)) => Ok((state, input, Some(acquire))),
        Some(None) => Err(NodeFailure::Internal("node output factory type mismatch".to_owned())),
        None => Ok((state, input, None)),
    }
}

/// The state that a node's code is given to clean up.
pub fn cleanup_state<T, E>(state: Option<T>) -> (r: Result<T, NodeFailure<E>>)
    ensures
        match state {
            Some(state) => r == Ok::<T, NodeFailure<E>>(state),
            None => r matches Err(failure) && is_internal_failure(
                failure,
                "node cleanup state type mismatch"@,
            ),
        },
{
    match state {
        Some(state) => Ok(state),
        None => Err(NodeFailure::Internal("node cleanup state type mismatch".to_owned())),
    }
}

/// The states that a node's code is given to take one into the other.
pub fn merge_states<T, U, E>(target: Option<T>, source: Option<U>) -> (r: Result<
    (T, U),
    NodeFailure<E>,
>)
    ensures
        match (target, source) {
            (None, _) => r matches Err(failure) && is_internal_failure(
                failure,
                "node merge target state type mismatch"@,
            ),
            (Some(_), None) => r matches Err(failure) && is_internal_failure(
                failure,
                "node merge source state type mismatch"@,
            ),
            (Some(t), Some(s)) => r == Ok::<(T, U), NodeFailure<E>>((t, s)),
        },
{
    match (target, source) {
        (None, _) => Err(NodeFailure::Internal("node merge target state type mismatch".to_owned())),
        (Some(_), None) => Err(
            NodeFailure::Internal("node merge source state type mismatch".to_owned()),
        ),
        (Some(target), Some(source)) => Ok((target, source)),
    }
}

/// The failure of a node that is asked to merge states but cannot.
pub fn missing_merge<E>() -> (r: NodeFailure<E>)
    ensures
        is_internal_failure(r, "node does not provide a state merge function"@),
{
    NodeFailure::Internal("node does not provide a state merge function".to_owned())
}

/// The cleaning up of a node that has none of its own: nothing is done, and nothing goes wrong.
pub fn default_inline_cleanup<State, E>(_state: State) -> (r: Result<(), E>)
    ensures
        r == Ok::<(), E>(()),
{
    Ok(())
}

fn supervisor_error<E>(message: &str) -> (r: PiperError<E>)
    ensures
        is_internal(r, message@),
{
    PiperError::Internal { worker: "piper-supervisor".to_owned(), message: message.to_owned() }
}

/// The states that a pipeline gives back, unless one of them is of another type.
pub fn returned_states<T, E>(states: Vec<Option<T>>) -> (r: Result<Vec<T>, PiperError<E>>)
    ensures
        if forall|i: int| 0 <= i < states@.len() ==> #[trigger] states@[i] is Some {
            r matches Ok(typed) && typed@.len() == states@.len() && forall|i: int|
                0 <= i < states@.len() ==> states@[i] == Some(#[trigger] typed@[i])
        } else {
            r matches Err(error) && is_internal(
                error,
                "returned node state type mismatch"@,
            )
        },
{
    let mut typed: Vec<T> = Vec::new();
    let ghost all = states@;
    for state in it: states
        invariant
            it.seq() == all,
            all == states@,
            typed@.len() == it.index(),
            forall|i: int| 0 <= i < it.index() ==> all[i] == Some(#[trigger] typed@[i]),
    {
        match state {
            Some(state) => {
                typed.push(state);
            },
            None => {
                assert(all[it.index() as int] is None);
                return Err(supervisor_error("returned node state type mismatch"));
            },
        }
    }
    assert forall|i: int| 0 <= i < all.len() implies #[trigger] all[i] is Some by {
        assert(all[i] == Some(typed@[i]));
    }
    Ok(typed)
}

/// Whether the states of a pipeline can be merged into one; `stage` tells, of the node whose states
/// are given back, whether it can merge them.
pub fn check_merge<E>(stage: Option<bool>) -> (r: Result<(), PiperError<E>>)
    ensures
        match stage {
            None => r matches Err(error) && is_internal(
                error,
                "pipeline does not have a returned state node"@,
            ),
            Some(false) => r matches Err(PiperError::MissingStateMerge { node }) && node@
                == "returned-state node"@,
            Some(true) => r is Ok,
        },
{
    match stage {
        None => Err(supervisor_error("pipeline does not have a returned state node")),
        Some(false) => Err(
            PiperError::MissingStateMerge { node: "returned-state node".to_owned() },
        ),
        Some(true) => Ok(()),
    }
}

/// The states that a pipeline gives back as they are merged: the one that takes in the others, and
/// those yet to be taken in, in the order in which they came.
pub struct MergeRun<M> {
    pub merged: M,
    pub rest: Vec<M>,
}

impl<M> MergeRun<M> {
    /// The state that is to be taken in next.
    pub fn next(&mut self) -> (r: Option<M>)
        ensures
            final(self).merged == old(self).merged,
            if old(self).rest@.len() == 0 {
                r is None && final(self).rest@ == old(self).rest@
            } else {
                r == Some(old(self).rest@[0]) && final(self).rest@ == old(self).rest@.skip(1)
            },
    {
        if self.rest.len() == 0 {
            return None;
        }
        let state: M = self.rest.remove(0);
        assert(self.rest@ == old(self).rest@.skip(1));
        Some(state)
    }
}

/// Begins to merge the states of a pipeline: the first takes in the others.
pub fn begin_merge<M, E>(states: Vec<M>) -> (r: Result<MergeRun<M>, PiperError<E>>)
    ensures
        if states@.len() == 0 {
            r matches Err(error) && is_internal(
                error,
                "no returned node state was collected"@,
            )
        } else {
            r matches Ok(run) && run.merged == states@[0] && run.rest@ == states@.skip(1)
        },
{
    if states.len() == 0 {
        return Err(supervisor_error("no returned node state was collected"));
    }
    let mut rest: Vec<M> = states;
    let merged: M = rest.remove(0);
    assert(rest@ == states@.skip(1));
    Ok(MergeRun { merged, rest })
}

/// The states that are yet to be taken in, once `n` were.
pub open spec fn rest_after<M>(rest: Seq<M>, n: nat) -> Seq<M>
    decreases n,
{
    if n == 0 {
        rest
    } else {
        rest_after(rest, (n - 1) as nat).skip(1)
    }
}

/// The states of a pipeline are merged in the order in which they came, each once: the first takes in the
/// second, and so on, up to the last.
pub proof fn states_are_merged_in_order<M>(states: Seq<M>, n: nat)
    requires
        n < states.len(),
    ensures
        rest_after(states.skip(1), n) == states.skip(n as int + 1),
        rest_after(states.skip(1), n).len() == states.len() - 1 - n,
        n + 1 < states.len() ==> rest_after(states.skip(1), n)[0] == states[n as int + 1],
    decreases n,
{
    if n > 0 {
        states_are_merged_in_order(states, (n - 1) as nat);
        assert(states.skip(n as int).skip(1) == states.skip(n as int + 1));
    }
}

/// What a merge that failed is reported as.
pub fn merge_failed<E>(failure: NodeFailure<E>) -> (r: PiperError<E>)
    ensures
        reports_node_failure(r, "piper-supervisor"@, failure),
{
    node_failure_to_piper_error("piper-supervisor", failure)
}

/// The merged state of a pipeline, unless it is of another type.
pub fn merged_state<T, E>(state: Option<T>) -> (r: Result<T, PiperError<E>>)
    ensures
        match state {
            Some(state) => r == Ok::<T, PiperError<E>>(state),
            None => r matches Err(error) && is_internal(
                error,
                "returned node state type mismatch"@,
            ),
        },
{
    match state {
        Some(state) => Ok(state),
        None => Err(supervisor_error("returned node state type mismatch")),
    }
}

/// Takes the handle of a node that is run from outside. It can be taken once.
pub fn take_external_node<H>(handles: &mut Vec<Option<H>>, index: usize) -> (r: H)
    requires
        index < old(handles)@.len(),
        old(handles)@[index as int] is Some,
    ensures
        old(handles)@[index as int] == Some(r),
        final(handles)@ == old(handles)@.update(index as int, None),
{
    let mut handle: Option<H> = None;
    std::mem::swap(&mut handle, &mut handles[index]);
    match handle {
        Some(handle) => handle,
        None => vstd::pervasive::unreached(),
    }
}

/// The error of a pipeline whose first workers do not start in time.
pub fn startup_timed_out<E>() -> (r: PiperError<E>)
    ensures
        is_internal(r, "initial workers were not ready before startup completed"@),
{
    supervisor_error("initial workers were not ready before startup completed")
}

} // verus!
