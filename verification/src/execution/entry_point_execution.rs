//! The entry-point dispatcher: it admits a call and names the engine that runs
//! it, and it completes a call from the outcome that the engine reports.

use vstd::prelude::*;
use crate::execution::call_info::{
    copy_felts, spec_sum_resources, sum_resources, CallEntryPoint, CallInfo, CallStatus,
    ExecutionResources, FailureCause,
};
use crate::execution::contract_class::{ContractClass, ContractClassView};
use crate::execution::entry_point::{
    spec_admit, spec_final_status, spec_gas_consumed, Admission, BackendOutcome, Dispatch,
    EntryPointExecutionContext, Frame, Invocation,
};
use crate::felt::Felt;
use crate::state::cached_state::{
    backend_twins, lemma_twins_stay_twins, same_program, CachedState, CachedStateView,
};
use crate::state::state_api::StateReader;
use crate::types::ClassHash;

verus! {

/// The dispatcher's decision about `call` on `class` in `context`.
pub open spec fn spec_admission(
    call: CallEntryPoint,
    class: ContractClassView,
    context: EntryPointExecutionContext,
) -> Admission {
    spec_admit(
        call.initial_gas,
        call.entry_point_type,
        call.entry_point_selector,
        class,
        context.frames@.len(),
        context.max_recursion_depth as nat,
    )
}

/// What entering a call does. A call that is turned away leaves the state and
/// the context as they were, and its result says why. A call that is admitted
/// opens a frame in the state and in the context, and gets a trace identifier
/// of its own.
pub open spec fn spec_dispatched<S: StateReader>(
    r: Dispatch,
    call: CallEntryPoint,
    class: ContractClassView,
    propagate_failure: bool,
    state_before: CachedStateView<S>,
    state_after: CachedStateView<S>,
    context_before: EntryPointExecutionContext,
    context_after: EntryPointExecutionContext,
) -> bool {
    match spec_admission(call, class, context_before) {
        Admission::Reject(cause) => {
            &&& r matches Dispatch::Done(info)
            &&& info.is_rejection_of(call, cause)
            &&& context_after == context_before
            &&& state_after == state_before
        },
        admission => {
            &&& r matches Dispatch::Run(invocation)
            &&& invocation.carries_out(admission, call, context_before.next_trace_id)
            &&& context_after.entered(context_before, call, propagate_failure)
            &&& state_after == state_before.with_frame()
        },
    }
}

/// Enters `call`: the work that a top-level call and a nested call share.
pub(crate) fn enter_call<S: StateReader>(
    call: CallEntryPoint,
    contract_class: &ContractClass,
    propagate_failure: bool,
    state: &mut CachedState<S>,
    context: &mut EntryPointExecutionContext,
) -> (r: Dispatch)
    ensures
        spec_dispatched(
            r,
            call,
            contract_class@,
            propagate_failure,
            old(state)@,
            final(state)@,
            *old(context),
            *final(context),
        ),
{
    if call.initial_gas == 0 {
        return Dispatch::Done(CallInfo::rejected(call, FailureCause::OutOfResources));
    }
    if context.frames.len() >= context.max_recursion_depth {
        return Dispatch::Done(CallInfo::rejected(call, FailureCause::RecursionLimitExceeded));
    }
    match contract_class.get_entrypoint(call.entry_point_type, call.entry_point_selector) {
        None => Dispatch::Done(CallInfo::rejected(call, FailureCause::EntryPointNotFound)),
        Some(function_idx) => {
            state.begin_frame();
            let trace_id = context.next_trace_id;
            let invocation = Invocation {
                backend: contract_class.backend(),
                artifact: contract_class.artifact(),
                function_idx,
                calldata: copy_felts(&call.calldata),
                gas: call.initial_gas,
                trace_id,
            };
            let frame = Frame {
                call,
                events: Vec::new(),
                l2_to_l1_messages: Vec::new(),
                inner_calls: Vec::new(),
                pending: None,
                pending_reason: Vec::new(),
                propagate_failure,
                saved_trace_id: context.current_trace_id,
            };
            let ghost before = context.frames@;
            context.frames.push(frame);
            context.current_trace_id = trace_id;
            context.next_trace_id = if trace_id == u64::MAX {
                0
            } else {
                trace_id + 1
            };
            proof {
                assert(context.frames@.drop_last() =~= before);
            }
            Dispatch::Run(invocation)
        },
    }
}

/// Runs one top-level contract invocation up to the point where an engine has
/// to take over. The dispatcher resolves the entry point against the class's
/// table and picks the engine by the class's variant. A call that cannot run
/// (no budget, too deep, no such entry point) is answered at once with a failed
/// result, and nothing is changed.
pub fn execute_entry_point_call<S: StateReader>(
    call: CallEntryPoint,
    contract_class: ContractClass,
    state: &mut CachedState<S>,
    resources: &mut ExecutionResources,
    context: &mut EntryPointExecutionContext,
) -> (r: Dispatch)
    ensures
        *final(resources) == *old(resources),
        spec_dispatched(
            r,
            call,
            contract_class@,
            false,
            old(state)@,
            final(state)@,
            *old(context),
            *final(context),
        ),
{
    enter_call(call, &contract_class, false, state, context)
}

/// What a completed call hands to the one that made it.
#[derive(Debug, PartialEq, Eq)]
pub struct CallResponse {
    /// What the call returned, or why it did not succeed.
    pub retdata: Vec<Felt>,
    /// The failure signal: whether the call ended otherwise than in success.
    pub failed: bool,
}

/// What completing a call leads to.
#[derive(Debug, PartialEq, Eq)]
pub enum Completion {
    /// No call was open. Nothing was done.
    NoActiveCall,
    /// The outermost call is over, with this result.
    TopLevel(CallInfo),
    /// A nested call is over. Its result is with the call that made it, which
    /// goes on with this answer.
    Nested(CallResponse),
}

/// The data of a completed call: the reason of the failure that decided its
/// status, where there was one, else what the run handed back.
pub open spec fn spec_final_data(frame: Frame, outcome: BackendOutcome) -> Seq<Felt> {
    if frame.pending is Some {
        frame.pending_reason@
    } else {
        outcome.spec_data()
    }
}

/// The status of a completed call.
pub open spec fn spec_completed_status(frame: Frame, outcome: BackendOutcome) -> CallStatus {
    spec_final_status(frame.pending, outcome.spec_status())
}

/// The budget that a completed call has used.
pub open spec fn spec_completed_gas(frame: Frame, outcome: BackendOutcome) -> u64 {
    spec_gas_consumed(
        frame.call.initial_gas,
        outcome.spec_remaining_gas(),
        spec_completed_status(frame, outcome),
    )
}

/// `info` is the result of the call of `frame`, completed with `outcome`.
pub open spec fn spec_is_result(info: CallInfo, frame: Frame, outcome: BackendOutcome) -> bool {
    &&& info.call == frame.call
    &&& info.status == spec_completed_status(frame, outcome)
    &&& info.retdata@ == spec_final_data(frame, outcome)
    &&& info.events == frame.events
    &&& info.l2_to_l1_messages == frame.l2_to_l1_messages
    &&& info.gas_consumed == spec_completed_gas(frame, outcome)
    &&& info.resources == outcome.spec_resources().spec_merge(
        spec_sum_resources(frame.inner_calls@),
    )
    &&& info.inner_calls == frame.inner_calls
}

/// The state after a call is completed. The markers that the run visited are
/// kept in any case. The writes of the call are kept if it succeeded, and
/// thrown away if it did not.
pub open spec fn spec_completed_state<S: StateReader>(
    state: CachedStateView<S>,
    class_hash: Option<ClassHash>,
    markers: Set<usize>,
    status: CallStatus,
) -> CachedStateView<S> {
    let visited = match class_hash {
        Some(h) => state.with_visited(h, markers),
        None => state,
    };
    if status == CallStatus::Success {
        visited.with_commit()
    } else {
        visited.with_rollback()
    }
}

/// The frame of the calling call after a nested call was completed: the result
/// is the last of its nested results, and a failure that it does not catch
/// fixes that it ends reverted, for the reason that the nested call gave.
pub open spec fn spec_resumed(after: Frame, before: Frame, nested: Frame, outcome: BackendOutcome) -> bool {
    &&& after.same_identity(before)
    &&& after.events == before.events
    &&& after.l2_to_l1_messages == before.l2_to_l1_messages
    &&& after.inner_calls@.len() == before.inner_calls@.len() + 1
    &&& after.inner_calls@.drop_last() == before.inner_calls@
    &&& spec_is_result(after.inner_calls@.last(), nested, outcome)
    &&& if spec_completed_status(nested, outcome) != CallStatus::Success
        && nested.propagate_failure && before.pending is None {
        &&& after.pending == Some(CallStatus::Reverted)
        &&& after.pending_reason@ == spec_final_data(nested, outcome)
    } else {
        after.same_pending(before)
    }
}

/// What completing the innermost open call does, from the outcome of its run
/// and the markers that the run visited. Without an open call nothing happens.
/// Otherwise the call's frame is closed: in the state, where its writes stay
/// only if it succeeded; in the context, where the trace identifier of the
/// calling call comes back. The work is added to `resources`, and the budget
/// that the call used is taken from the budget of whoever made the call. The
/// outermost call hands out its result; a nested one leaves its result with
/// the call that made it and answers that call.
pub open spec fn spec_completion<S: StateReader>(
    r: Completion,
    outcome: BackendOutcome,
    markers: Set<usize>,
    state_before: CachedStateView<S>,
    state_after: CachedStateView<S>,
    resources_before: ExecutionResources,
    resources_after: ExecutionResources,
    context_before: EntryPointExecutionContext,
    context_after: EntryPointExecutionContext,
    gas_before: u64,
    gas_after: u64,
) -> bool {
    let depth = context_before.frames@.len();
    if depth == 0 {
        &&& r is NoActiveCall
        &&& context_after == context_before
        &&& state_after == state_before
        &&& resources_after == resources_before
        &&& gas_after == gas_before
    } else {
        let frame = context_before.frames@.last();
        &&& context_after.same_settings(context_before)
        &&& context_after.same_counters(context_before)
        &&& context_after.next_trace_id == context_before.next_trace_id
        &&& context_after.current_trace_id == frame.saved_trace_id
        &&& context_after.frames@.len() == depth - 1
        &&& state_after == spec_completed_state(
            state_before,
            frame.call.class_hash,
            markers,
            spec_completed_status(frame, outcome),
        )
        &&& resources_after == resources_before.spec_merge(outcome.spec_resources())
        &&& gas_after == gas_before.saturating_sub(spec_completed_gas(frame, outcome))
        &&& if depth == 1 {
            &&& r matches Completion::TopLevel(info)
            &&& spec_is_result(info, frame, outcome)
        } else {
            &&& r matches Completion::Nested(response)
            &&& response.retdata@ == spec_final_data(frame, outcome)
            &&& response.failed == (spec_completed_status(frame, outcome) != CallStatus::Success)
            &&& context_after.frames@.drop_last() == context_before.frames@.drop_last().drop_last()
            &&& spec_resumed(
                context_after.frames@.last(),
                context_before.frames@[depth - 2],
                frame,
                outcome,
            )
        }
    }
}

/// Completes the innermost open call from the outcome of its run. The call's
/// frame is closed in the state and in the context, the trace identifier of
/// the calling call is restored, and the budget that the call used is taken
/// from `remaining_gas`, the budget of whoever made the call.
pub fn complete_entry_point_call<S: StateReader>(
    outcome: BackendOutcome,
    visited_pcs: &Vec<usize>,
    state: &mut CachedState<S>,
    resources: &mut ExecutionResources,
    context: &mut EntryPointExecutionContext,
    remaining_gas: &mut u64,
) -> (r: Completion)
    ensures
        spec_completion(
            r,
            outcome,
            visited_pcs@.to_set(),
            old(state)@,
            final(state)@,
            *old(resources),
            *final(resources),
            *old(context),
            *final(context),
            *old(remaining_gas),
            *final(remaining_gas),
        ),
{
    let ghost frames_before = context.frames@;
    if context.frames.len() == 0 {
        return Completion::NoActiveCall;
    }
    let frame = match context.frames.pop() {
        Some(f) => f,
        None => {
            return Completion::NoActiveCall;
        },
    };
    let ghost the_frame = frame;
    let Frame {
        call,
        events,
        l2_to_l1_messages,
        inner_calls,
        pending,
        pending_reason,
        propagate_failure,
        saved_trace_id,
    } = frame;
    let (outcome_status, outcome_data, outcome_remaining, outcome_resources) = match outcome {
        BackendOutcome::Returned { retdata, remaining_gas, resources } => (
            CallStatus::Success,
            retdata,
            remaining_gas,
            resources,
        ),
        BackendOutcome::Reverted { reason, remaining_gas, resources } => (
            CallStatus::Reverted,
            reason,
            remaining_gas,
            resources,
        ),
        BackendOutcome::OutOfGas { resources } => (
            CallStatus::Failed(FailureCause::OutOfResources),
            Vec::new(),
            0u64,
            resources,
        ),
        BackendOutcome::Trapped { remaining_gas, resources } => (
            CallStatus::Failed(FailureCause::RuntimeTrap),
            Vec::new(),
            remaining_gas,
            resources,
        ),
    };
    let (status, retdata) = match pending {
        Some(s) => (s, pending_reason),
        None => (outcome_status, outcome_data),
    };
    let succeeded = match status {
        CallStatus::Success => true,
        _ => false,
    };
    let out_of_resources = match status {
        CallStatus::Failed(FailureCause::OutOfResources) => true,
        _ => false,
    };
    let gas_consumed: u64 = if out_of_resources {
        call.initial_gas
    } else {
        call.initial_gas.saturating_sub(outcome_remaining)
    };
    match call.class_hash {
        Some(h) => {
            state.add_visited_pcs(h, visited_pcs);
        },
        None => {},
    }
    if succeeded {
        state.commit_frame();
    } else {
        state.rollback_frame();
    }
    *resources = resources.merge(&outcome_resources);
    *remaining_gas = (*remaining_gas).saturating_sub(gas_consumed);
    context.current_trace_id = saved_trace_id;
    let own = outcome_resources.merge(&sum_resources(&inner_calls));
    let info = CallInfo {
        call,
        status,
        retdata,
        events,
        l2_to_l1_messages,
        gas_consumed,
        resources: own,
        inner_calls,
    };
    proof {
        assert(spec_is_result(info, the_frame, outcome));
    }
    match context.frames.pop() {
        None => Completion::TopLevel(info),
        Some(caller) => {
            let ghost the_caller = caller;
            let mut caller = caller;
            let response = CallResponse { retdata: copy_felts(&info.retdata), failed: !succeeded };
            if !succeeded && propagate_failure && caller.pending.is_none() {
                caller.pending = Some(CallStatus::Reverted);
                caller.pending_reason = copy_felts(&info.retdata);
            }
            let ghost inner_before = caller.inner_calls@;
            caller.inner_calls.push(info);
            proof {
                assert(caller.inner_calls@.drop_last() =~= inner_before);
            }
            let ghost rest = context.frames@;
            context.frames.push(caller);
            proof {
                assert(context.frames@.drop_last() =~= rest);
                assert(rest =~= frames_before.drop_last().drop_last());
                assert(the_caller == frames_before[frames_before.len() - 2]);
            }
            Completion::Nested(response)
        },
    }
}

/// The dispatcher's decision does not depend on the representation of the
/// class: two classes with the same entry-point table are admitted or turned
/// away alike, for the same cause or to the same function. Only the engine
/// that is named follows the variant.
pub proof fn lemma_admission_is_backend_independent(
    call: CallEntryPoint,
    interpreted: ContractClassView,
    native: ContractClassView,
    context: EntryPointExecutionContext,
)
    requires
        same_program(interpreted, native),
    ensures
        match (
            spec_admission(call, interpreted, context),
            spec_admission(call, native, context),
        ) {
            (Admission::Reject(a), Admission::Reject(b)) => a == b,
            (
                Admission::Run { backend: backend_a, function_idx: a, .. },
                Admission::Run { backend: backend_b, function_idx: b, .. },
            ) => a == b && backend_a == interpreted.backend && backend_b == native.backend,
            _ => false,
        },
{
}

/// Entering a call has the same effect through either representation of the
/// class: from twin states the states end up twins, the contexts move alike,
/// and the results agree but for the engine and the artifact that an
/// invocation names.
pub proof fn lemma_dispatch_is_backend_independent<S: StateReader, T: StateReader>(
    call: CallEntryPoint,
    interpreted: ContractClassView,
    native: ContractClassView,
    propagate_failure: bool,
    context: EntryPointExecutionContext,
    state_interpreted: CachedStateView<S>,
    by_interpreted: Dispatch,
    after_interpreted: CachedStateView<S>,
    context_interpreted: EntryPointExecutionContext,
    state_native: CachedStateView<T>,
    by_native: Dispatch,
    after_native: CachedStateView<T>,
    context_native: EntryPointExecutionContext,
)
    requires
        same_program(interpreted, native),
        backend_twins(state_interpreted, state_native),
        spec_dispatched(
            by_interpreted,
            call,
            interpreted,
            propagate_failure,
            state_interpreted,
            after_interpreted,
            context,
            context_interpreted,
        ),
        spec_dispatched(
            by_native,
            call,
            native,
            propagate_failure,
            state_native,
            after_native,
            context,
            context_native,
        ),
    ensures
        backend_twins(after_interpreted, after_native),
        context_interpreted.frames@.len() == context_native.frames@.len(),
        context_interpreted.current_trace_id == context_native.current_trace_id,
        context_interpreted.next_trace_id == context_native.next_trace_id,
        match (by_interpreted, by_native) {
            (Dispatch::Done(a), Dispatch::Done(b)) => {
                &&& a.status == b.status
                &&& a.call == b.call
                &&& a.gas_consumed == b.gas_consumed
                &&& a.retdata@ == b.retdata@
                &&& context_interpreted == context_native
            },
            (Dispatch::Run(a), Dispatch::Run(b)) => {
                &&& a.function_idx == b.function_idx
                &&& a.calldata@ == b.calldata@
                &&& a.gas == b.gas
                &&& a.trace_id == b.trace_id
                &&& a.backend == interpreted.backend
                &&& b.backend == native.backend
                &&& context_interpreted.frames@.last().call == context_native.frames@.last().call
            },
            _ => false,
        },
{
    lemma_admission_is_backend_independent(call, interpreted, native, context);
    let any = crate::state::state_api::StateKey::Nonce(call.storage_address);
    lemma_twins_stay_twins(
        state_interpreted,
        state_native,
        any,
        Felt::spec_zero(),
        ClassHash::spec_uninitialized(),
        interpreted,
        native,
        Set::empty(),
    );
}

/// Completing a call has the same effect on twin states: with the same
/// outcome of the run, the states end up twins again. Completion never looks
/// at a class.
pub proof fn lemma_completion_is_backend_independent<S: StateReader, T: StateReader>(
    state_interpreted: CachedStateView<S>,
    state_native: CachedStateView<T>,
    class_hash: Option<ClassHash>,
    markers: Set<usize>,
    status: CallStatus,
)
    requires
        backend_twins(state_interpreted, state_native),
    ensures
        backend_twins(
            spec_completed_state(state_interpreted, class_hash, markers, status),
            spec_completed_state(state_native, class_hash, markers, status),
        ),
{
    let h = match class_hash {
        Some(h) => h,
        None => ClassHash::spec_uninitialized(),
    };
    let any = crate::state::state_api::StateKey::ClassHash(
        crate::types::ContractAddress::spec_zero(),
    );
    let class = arbitrary::<ContractClassView>();
    lemma_twins_stay_twins(
        state_interpreted,
        state_native,
        any,
        Felt::spec_zero(),
        h,
        class,
        class,
        markers,
    );
    let visited_interpreted = match class_hash {
        Some(h) => state_interpreted.with_visited(h, markers),
        None => state_interpreted,
    };
    let visited_native = match class_hash {
        Some(h) => state_native.with_visited(h, markers),
        None => state_native,
    };
    lemma_twins_stay_twins(
        visited_interpreted,
        visited_native,
        any,
        Felt::spec_zero(),
        h,
        class,
        class,
        markers,
    );
}

/// A call without budget is out of resources, and entering it changes nothing:
/// not the state, not the context.
pub proof fn lemma_zero_budget_is_out_of_resources<S: StateReader>(
    call: CallEntryPoint,
    class: ContractClassView,
    propagate_failure: bool,
    state_before: CachedStateView<S>,
    state_after: CachedStateView<S>,
    context_before: EntryPointExecutionContext,
    context_after: EntryPointExecutionContext,
    r: Dispatch,
)
    requires
        call.initial_gas == 0,
        spec_dispatched(
            r,
            call,
            class,
            propagate_failure,
            state_before,
            state_after,
            context_before,
            context_after,
        ),
    ensures
        r matches Dispatch::Done(info) && info.status == CallStatus::Failed(
            FailureCause::OutOfResources,
        ) && info.gas_consumed == 0,
        state_after == state_before,
        context_after == context_before,
{
}

/// The trace identifier is scoped: a call that is entered and later completed,
/// however it ends, leaves the identifier of the call that made it in place.
pub proof fn lemma_trace_id_is_scoped<S: StateReader>(
    call: CallEntryPoint,
    propagate_failure: bool,
    before: EntryPointExecutionContext,
    entered: EntryPointExecutionContext,
    r: Completion,
    outcome: BackendOutcome,
    markers: Set<usize>,
    state_before: CachedStateView<S>,
    state_after: CachedStateView<S>,
    resources_before: ExecutionResources,
    resources_after: ExecutionResources,
    completed: EntryPointExecutionContext,
    gas_before: u64,
    gas_after: u64,
)
    requires
        entered.entered(before, call, propagate_failure),
        spec_completion(
            r,
            outcome,
            markers,
            state_before,
            state_after,
            resources_before,
            resources_after,
            entered,
            completed,
            gas_before,
            gas_after,
        ),
    ensures
        completed.current_trace_id == before.current_trace_id,
        completed.frames@.len() == before.frames@.len(),
        entered.current_trace_id == before.next_trace_id,
{
}

/// The writes of a call that does not succeed are gone when it is completed:
/// what the call wrote in its frame is not in the state afterwards, while the
/// markers that its run visited are.
pub proof fn lemma_failed_call_leaves_no_writes<S: StateReader>(
    state: CachedStateView<S>,
    key: crate::state::state_api::StateKey,
    value: Felt,
    class_hash: ClassHash,
    markers: Set<usize>,
    status: CallStatus,
)
    requires
        state.writes.len() >= 1,
        status != CallStatus::Success,
    ensures
        spec_completed_state(
            state.with_frame().with_write(key, value),
            Some(class_hash),
            markers,
            status,
        ).writes == state.writes,
        spec_completed_state(
            state.with_frame().with_write(key, value),
            Some(class_hash),
            markers,
            status,
        ).value_at(key) == state.value_at(key),
        spec_completed_state(
            state.with_frame().with_write(key, value),
            Some(class_hash),
            markers,
            status,
        ).visited(class_hash) == state.visited(class_hash).union(markers),
{
    let written = state.with_frame().with_write(key, value);
    assert(written.writes.drop_last() =~= state.writes);
}

/// The writes of a call that succeeds stay when it is completed: they are then
/// writes of the call that made it.
pub proof fn lemma_successful_call_keeps_writes<S: StateReader>(
    state: CachedStateView<S>,
    key: crate::state::state_api::StateKey,
    value: Felt,
    markers: Set<usize>,
)
    requires
        state.writes.len() >= 1,
    ensures
        spec_completed_state(
            state.with_frame().with_write(key, value),
            None,
            markers,
            CallStatus::Success,
        ).value_at(key) == value,
        spec_completed_state(
            state.with_frame().with_write(key, value),
            None,
            markers,
            CallStatus::Success,
        ).writes.len() == state.writes.len(),
        spec_completed_state(
            state.with_frame().with_write(key, value),
            None,
            markers,
            CallStatus::Success,
        ).diff() == state.diff().insert(key, value),
{
    let opened = state.with_frame();
    let written = opened.with_write(key, value);
    crate::collections::lemma_flatten_push_empty(state.writes);
    crate::collections::lemma_flatten_insert_top(opened.writes, key, value);
    crate::collections::lemma_flatten_merge_top(written.writes);
}

/// No call uses more than its budget, and completing a call never adds to the
/// budget of whoever made it.
pub proof fn lemma_budget_only_decreases(frame: Frame, outcome: BackendOutcome, gas_before: u64)
    ensures
        spec_completed_gas(frame, outcome) <= frame.call.initial_gas,
        gas_before.saturating_sub(spec_completed_gas(frame, outcome)) <= gas_before,
{
}

} // verus!
