//! The execution context of one top-level invocation: the stack of open calls,
//! the limits and costs that syscalls see, and the scoped trace identifier.

use vstd::prelude::*;
use crate::execution::call_info::{
    CallEntryPoint, CallInfo, CallStatus, ExecutionResources, FailureCause, OrderedEvent,
    OrderedL2ToL1Message,
};
use crate::execution::contract_class::{Backend, ContractClassView};
use crate::felt::Felt;
use crate::types::{ContractAddress, EntryPointSelector, EntryPointType, Nonce};

verus! {

/// What each operation of the syscall bridge costs, in units of the budget.
#[derive(Clone, Copy, Debug, PartialEq, Eq, Structural, Hash)]
pub struct SyscallCosts {
    pub storage_read: u64,
    pub storage_write: u64,
    pub get_nonce: u64,
    pub get_balance: u64,
    pub emit_event: u64,
    pub send_message_to_l1: u64,
    pub call_contract: u64,
    pub library_call: u64,
    pub deploy: u64,
    pub replace_class: u64,
    pub get_class_hash_at: u64,
    pub get_execution_info: u64,
}

/// What running code may know of the block and the transaction it runs in.
/// Nothing changes it while the transaction runs.
#[derive(Clone, Copy, Debug, PartialEq, Eq, Structural, Hash)]
pub struct ExecutionEnvironment {
    pub block_number: u64,
    pub block_timestamp: u64,
    pub sequencer_address: ContractAddress,
    pub chain_id: Felt,
    /// The account that sent the transaction.
    pub account_contract_address: ContractAddress,
    pub transaction_hash: Felt,
    pub transaction_version: Felt,
    pub nonce: Nonce,
    pub max_fee: u128,
}

/// What a running call may know of itself and of its surroundings.
#[derive(Clone, Copy, Debug, PartialEq, Eq, Structural, Hash)]
pub struct ExecutionInfo {
    pub environment: ExecutionEnvironment,
    pub caller_address: ContractAddress,
    /// The contract whose storage the call reads and writes.
    pub contract_address: ContractAddress,
    pub entry_point_selector: EntryPointSelector,
}

/// An open call: what it has done so far.
#[derive(Debug, PartialEq, Eq)]
pub struct Frame {
    pub call: CallEntryPoint,
    pub events: Vec<OrderedEvent>,
    pub l2_to_l1_messages: Vec<OrderedL2ToL1Message>,
    pub inner_calls: Vec<CallInfo>,
    /// The status that the call is bound to end with, once a failure has been
    /// observed that it cannot undo.
    pub pending: Option<CallStatus>,
    /// The reason that goes with a pending revert.
    pub pending_reason: Vec<Felt>,
    /// Whether a failure of this call also fails the call that made it.
    pub propagate_failure: bool,
    /// The trace identifier of the call that made this one.
    pub saved_trace_id: u64,
}

impl Frame {
    /// A frame that has done nothing yet.
    pub open spec fn is_fresh(
        self,
        call: CallEntryPoint,
        propagate_failure: bool,
        saved_trace_id: u64,
    ) -> bool {
        &&& self.call == call
        &&& self.events@.len() == 0
        &&& self.l2_to_l1_messages@.len() == 0
        &&& self.inner_calls@.len() == 0
        &&& self.pending is None
        &&& self.pending_reason@.len() == 0
        &&& self.propagate_failure == propagate_failure
        &&& self.saved_trace_id == saved_trace_id
    }

    /// The same call in the same place of the call tree.
    pub open spec fn same_identity(self, other: Frame) -> bool {
        &&& self.call == other.call
        &&& self.propagate_failure == other.propagate_failure
        &&& self.saved_trace_id == other.saved_trace_id
    }

    /// The same pending outcome.
    pub open spec fn same_pending(self, other: Frame) -> bool {
        &&& self.pending == other.pending
        &&& self.pending_reason@ == other.pending_reason@
    }

    /// The frame after a failure was observed that fixes how the call ends. The
    /// first such failure decides.
    pub open spec fn marked(self, before: Frame, status: CallStatus, reason: Seq<Felt>) -> bool {
        &&& self.same_identity(before)
        &&& self.events == before.events
        &&& self.l2_to_l1_messages == before.l2_to_l1_messages
        &&& self.inner_calls == before.inner_calls
        &&& if before.pending is None {
            self.pending == Some(status) && self.pending_reason@ == reason
        } else {
            self.same_pending(before)
        }
    }
}

/// The state that one top-level invocation and all its nested calls share.
#[derive(Debug, PartialEq, Eq)]
pub struct EntryPointExecutionContext {
    /// The largest number of calls that may be open at once.
    pub max_recursion_depth: usize,
    pub costs: SyscallCosts,
    pub environment: ExecutionEnvironment,
    /// The open calls, the outermost first.
    pub frames: Vec<Frame>,
    /// The trace identifier of the innermost open call.
    pub current_trace_id: u64,
    /// The trace identifier that the next call gets.
    pub next_trace_id: u64,
    pub n_emitted_events: usize,
    pub n_sent_messages: usize,
}

/// The identifier after `id`. After the largest one the count starts again.
pub open spec fn spec_next_trace_id(id: u64) -> u64 {
    if id == u64::MAX {
        0
    } else {
        (id + 1) as u64
    }
}

impl EntryPointExecutionContext {
    /// A context without open calls.
    pub fn new(
        max_recursion_depth: usize,
        costs: SyscallCosts,
        environment: ExecutionEnvironment,
    ) -> (r: Self)
        ensures
            r.max_recursion_depth == max_recursion_depth,
            r.costs == costs,
            r.environment == environment,
            r.frames@.len() == 0,
            r.current_trace_id == 0,
            r.next_trace_id == 0,
            r.n_emitted_events == 0,
            r.n_sent_messages == 0,
    {
        EntryPointExecutionContext {
            max_recursion_depth,
            costs,
            environment,
            frames: Vec::new(),
            current_trace_id: 0,
            next_trace_id: 0,
            n_emitted_events: 0,
            n_sent_messages: 0,
        }
    }

    /// The number of open calls.
    pub fn depth(&self) -> (n: usize)
        ensures
            n == self.frames@.len(),
    {
        self.frames.len()
    }

    /// The limits, the costs and the environment, which no operation changes.
    pub open spec fn same_settings(self, other: Self) -> bool {
        &&& self.max_recursion_depth == other.max_recursion_depth
        &&& self.costs == other.costs
        &&& self.environment == other.environment
    }

    /// The same counters of events and messages.
    pub open spec fn same_counters(self, other: Self) -> bool {
        &&& self.n_emitted_events == other.n_emitted_events
        &&& self.n_sent_messages == other.n_sent_messages
    }

    /// The same trace identifiers.
    pub open spec fn same_trace(self, other: Self) -> bool {
        &&& self.current_trace_id == other.current_trace_id
        &&& self.next_trace_id == other.next_trace_id
    }

    /// The same open calls below the innermost one.
    pub open spec fn same_outer_frames(self, other: Self) -> bool {
        &&& self.frames@.len() == other.frames@.len()
        &&& self.frames@.len() > 0
        &&& self.frames@.drop_last() == other.frames@.drop_last()
    }

    /// This context is `before` after `call` was entered.
    pub open spec fn entered(self, before: Self, call: CallEntryPoint, propagate_failure: bool) -> bool {
        &&& self.same_settings(before)
        &&& self.same_counters(before)
        &&& self.frames@.len() == before.frames@.len() + 1
        &&& self.frames@.drop_last() == before.frames@
        &&& self.frames@.last().is_fresh(call, propagate_failure, before.current_trace_id)
        &&& self.current_trace_id == before.next_trace_id
        &&& self.next_trace_id == spec_next_trace_id(before.next_trace_id)
    }
}

/// What the dispatcher decides about a call before any code runs.
pub enum Admission {
    /// The call runs: this function of this artifact, on this engine.
    Run { backend: Backend, artifact: u64, function_idx: u64 },
    /// The call is turned away.
    Reject(FailureCause),
}

/// The dispatcher's decision. A call without budget is out of resources; a call
/// beyond the depth limit exceeds the recursion limit; a selector that the class
/// does not have is not found. Otherwise the class's variant names the engine.
pub open spec fn spec_admit(
    initial_gas: u64,
    kind: EntryPointType,
    selector: EntryPointSelector,
    class: ContractClassView,
    depth: nat,
    max_depth: nat,
) -> Admission {
    if initial_gas == 0 {
        Admission::Reject(FailureCause::OutOfResources)
    } else if depth >= max_depth {
        Admission::Reject(FailureCause::RecursionLimitExceeded)
    } else {
        match class.entry_points.resolve(kind, selector) {
            Some(function_idx) => Admission::Run {
                backend: class.backend,
                artifact: class.artifact,
                function_idx,
            },
            None => Admission::Reject(FailureCause::EntryPointNotFound),
        }
    }
}

/// What an engine is asked to run.
#[derive(Debug, PartialEq, Eq)]
pub struct Invocation {
    pub backend: Backend,
    pub artifact: u64,
    pub function_idx: u64,
    pub calldata: Vec<Felt>,
    /// The budget of the run.
    pub gas: u64,
    /// The identifier under which the run may leave a trace.
    pub trace_id: u64,
}

impl Invocation {
    /// The invocation that carries out an admitted call.
    pub open spec fn carries_out(
        self,
        admission: Admission,
        call: CallEntryPoint,
        trace_id: u64,
    ) -> bool {
        &&& admission matches Admission::Run { backend, artifact, function_idx }
        &&& self.backend == backend
        &&& self.artifact == artifact
        &&& self.function_idx == function_idx
        &&& self.calldata@ == call.calldata@
        &&& self.gas == call.initial_gas
        &&& self.trace_id == trace_id
    }
}

/// The dispatcher's answer to a call.
#[derive(Debug, PartialEq, Eq)]
pub enum Dispatch {
    /// An engine has to run this; its outcome completes the call.
    Run(Invocation),
    /// The call is over already, with this result.
    Done(CallInfo),
}

/// How an engine's run ended.
#[derive(Debug, PartialEq, Eq)]
pub enum BackendOutcome {
    /// The code ran to its end.
    Returned { retdata: Vec<Felt>, remaining_gas: u64, resources: ExecutionResources },
    /// The code gave up, with a reason.
    Reverted { reason: Vec<Felt>, remaining_gas: u64, resources: ExecutionResources },
    /// The budget ran out in the middle of the code.
    OutOfGas { resources: ExecutionResources },
    /// The engine trapped.
    Trapped { remaining_gas: u64, resources: ExecutionResources },
}

impl BackendOutcome {
    /// The status that the outcome alone gives.
    pub open spec fn spec_status(self) -> CallStatus {
        match self {
            BackendOutcome::Returned { .. } => CallStatus::Success,
            BackendOutcome::Reverted { .. } => CallStatus::Reverted,
            BackendOutcome::OutOfGas { .. } => CallStatus::Failed(FailureCause::OutOfResources),
            BackendOutcome::Trapped { .. } => CallStatus::Failed(FailureCause::RuntimeTrap),
        }
    }

    /// The data that the run hands back: what it returned, or why it gave up.
    pub open spec fn spec_data(self) -> Seq<Felt> {
        match self {
            BackendOutcome::Returned { retdata, .. } => retdata@,
            BackendOutcome::Reverted { reason, .. } => reason@,
            BackendOutcome::OutOfGas { .. } => Seq::empty(),
            BackendOutcome::Trapped { .. } => Seq::empty(),
        }
    }

    /// The budget that the run left.
    pub open spec fn spec_remaining_gas(self) -> u64 {
        match self {
            BackendOutcome::Returned { remaining_gas, .. } => remaining_gas,
            BackendOutcome::Reverted { remaining_gas, .. } => remaining_gas,
            BackendOutcome::OutOfGas { .. } => 0,
            BackendOutcome::Trapped { remaining_gas, .. } => remaining_gas,
        }
    }

    /// The work that the run did.
    pub open spec fn spec_resources(self) -> ExecutionResources {
        match self {
            BackendOutcome::Returned { resources, .. } => resources,
            BackendOutcome::Reverted { resources, .. } => resources,
            BackendOutcome::OutOfGas { resources } => resources,
            BackendOutcome::Trapped { resources, .. } => resources,
        }
    }
}

/// The status with which a call ends: a failure that was observed while it ran
/// decides; without one, the outcome of the run does.
pub open spec fn spec_final_status(pending: Option<CallStatus>, outcome: CallStatus) -> CallStatus {
    match pending {
        Some(status) => status,
        None => outcome,
    }
}

/// The part of its budget that a call has used. A call that ran out of
/// resources has used all of it; no call has used more than it had.
pub open spec fn spec_gas_consumed(initial_gas: u64, remaining_gas: u64, status: CallStatus) -> u64 {
    if status == CallStatus::Failed(FailureCause::OutOfResources) {
        initial_gas
    } else {
        initial_gas.saturating_sub(remaining_gas)
    }
}

} // verus!
