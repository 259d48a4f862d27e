//! Call descriptors and call results.

use vstd::prelude::*;
use crate::felt::Felt;
use crate::types::{ClassHash, ContractAddress, EntryPointSelector, EntryPointType};

verus! {

/// How a call relates code and storage.
#[derive(Clone, Copy, Debug, PartialEq, Eq, Structural, Hash)]
pub enum CallType {
    /// The callee runs its own code on its own storage.
    Call,
    /// The code of a class runs on the caller's storage.
    Delegate,
}

/// The descriptor of one call.
#[derive(Clone, Debug, PartialEq, Eq)]
pub struct CallEntryPoint {
    /// The class whose code runs, where the caller names it.
    pub class_hash: Option<ClassHash>,
    /// The contract whose code runs, where there is one.
    pub code_address: Option<ContractAddress>,
    pub entry_point_type: EntryPointType,
    pub entry_point_selector: EntryPointSelector,
    pub calldata: Vec<Felt>,
    /// The contract whose storage the call reads and writes.
    pub storage_address: ContractAddress,
    pub caller_address: ContractAddress,
    pub call_type: CallType,
    /// The resource budget that the call may use.
    pub initial_gas: u64,
}

/// Why a call failed without the contract's code deciding so.
#[derive(Clone, Copy, Debug, PartialEq, Eq, Structural, Hash)]
pub enum FailureCause {
    EntryPointNotFound,
    RecursionLimitExceeded,
    OutOfResources,
    RuntimeTrap,
}

/// How a call ended. Of a reverted call, the return data is the reason.
#[derive(Clone, Copy, Debug, PartialEq, Eq, Structural, Hash)]
pub enum CallStatus {
    Success,
    Reverted,
    Failed(FailureCause),
}

/// Counters of the work that an engine has done.
#[derive(Clone, Copy, Debug, PartialEq, Eq, Structural, Hash)]
pub struct ExecutionResources {
    pub n_steps: u64,
    pub n_memory_holes: u64,
    pub n_builtin_instances: u64,
}

impl ExecutionResources {
    /// The counters of two pieces of work together. A counter stays at its
    /// largest value rather than wrap around.
    pub open spec fn spec_merge(self, other: ExecutionResources) -> ExecutionResources {
        ExecutionResources {
            n_steps: self.n_steps.saturating_add(other.n_steps),
            n_memory_holes: self.n_memory_holes.saturating_add(other.n_memory_holes),
            n_builtin_instances: self.n_builtin_instances.saturating_add(
                other.n_builtin_instances,
            ),
        }
    }

    /// No work.
    pub open spec fn spec_zero() -> ExecutionResources {
        ExecutionResources { n_steps: 0, n_memory_holes: 0, n_builtin_instances: 0 }
    }

    pub fn zero() -> (r: ExecutionResources)
        ensures
            r == ExecutionResources::spec_zero(),
    {
        ExecutionResources { n_steps: 0, n_memory_holes: 0, n_builtin_instances: 0 }
    }

    pub fn merge(&self, other: &ExecutionResources) -> (r: ExecutionResources)
        ensures
            r == self.spec_merge(*other),
    {
        ExecutionResources {
            n_steps: self.n_steps.saturating_add(other.n_steps),
            n_memory_holes: self.n_memory_holes.saturating_add(other.n_memory_holes),
            n_builtin_instances: self.n_builtin_instances.saturating_add(
                other.n_builtin_instances,
            ),
        }
    }
}

/// An event that a call emitted, with its place among the events of the transaction.
#[derive(Clone, Debug, PartialEq, Eq)]
pub struct OrderedEvent {
    pub order: usize,
    pub keys: Vec<Felt>,
    pub data: Vec<Felt>,
}

/// An outbound message that a call sent, with its place among the messages of
/// the transaction.
#[derive(Clone, Debug, PartialEq, Eq)]
pub struct OrderedL2ToL1Message {
    pub order: usize,
    pub to_address: Felt,
    pub payload: Vec<Felt>,
}

/// The result of one call, with the results of the calls it made.
#[derive(Debug, PartialEq, Eq)]
pub struct CallInfo {
    pub call: CallEntryPoint,
    pub status: CallStatus,
    /// What the call returned; of a reverted call, the reason.
    pub retdata: Vec<Felt>,
    pub events: Vec<OrderedEvent>,
    pub l2_to_l1_messages: Vec<OrderedL2ToL1Message>,
    /// The part of the budget that the call used, its nested calls included.
    pub gas_consumed: u64,
    /// The work of the call's own run merged with that of its nested calls.
    pub resources: ExecutionResources,
    /// The results of the nested calls, in the order in which they were made.
    pub inner_calls: Vec<CallInfo>,
}

/// The merged work of a list of call results.
pub open spec fn spec_sum_resources(calls: Seq<CallInfo>) -> ExecutionResources
    decreases calls.len(),
{
    if calls.len() == 0 {
        ExecutionResources::spec_zero()
    } else {
        spec_sum_resources(calls.drop_last()).spec_merge(calls.last().resources)
    }
}

/// The merged work of a list of call results.
pub fn sum_resources(calls: &Vec<CallInfo>) -> (r: ExecutionResources)
    ensures
        r == spec_sum_resources(calls@),
{
    let mut total = ExecutionResources::zero();
    let mut i: usize = 0;
    while i < calls.len()
        invariant
            i <= calls@.len(),
            total == spec_sum_resources(calls@.take(i as int)),
        decreases calls@.len() - i,
    {
        proof {
            assert(calls@.take(i + 1).drop_last() =~= calls@.take(i as int));
        }
        total = total.merge(&calls[i].resources);
        i += 1;
    }
    proof {
        assert(calls@.take(calls@.len() as int) =~= calls@);
    }
    total
}

/// A copy of a list of field elements.
pub fn copy_felts(v: &Vec<Felt>) -> (r: Vec<Felt>)
    ensures
        r@ == v@,
{
    let mut out: Vec<Felt> = Vec::new();
    let mut i: usize = 0;
    while i < v.len()
        invariant
            i <= v@.len(),
            out@ == v@.take(i as int),
        decreases v@.len() - i,
    {
        out.push(v[i]);
        proof {
            assert(v@.take(i as int).push(v@[i as int]) =~= v@.take(i + 1));
        }
        i += 1;
    }
    proof {
        assert(v@.take(v@.len() as int) =~= v@);
    }
    out
}

impl CallInfo {
    /// The result of a call that was over before any code ran: it ended with
    /// `status`, used nothing and did nothing.
    pub open spec fn is_immediate_result(self, call: CallEntryPoint, status: CallStatus) -> bool {
        &&& self.call == call
        &&& self.status == status
        &&& self.retdata@.len() == 0
        &&& self.events@.len() == 0
        &&& self.l2_to_l1_messages@.len() == 0
        &&& self.gas_consumed == 0
        &&& self.resources == ExecutionResources::spec_zero()
        &&& self.inner_calls@.len() == 0
    }

    /// The result of a call that was turned away before any code ran: it failed
    /// with `cause`, used nothing and did nothing.
    pub open spec fn is_rejection_of(self, call: CallEntryPoint, cause: FailureCause) -> bool {
        self.is_immediate_result(call, CallStatus::Failed(cause))
    }

    /// The result of a call that was turned away before any code ran.
    pub fn rejected(call: CallEntryPoint, cause: FailureCause) -> (r: CallInfo)
        ensures
            r.is_rejection_of(call, cause),
    {
        CallInfo::immediate(call, CallStatus::Failed(cause))
    }

    /// The result of a call that was over before any code ran.
    pub fn immediate(call: CallEntryPoint, status: CallStatus) -> (r: CallInfo)
        ensures
            r.is_immediate_result(call, status),
    {
        CallInfo {
            call,
            status,
            retdata: Vec::new(),
            events: Vec::new(),
            l2_to_l1_messages: Vec::new(),
            gas_consumed: 0,
            resources: ExecutionResources::zero(),
            inner_calls: Vec::new(),
        }
    }

    /// Whether the call succeeded.
    pub fn succeeded(&self) -> (b: bool)
        ensures
            b == (self.status == CallStatus::Success),
    {
        match self.status {
            CallStatus::Success => true,
            _ => false,
        }
    }
}

} // verus!
