//! The syscall bridge: the operations through which running contract code
//! touches the state and the call tree. Every operation is paid for from the
//! running call's budget before it acts.

use vstd::prelude::*;
use vstd::string::*;
use crate::abi_utils::{
    calculate_contract_address, selector_from_name, spec_contract_address,
    spec_selector_from_name,
};
use crate::execution::call_info::{
    CallEntryPoint, CallInfo, CallStatus, CallType, FailureCause, OrderedEvent,
    OrderedL2ToL1Message,
};
use crate::execution::contract_class::{ContractClass, ContractClassView};
use crate::execution::entry_point::{
    spec_admit, Admission, Dispatch, EntryPointExecutionContext, ExecutionInfo, Frame, Invocation,
};
use crate::execution::entry_point_execution::{enter_call, CallResponse};
use crate::types::{EntryPointSelector, EntryPointType};
use crate::felt::Felt;
use crate::state::cached_state::{
    backend_twins, lemma_twins_read_alike, lemma_twins_stay_twins, same_program, CachedState,
    CachedStateView,
};
use crate::state::state_api::{StateKey, StateReader};
use crate::types::{ClassHash, ContractAddress, Nonce, StorageEntry, StorageKey};
use crate::abi_utils::{spec_fee_token_var_address, spec_fee_token_var_address_high};

verus! {

/// Why an operation of the bridge did not act.
#[derive(Clone, Copy, Debug, PartialEq, Eq, Structural)]
pub enum SyscallFailure {
    /// No call is open, so nobody can have asked.
    NoActiveCall,
    /// The budget of the running call does not cover the operation. The call is
    /// bound to fail as out of resources.
    OutOfGas,
    /// A deployment would land on an address that is bound already.
    AddressUnavailable,
    /// Arguments were given for a constructor that the class does not have.
    UnexpectedConstructorCalldata,
    /// A class was needed that no one declared. This is fatal to the transaction.
    ClassNotDeclared(ClassHash),
}

/// Whether an operation that costs `cost` may act, and if not, why.
pub open spec fn spec_precheck(
    context: EntryPointExecutionContext,
    remaining_gas: u64,
    cost: u64,
) -> Option<SyscallFailure> {
    if context.frames@.len() == 0 {
        Some(SyscallFailure::NoActiveCall)
    } else if remaining_gas < cost {
        Some(SyscallFailure::OutOfGas)
    } else {
        None
    }
}

/// What a refused operation leaves behind. Without an open call nothing
/// changes. Without budget, the budget is gone and the running call is bound to
/// fail as out of resources; nothing else changes.
pub open spec fn spec_refused(
    failure: SyscallFailure,
    before: EntryPointExecutionContext,
    after: EntryPointExecutionContext,
    gas_before: u64,
    gas_after: u64,
) -> bool {
    if failure == SyscallFailure::OutOfGas {
        &&& gas_after == 0
        &&& after.same_settings(before)
        &&& after.same_counters(before)
        &&& after.same_trace(before)
        &&& after.same_outer_frames(before)
        &&& after.frames@.last().marked(
            before.frames@.last(),
            CallStatus::Failed(FailureCause::OutOfResources),
            Seq::empty(),
        )
    } else {
        &&& after == before
        &&& gas_after == gas_before
    }
}

/// Takes `cost` from the budget, or refuses.
pub fn pay(context: &mut EntryPointExecutionContext, remaining_gas: &mut u64, cost: u64) -> (r:
    Option<SyscallFailure>)
    ensures
        r == spec_precheck(*old(context), *old(remaining_gas), cost),
        match r {
            Some(failure) => spec_refused(
                failure,
                *old(context),
                *final(context),
                *old(remaining_gas),
                *final(remaining_gas),
            ),
            None => *final(context) == *old(context) && *final(remaining_gas) == *old(
                remaining_gas,
            ) - cost,
        },
{
    if context.frames.len() == 0 {
        return Some(SyscallFailure::NoActiveCall);
    }
    if *remaining_gas >= cost {
        *remaining_gas = *remaining_gas - cost;
        return None;
    }
    *remaining_gas = 0;
    let ghost before = context.frames@;
    match context.frames.pop() {
        Some(top) => {
            let mut top = top;
            if top.pending.is_none() {
                top.pending = Some(CallStatus::Failed(FailureCause::OutOfResources));
                top.pending_reason = Vec::new();
            }
            let ghost rest = context.frames@;
            context.frames.push(top);
            proof {
                assert(context.frames@.drop_last() =~= rest);
                assert(rest =~= before.drop_last());
            }
        },
        None => {},
    }
    Some(SyscallFailure::OutOfGas)
}

/// The contract whose storage the running call reads and writes.
pub open spec fn spec_storage_address(context: EntryPointExecutionContext) -> ContractAddress {
    context.frames@.last().call.storage_address
}

/// The contract whose storage the running call reads and writes.
fn current_storage_address(context: &EntryPointExecutionContext) -> (r: ContractAddress)
    requires
        context.frames@.len() > 0,
    ensures
        r == spec_storage_address(*context),
{
    context.frames[context.frames.len() - 1].call.storage_address
}

/// Reads a storage cell of the running contract.
pub fn storage_read<S: StateReader>(
    state: &mut CachedState<S>,
    context: &mut EntryPointExecutionContext,
    remaining_gas: &mut u64,
    key: StorageKey,
) -> (r: Result<Felt, SyscallFailure>)
    ensures
        match spec_precheck(*old(context), *old(remaining_gas), old(context).costs.storage_read) {
            Some(failure) => {
                &&& r == Err::<Felt, SyscallFailure>(failure)
                &&& final(state)@ == old(state)@
                &&& spec_refused(
                    failure,
                    *old(context),
                    *final(context),
                    *old(remaining_gas),
                    *final(remaining_gas),
                )
            },
            None => {
                &&& r == Ok::<Felt, SyscallFailure>(
                    old(state)@.storage_at(spec_storage_address(*old(context)), key),
                )
                &&& final(state)@ == old(state)@.with_read(
                    StateKey::Storage(
                        (StorageEntry { address: spec_storage_address(*old(context)), key }),
                    ),
                )
                &&& *final(context) == *old(context)
                &&& *final(remaining_gas) == *old(remaining_gas) - old(context).costs.storage_read
            },
        },
{
    let cost = context.costs.storage_read;
    match pay(context, remaining_gas, cost) {
        Some(failure) => Err(failure),
        None => {
            let address = current_storage_address(context);
            Ok(state.read_storage(address, key))
        },
    }
}

/// Writes a storage cell of the running contract, in the call's own frame.
pub fn storage_write<S: StateReader>(
    state: &mut CachedState<S>,
    context: &mut EntryPointExecutionContext,
    remaining_gas: &mut u64,
    key: StorageKey,
    value: Felt,
) -> (r: Result<(), SyscallFailure>)
    ensures
        match spec_precheck(*old(context), *old(remaining_gas), old(context).costs.storage_write) {
            Some(failure) => {
                &&& r == Err::<(), SyscallFailure>(failure)
                &&& final(state)@ == old(state)@
                &&& spec_refused(
                    failure,
                    *old(context),
                    *final(context),
                    *old(remaining_gas),
                    *final(remaining_gas),
                )
            },
            None => {
                &&& r is Ok
                &&& final(state)@ == old(state)@.with_write(
                    StateKey::Storage(
                        (StorageEntry { address: spec_storage_address(*old(context)), key }),
                    ),
                    value,
                )
                &&& *final(context) == *old(context)
                &&& *final(remaining_gas) == *old(remaining_gas) - old(context).costs.storage_write
            },
        },
{
    let cost = context.costs.storage_write;
    match pay(context, remaining_gas, cost) {
        Some(failure) => Err(failure),
        None => {
            let address = current_storage_address(context);
            state.write_storage(address, key, value);
            Ok(())
        },
    }
}

/// Reads the nonce of an address.
pub fn get_nonce<S: StateReader>(
    state: &mut CachedState<S>,
    context: &mut EntryPointExecutionContext,
    remaining_gas: &mut u64,
    address: ContractAddress,
) -> (r: Result<Nonce, SyscallFailure>)
    ensures
        match spec_precheck(*old(context), *old(remaining_gas), old(context).costs.get_nonce) {
            Some(failure) => {
                &&& r == Err::<Nonce, SyscallFailure>(failure)
                &&& final(state)@ == old(state)@
                &&& spec_refused(
                    failure,
                    *old(context),
                    *final(context),
                    *old(remaining_gas),
                    *final(remaining_gas),
                )
            },
            None => {
                &&& r == Ok::<Nonce, SyscallFailure>(old(state)@.nonce_at(address))
                &&& final(state)@ == old(state)@.with_read(StateKey::Nonce(address))
                &&& *final(context) == *old(context)
                &&& *final(remaining_gas) == *old(remaining_gas) - old(context).costs.get_nonce
            },
        },
{
    let cost = context.costs.get_nonce;
    match pay(context, remaining_gas, cost) {
        Some(failure) => Err(failure),
        None => Ok(state.read_nonce(address)),
    }
}

/// Reads the balance that the token contract `token` keeps for the running
/// contract: the lower and the upper half.
pub fn get_balance<S: StateReader>(
    state: &mut CachedState<S>,
    context: &mut EntryPointExecutionContext,
    remaining_gas: &mut u64,
    token: ContractAddress,
) -> (r: Result<(Felt, Felt), SyscallFailure>)
    ensures
        match spec_precheck(*old(context), *old(remaining_gas), old(context).costs.get_balance) {
            Some(failure) => {
                &&& r == Err::<(Felt, Felt), SyscallFailure>(failure)
                &&& final(state)@ == old(state)@
                &&& spec_refused(
                    failure,
                    *old(context),
                    *final(context),
                    *old(remaining_gas),
                    *final(remaining_gas),
                )
            },
            None => {
                let account = spec_storage_address(*old(context));
                &&& r == Ok::<(Felt, Felt), SyscallFailure>(
                    (
                        old(state)@.storage_at(token, spec_fee_token_var_address(account)),
                        old(state)@.storage_at(token, spec_fee_token_var_address_high(account)),
                    ),
                )
                &&& final(state)@ == old(state)@.with_read(
                    StateKey::Storage(
                        (StorageEntry { address: token, key: spec_fee_token_var_address(account) }),
                    ),
                ).with_read(
                    StateKey::Storage(
                        (StorageEntry {
                            address: token,
                            key: spec_fee_token_var_address_high(account),
                        }),
                    ),
                )
                &&& *final(context) == *old(context)
                &&& *final(remaining_gas) == *old(remaining_gas) - old(context).costs.get_balance
            },
        },
{
    let cost = context.costs.get_balance;
    match pay(context, remaining_gas, cost) {
        Some(failure) => Err(failure),
        None => {
            let account = current_storage_address(context);
            Ok(state.read_balance(account, token))
        },
    }
}

/// Reads the class hash that an address is bound to; zero where it is bound to none.
pub fn get_class_hash_at<S: StateReader>(
    state: &mut CachedState<S>,
    context: &mut EntryPointExecutionContext,
    remaining_gas: &mut u64,
    address: ContractAddress,
) -> (r: Result<ClassHash, SyscallFailure>)
    ensures
        match spec_precheck(
            *old(context),
            *old(remaining_gas),
            old(context).costs.get_class_hash_at,
        ) {
            Some(failure) => {
                &&& r == Err::<ClassHash, SyscallFailure>(failure)
                &&& final(state)@ == old(state)@
                &&& spec_refused(
                    failure,
                    *old(context),
                    *final(context),
                    *old(remaining_gas),
                    *final(remaining_gas),
                )
            },
            None => {
                &&& r == Ok::<ClassHash, SyscallFailure>(old(state)@.class_hash_at(address))
                &&& final(state)@ == old(state)@.with_read(StateKey::ClassHash(address))
                &&& *final(context) == *old(context)
                &&& *final(remaining_gas) == *old(remaining_gas)
                    - old(context).costs.get_class_hash_at
            },
        },
{
    let cost = context.costs.get_class_hash_at;
    match pay(context, remaining_gas, cost) {
        Some(failure) => Err(failure),
        None => Ok(state.read_class_hash(address)),
    }
}

/// What the running call may know of itself and of its surroundings.
pub open spec fn spec_execution_info(context: EntryPointExecutionContext) -> ExecutionInfo {
    ExecutionInfo {
        environment: context.environment,
        caller_address: context.frames@.last().call.caller_address,
        contract_address: spec_storage_address(context),
        entry_point_selector: context.frames@.last().call.entry_point_selector,
    }
}

/// Tells the running call who called it, which contract and entry point it
/// runs, and the block and transaction around it.
pub fn get_execution_info(context: &mut EntryPointExecutionContext, remaining_gas: &mut u64) -> (r:
    Result<ExecutionInfo, SyscallFailure>)
    ensures
        match spec_precheck(
            *old(context),
            *old(remaining_gas),
            old(context).costs.get_execution_info,
        ) {
            Some(failure) => {
                &&& r == Err::<ExecutionInfo, SyscallFailure>(failure)
                &&& spec_refused(
                    failure,
                    *old(context),
                    *final(context),
                    *old(remaining_gas),
                    *final(remaining_gas),
                )
            },
            None => {
                &&& r == Ok::<ExecutionInfo, SyscallFailure>(spec_execution_info(*old(context)))
                &&& *final(context) == *old(context)
                &&& *final(remaining_gas) == *old(remaining_gas)
                    - old(context).costs.get_execution_info
            },
        },
{
    let cost = context.costs.get_execution_info;
    match pay(context, remaining_gas, cost) {
        Some(failure) => Err(failure),
        None => {
            let top = &context.frames[context.frames.len() - 1];
            Ok(
                ExecutionInfo {
                    environment: context.environment,
                    caller_address: top.call.caller_address,
                    contract_address: top.call.storage_address,
                    entry_point_selector: top.call.entry_point_selector,
                },
            )
        },
    }
}

/// Binds the running contract to another class. The class must be declared:
/// without it the contract could not run again, which is fatal.
pub fn replace_class<S: StateReader>(
    state: &mut CachedState<S>,
    context: &mut EntryPointExecutionContext,
    remaining_gas: &mut u64,
    class_hash: ClassHash,
) -> (r: Result<(), SyscallFailure>)
    ensures
        match spec_precheck(*old(context), *old(remaining_gas), old(context).costs.replace_class) {
            Some(failure) => {
                &&& r == Err::<(), SyscallFailure>(failure)
                &&& final(state)@ == old(state)@
                &&& spec_refused(
                    failure,
                    *old(context),
                    *final(context),
                    *old(remaining_gas),
                    *final(remaining_gas),
                )
            },
            None => {
                let looked_up = old(state)@.with_class_read(class_hash);
                &&& *final(context) == *old(context)
                &&& *final(remaining_gas) == *old(remaining_gas) - old(context).costs.replace_class
                &&& match old(state)@.class_of(class_hash) {
                    None => {
                        &&& r == Err::<(), SyscallFailure>(
                            SyscallFailure::ClassNotDeclared(class_hash),
                        )
                        &&& final(state)@ == looked_up
                    },
                    Some(_) => {
                        &&& r is Ok
                        &&& final(state)@ == looked_up.with_write(
                            StateKey::ClassHash(spec_storage_address(*old(context))),
                            class_hash.0,
                        )
                        &&& final(state)@.class_hash_at(spec_storage_address(*old(context)))
                            == class_hash
                    },
                }
            },
        },
{
    let cost = context.costs.replace_class;
    match pay(context, remaining_gas, cost) {
        Some(failure) => Err(failure),
        None => {
            match state.read_class(class_hash) {
                Err(_) => Err(SyscallFailure::ClassNotDeclared(class_hash)),
                Ok(_) => {
                    let address = current_storage_address(context);
                    state.bind_address(address, class_hash);
                    Ok(())
                },
            }
        },
    }
}

/// The count after one more, which stays at the largest value.
pub open spec fn spec_count_up(n: usize) -> usize {
    if n == usize::MAX {
        n
    } else {
        (n + 1) as usize
    }
}

/// Emits an event: it joins the events of the running call, numbered among all
/// events of the transaction.
pub fn emit_event(
    context: &mut EntryPointExecutionContext,
    remaining_gas: &mut u64,
    keys: Vec<Felt>,
    data: Vec<Felt>,
) -> (r: Result<(), SyscallFailure>)
    ensures
        match spec_precheck(*old(context), *old(remaining_gas), old(context).costs.emit_event) {
            Some(failure) => {
                &&& r == Err::<(), SyscallFailure>(failure)
                &&& spec_refused(
                    failure,
                    *old(context),
                    *final(context),
                    *old(remaining_gas),
                    *final(remaining_gas),
                )
            },
            None => {
                let before = old(context).frames@.last();
                let after = final(context).frames@.last();
                &&& r is Ok
                &&& *final(remaining_gas) == *old(remaining_gas) - old(context).costs.emit_event
                &&& final(context).same_settings(*old(context))
                &&& final(context).same_trace(*old(context))
                &&& final(context).same_outer_frames(*old(context))
                &&& final(context).n_sent_messages == old(context).n_sent_messages
                &&& final(context).n_emitted_events == spec_count_up(old(context).n_emitted_events)
                &&& after.same_identity(before)
                &&& after.same_pending(before)
                &&& after.l2_to_l1_messages == before.l2_to_l1_messages
                &&& after.inner_calls == before.inner_calls
                &&& after.events@.len() == before.events@.len() + 1
                &&& after.events@.drop_last() == before.events@
                &&& after.events@.last().order == old(context).n_emitted_events
                &&& after.events@.last().keys == keys
                &&& after.events@.last().data == data
            },
        },
{
    let cost = context.costs.emit_event;
    match pay(context, remaining_gas, cost) {
        Some(failure) => Err(failure),
        None => {
            let ghost before = context.frames@;
            match context.frames.pop() {
                Some(top) => {
                    let mut top = top;
                    let ghost events_before = top.events@;
                    top.events.push(OrderedEvent { order: context.n_emitted_events, keys, data });
                    proof {
                        assert(top.events@.drop_last() =~= events_before);
                    }
                    let ghost rest = context.frames@;
                    context.frames.push(top);
                    proof {
                        assert(context.frames@.drop_last() =~= rest);
                        assert(rest =~= before.drop_last());
                    }
                },
                None => {},
            }
            if context.n_emitted_events < usize::MAX {
                context.n_emitted_events = context.n_emitted_events + 1;
            }
            Ok(())
        },
    }
}

/// Sends an outbound message: it joins the messages of the running call,
/// numbered among all messages of the transaction.
pub fn send_message_to_l1(
    context: &mut EntryPointExecutionContext,
    remaining_gas: &mut u64,
    to_address: Felt,
    payload: Vec<Felt>,
) -> (r: Result<(), SyscallFailure>)
    ensures
        match spec_precheck(
            *old(context),
            *old(remaining_gas),
            old(context).costs.send_message_to_l1,
        ) {
            Some(failure) => {
                &&& r == Err::<(), SyscallFailure>(failure)
                &&& spec_refused(
                    failure,
                    *old(context),
                    *final(context),
                    *old(remaining_gas),
                    *final(remaining_gas),
                )
            },
            None => {
                let before = old(context).frames@.last();
                let after = final(context).frames@.last();
                &&& r is Ok
                &&& *final(remaining_gas) == *old(remaining_gas)
                    - old(context).costs.send_message_to_l1
                &&& final(context).same_settings(*old(context))
                &&& final(context).same_trace(*old(context))
                &&& final(context).same_outer_frames(*old(context))
                &&& final(context).n_emitted_events == old(context).n_emitted_events
                &&& final(context).n_sent_messages == spec_count_up(old(context).n_sent_messages)
                &&& after.same_identity(before)
                &&& after.same_pending(before)
                &&& after.events == before.events
                &&& after.inner_calls == before.inner_calls
                &&& after.l2_to_l1_messages@.len() == before.l2_to_l1_messages@.len() + 1
                &&& after.l2_to_l1_messages@.drop_last() == before.l2_to_l1_messages@
                &&& after.l2_to_l1_messages@.last().order == old(context).n_sent_messages
                &&& after.l2_to_l1_messages@.last().to_address == to_address
                &&& after.l2_to_l1_messages@.last().payload == payload
            },
        },
{
    let cost = context.costs.send_message_to_l1;
    match pay(context, remaining_gas, cost) {
        Some(failure) => Err(failure),
        None => {
            let ghost before = context.frames@;
            match context.frames.pop() {
                Some(top) => {
                    let mut top = top;
                    let ghost messages_before = top.l2_to_l1_messages@;
                    top.l2_to_l1_messages.push(
                        OrderedL2ToL1Message { order: context.n_sent_messages, to_address, payload },
                    );
                    proof {
                        assert(top.l2_to_l1_messages@.drop_last() =~= messages_before);
                    }
                    let ghost rest = context.frames@;
                    context.frames.push(top);
                    proof {
                        assert(context.frames@.drop_last() =~= rest);
                        assert(rest =~= before.drop_last());
                    }
                },
                None => {},
            }
            if context.n_sent_messages < usize::MAX {
                context.n_sent_messages = context.n_sent_messages + 1;
            }
            Ok(())
        },
    }
}

/// What starting a nested call leads to.
#[derive(Debug, PartialEq, Eq)]
pub enum CallStart {
    /// An engine has to run this; its outcome completes the nested call.
    Run(Invocation),
    /// The nested call is over already; the running call goes on with this answer.
    Completed(CallResponse),
}

/// The frame of the running call after a nested call ended before any code ran:
/// the result is the last of its nested results, and a failure that is not
/// caught fixes that the running call ends reverted.
pub open spec fn spec_immediate_recorded(
    after: Frame,
    before: Frame,
    call: CallEntryPoint,
    status: CallStatus,
    propagate_failure: bool,
) -> bool {
    &&& after.same_identity(before)
    &&& after.events == before.events
    &&& after.l2_to_l1_messages == before.l2_to_l1_messages
    &&& after.inner_calls@.len() == before.inner_calls@.len() + 1
    &&& after.inner_calls@.drop_last() == before.inner_calls@
    &&& after.inner_calls@.last().is_immediate_result(call, status)
    &&& if status != CallStatus::Success && propagate_failure && before.pending is None {
        &&& after.pending == Some(CallStatus::Reverted)
        &&& after.pending_reason@.len() == 0
    } else {
        after.same_pending(before)
    }
}

/// The context after a nested call ended before any code ran.
pub open spec fn spec_context_recorded(
    after: EntryPointExecutionContext,
    before: EntryPointExecutionContext,
    call: CallEntryPoint,
    status: CallStatus,
    propagate_failure: bool,
) -> bool {
    &&& after.same_settings(before)
    &&& after.same_counters(before)
    &&& after.same_trace(before)
    &&& after.same_outer_frames(before)
    &&& spec_immediate_recorded(
        after.frames@.last(),
        before.frames@.last(),
        call,
        status,
        propagate_failure,
    )
}

/// What starting the nested call `call` on `class` does. A call that the
/// dispatcher turns away is over at once: its failed result joins the nested
/// results of the running call, and the answer carries the failure signal. A
/// call that is admitted opens a frame of its own.
pub open spec fn spec_nested_started<S: StateReader>(
    r: CallStart,
    call: CallEntryPoint,
    class: ContractClassView,
    propagate_failure: bool,
    state_before: CachedStateView<S>,
    state_after: CachedStateView<S>,
    context_before: EntryPointExecutionContext,
    context_after: EntryPointExecutionContext,
) -> bool {
    match spec_admit(
        call.initial_gas,
        call.entry_point_type,
        call.entry_point_selector,
        class,
        context_before.frames@.len(),
        context_before.max_recursion_depth as nat,
    ) {
        Admission::Reject(cause) => {
            &&& r matches CallStart::Completed(response)
            &&& response.failed
            &&& response.retdata@.len() == 0
            &&& state_after == state_before
            &&& spec_context_recorded(
                context_after,
                context_before,
                call,
                CallStatus::Failed(cause),
                propagate_failure,
            )
        },
        admission => {
            &&& r matches CallStart::Run(invocation)
            &&& invocation.carries_out(admission, call, context_before.next_trace_id)
            &&& context_after.entered(context_before, call, propagate_failure)
            &&& state_after == state_before.with_frame()
        },
    }
}

/// Puts the result of a nested call that ended before any code ran with the
/// running call.
fn record_immediate(
    context: &mut EntryPointExecutionContext,
    info: CallInfo,
    propagate_failure: bool,
)
    requires
        old(context).frames@.len() > 0,
        info.retdata@.len() == 0,
        info.events@.len() == 0,
        info.l2_to_l1_messages@.len() == 0,
        info.gas_consumed == 0,
        info.resources == crate::execution::call_info::ExecutionResources::spec_zero(),
        info.inner_calls@.len() == 0,
    ensures
        spec_context_recorded(
            *final(context),
            *old(context),
            info.call,
            info.status,
            propagate_failure,
        ),
{
    let ghost before = context.frames@;
    let failed = !info.succeeded();
    match context.frames.pop() {
        Some(top) => {
            let mut top = top;
            if failed && propagate_failure && top.pending.is_none() {
                top.pending = Some(CallStatus::Reverted);
                top.pending_reason = Vec::new();
            }
            let ghost inner_before = top.inner_calls@;
            top.inner_calls.push(info);
            proof {
                assert(top.inner_calls@.drop_last() =~= inner_before);
            }
            let ghost rest = context.frames@;
            context.frames.push(top);
            proof {
                assert(context.frames@.drop_last() =~= rest);
                assert(rest =~= before.drop_last());
            }
        },
        None => {},
    }
}

/// Starts a nested call of the running call.
fn start_nested<S: StateReader>(
    call: CallEntryPoint,
    contract_class: &ContractClass,
    propagate_failure: bool,
    state: &mut CachedState<S>,
    context: &mut EntryPointExecutionContext,
) -> (r: CallStart)
    requires
        old(context).frames@.len() > 0,
    ensures
        spec_nested_started(
            r,
            call,
            contract_class@,
            propagate_failure,
            old(state)@,
            final(state)@,
            *old(context),
            *final(context),
        ),
{
    match enter_call(call, contract_class, propagate_failure, state, context) {
        Dispatch::Run(invocation) => CallStart::Run(invocation),
        Dispatch::Done(info) => {
            record_immediate(context, info, propagate_failure);
            CallStart::Completed(CallResponse { retdata: Vec::new(), failed: true })
        },
    }
}

/// The descriptor of a call that the running call makes to the contract at `address`.
pub open spec fn spec_contract_call(
    context: EntryPointExecutionContext,
    class_hash: ClassHash,
    address: ContractAddress,
    selector: EntryPointSelector,
    calldata: Vec<Felt>,
    gas: u64,
) -> CallEntryPoint {
    CallEntryPoint {
        class_hash: Some(class_hash),
        code_address: Some(address),
        entry_point_type: EntryPointType::External,
        entry_point_selector: selector,
        calldata,
        storage_address: address,
        caller_address: spec_storage_address(context),
        call_type: CallType::Call,
        initial_gas: gas,
    }
}

/// Calls another contract. The nested call gets the budget that the running
/// call has left, sees every write made so far, and writes into a frame of its
/// own. With `propagate_failure` the running call does not catch a failure of
/// the nested call: it is then bound to end reverted. A contract whose class
/// nobody declared cannot be called: that is fatal.
pub fn call_contract<S: StateReader>(
    state: &mut CachedState<S>,
    context: &mut EntryPointExecutionContext,
    remaining_gas: &mut u64,
    address: ContractAddress,
    selector: EntryPointSelector,
    calldata: Vec<Felt>,
    propagate_failure: bool,
) -> (r: Result<CallStart, SyscallFailure>)
    ensures
        match spec_precheck(*old(context), *old(remaining_gas), old(context).costs.call_contract) {
            Some(failure) => {
                &&& r matches Err(f)
                &&& f == failure
                &&& final(state)@ == old(state)@
                &&& spec_refused(
                    failure,
                    *old(context),
                    *final(context),
                    *old(remaining_gas),
                    *final(remaining_gas),
                )
            },
            None => {
                let gas = (*old(remaining_gas) - old(context).costs.call_contract) as u64;
                let class_hash = old(state)@.class_hash_at(address);
                let looked_up = old(state)@.with_read(StateKey::ClassHash(address)).with_class_read(
                    class_hash,
                );
                &&& *final(remaining_gas) == gas
                &&& match old(state)@.class_of(class_hash) {
                    None => {
                        &&& r matches Err(f)
                        &&& f == SyscallFailure::ClassNotDeclared(class_hash)
                        &&& final(state)@ == looked_up
                        &&& *final(context) == *old(context)
                    },
                    Some(class) => {
                        &&& r matches Ok(started)
                        &&& spec_nested_started(
                            started,
                            spec_contract_call(
                                *old(context),
                                class_hash,
                                address,
                                selector,
                                calldata,
                                gas,
                            ),
                            class,
                            propagate_failure,
                            looked_up,
                            final(state)@,
                            *old(context),
                            *final(context),
                        )
                    },
                }
            },
        },
{
    let cost = context.costs.call_contract;
    match pay(context, remaining_gas, cost) {
        Some(failure) => Err(failure),
        None => {
            let class_hash = state.read_class_hash(address);
            match state.read_class(class_hash) {
                Err(_) => Err(SyscallFailure::ClassNotDeclared(class_hash)),
                Ok(class) => {
                    let call = CallEntryPoint {
                        class_hash: Some(class_hash),
                        code_address: Some(address),
                        entry_point_type: EntryPointType::External,
                        entry_point_selector: selector,
                        calldata,
                        storage_address: address,
                        caller_address: current_storage_address(context),
                        call_type: CallType::Call,
                        initial_gas: *remaining_gas,
                    };
                    Ok(start_nested(call, &class, propagate_failure, state, context))
                },
            }
        },
    }
}

/// The descriptor of a call that runs the code of a class on the storage of
/// the running call.
pub open spec fn spec_library_call(
    context: EntryPointExecutionContext,
    class_hash: ClassHash,
    selector: EntryPointSelector,
    calldata: Vec<Felt>,
    gas: u64,
) -> CallEntryPoint {
    CallEntryPoint {
        class_hash: Some(class_hash),
        code_address: None,
        entry_point_type: EntryPointType::External,
        entry_point_selector: selector,
        calldata,
        storage_address: spec_storage_address(context),
        caller_address: context.frames@.last().call.caller_address,
        call_type: CallType::Delegate,
        initial_gas: gas,
    }
}

/// Runs the code of a class on the storage of the running call, on behalf of
/// the running call's own caller.
pub fn library_call<S: StateReader>(
    state: &mut CachedState<S>,
    context: &mut EntryPointExecutionContext,
    remaining_gas: &mut u64,
    class_hash: ClassHash,
    selector: EntryPointSelector,
    calldata: Vec<Felt>,
    propagate_failure: bool,
) -> (r: Result<CallStart, SyscallFailure>)
    ensures
        match spec_precheck(*old(context), *old(remaining_gas), old(context).costs.library_call) {
            Some(failure) => {
                &&& r matches Err(f)
                &&& f == failure
                &&& final(state)@ == old(state)@
                &&& spec_refused(
                    failure,
                    *old(context),
                    *final(context),
                    *old(remaining_gas),
                    *final(remaining_gas),
                )
            },
            None => {
                let gas = (*old(remaining_gas) - old(context).costs.library_call) as u64;
                let looked_up = old(state)@.with_class_read(class_hash);
                &&& *final(remaining_gas) == gas
                &&& match old(state)@.class_of(class_hash) {
                    None => {
                        &&& r matches Err(f)
                        &&& f == SyscallFailure::ClassNotDeclared(class_hash)
                        &&& final(state)@ == looked_up
                        &&& *final(context) == *old(context)
                    },
                    Some(class) => {
                        &&& r matches Ok(started)
                        &&& spec_nested_started(
                            started,
                            spec_library_call(*old(context), class_hash, selector, calldata, gas),
                            class,
                            propagate_failure,
                            looked_up,
                            final(state)@,
                            *old(context),
                            *final(context),
                        )
                    },
                }
            },
        },
{
    let cost = context.costs.library_call;
    match pay(context, remaining_gas, cost) {
        Some(failure) => Err(failure),
        None => {
            match state.read_class(class_hash) {
                Err(_) => Err(SyscallFailure::ClassNotDeclared(class_hash)),
                Ok(class) => {
                    let top = &context.frames[context.frames.len() - 1];
                    let call = CallEntryPoint {
                        class_hash: Some(class_hash),
                        code_address: None,
                        entry_point_type: EntryPointType::External,
                        entry_point_selector: selector,
                        calldata,
                        storage_address: top.call.storage_address,
                        caller_address: top.call.caller_address,
                        call_type: CallType::Delegate,
                        initial_gas: *remaining_gas,
                    };
                    Ok(start_nested(call, &class, propagate_failure, state, context))
                },
            }
        },
    }
}

/// The descriptor of the constructor call that deploys `class_hash` at
/// `address` on behalf of `caller`.
pub open spec fn spec_constructor_descriptor(
    class_hash: ClassHash,
    address: ContractAddress,
    caller: ContractAddress,
    calldata: Vec<Felt>,
    gas: u64,
) -> CallEntryPoint {
    CallEntryPoint {
        class_hash: Some(class_hash),
        code_address: Some(address),
        entry_point_type: EntryPointType::Constructor,
        entry_point_selector: spec_selector_from_name("constructor".spec_bytes()),
        calldata,
        storage_address: address,
        caller_address: caller,
        call_type: CallType::Call,
        initial_gas: gas,
    }
}

/// What a deployment at a given address does. An address that is bound is not
/// taken, and a class that nobody declared cannot be deployed. A class without
/// constructor takes no arguments and is deployed at once. Otherwise the
/// dispatcher decides about the constructor call; where it runs, the binding
/// of the address is written in its frame, so that a constructor that fails
/// takes the binding back.
pub open spec fn spec_deployment<S: StateReader>(
    r: Result<Dispatch, SyscallFailure>,
    call: CallEntryPoint,
    class_hash: ClassHash,
    propagate_failure: bool,
    state_before: CachedStateView<S>,
    state_after: CachedStateView<S>,
    context_before: EntryPointExecutionContext,
    context_after: EntryPointExecutionContext,
) -> bool {
    let address = call.storage_address;
    let looked_up = state_before.with_read(StateKey::ClassHash(address));
    if state_before.class_hash_at(address) != ClassHash::spec_uninitialized() {
        &&& r matches Err(f)
        &&& f == SyscallFailure::AddressUnavailable
        &&& state_after == looked_up
        &&& context_after == context_before
    } else {
        match state_before.class_of(class_hash) {
            None => {
                &&& r matches Err(f)
                &&& f == SyscallFailure::ClassNotDeclared(class_hash)
                &&& state_after == looked_up
                &&& context_after == context_before
            },
            Some(class) => {
                let with_class = looked_up.with_class_read(class_hash);
                if class.entry_points.constructor.len() == 0 {
                    if call.calldata@.len() > 0 {
                        &&& r matches Err(f)
                        &&& f == SyscallFailure::UnexpectedConstructorCalldata
                        &&& state_after == with_class
                        &&& context_after == context_before
                    } else {
                        &&& r matches Ok(Dispatch::Done(info))
                        &&& info.is_immediate_result(call, CallStatus::Success)
                        &&& state_after == with_class.with_write(
                            StateKey::ClassHash(address),
                            class_hash.0,
                        )
                        &&& context_after == context_before
                    }
                } else {
                    match spec_admit(
                        call.initial_gas,
                        call.entry_point_type,
                        call.entry_point_selector,
                        class,
                        context_before.frames@.len(),
                        context_before.max_recursion_depth as nat,
                    ) {
                        Admission::Reject(cause) => {
                            &&& r matches Ok(Dispatch::Done(info))
                            &&& info.is_rejection_of(call, cause)
                            &&& state_after == with_class
                            &&& context_after == context_before
                        },
                        admission => {
                            &&& r matches Ok(Dispatch::Run(invocation))
                            &&& invocation.carries_out(admission, call, context_before.next_trace_id)
                            &&& context_after.entered(context_before, call, propagate_failure)
                            &&& state_after == with_class.with_frame().with_write(
                                StateKey::ClassHash(address),
                                class_hash.0,
                            )
                        },
                    }
                }
            },
        }
    }
}

/// Deploys the class `class_hash` at `address`: binds the address to the class
/// and starts the constructor with `constructor_calldata`.
pub fn execute_deployment<S: StateReader>(
    state: &mut CachedState<S>,
    context: &mut EntryPointExecutionContext,
    class_hash: ClassHash,
    address: ContractAddress,
    caller: ContractAddress,
    constructor_calldata: Vec<Felt>,
    gas: u64,
    propagate_failure: bool,
) -> (r: Result<Dispatch, SyscallFailure>)
    ensures
        spec_deployment(
            r,
            spec_constructor_descriptor(class_hash, address, caller, constructor_calldata, gas),
            class_hash,
            propagate_failure,
            old(state)@,
            final(state)@,
            *old(context),
            *final(context),
        ),
{
    if !state.read_class_hash(address).is_uninitialized() {
        return Err(SyscallFailure::AddressUnavailable);
    }
    let class = match state.read_class(class_hash) {
        Ok(c) => c,
        Err(_) => {
            return Err(SyscallFailure::ClassNotDeclared(class_hash));
        },
    };
    let has_constructor = class.has_constructor();
    if !has_constructor && constructor_calldata.len() > 0 {
        return Err(SyscallFailure::UnexpectedConstructorCalldata);
    }
    let call = CallEntryPoint {
        class_hash: Some(class_hash),
        code_address: Some(address),
        entry_point_type: EntryPointType::Constructor,
        entry_point_selector: selector_from_name("constructor"),
        calldata: constructor_calldata,
        storage_address: address,
        caller_address: caller,
        call_type: CallType::Call,
        initial_gas: gas,
    };
    if !has_constructor {
        state.bind_address(address, class_hash);
        return Ok(Dispatch::Done(CallInfo::immediate(call, CallStatus::Success)));
    }
    match enter_call(call, &class, propagate_failure, state, context) {
        Dispatch::Run(invocation) => {
            state.bind_address(address, class_hash);
            Ok(Dispatch::Run(invocation))
        },
        Dispatch::Done(info) => Ok(Dispatch::Done(info)),
    }
}

/// What starting a deployment leads to.
#[derive(Debug, PartialEq, Eq)]
pub enum DeployStart {
    /// An engine has to run the constructor; its outcome completes the deployment.
    Run { address: ContractAddress, invocation: Invocation },
    /// The deployment is over already; the running call goes on with this answer.
    Completed { address: ContractAddress, response: CallResponse },
}

/// The contract in whose name the running call deploys.
pub open spec fn spec_deployer(
    context: EntryPointExecutionContext,
    deploy_from_zero: bool,
) -> ContractAddress {
    if deploy_from_zero {
        ContractAddress::spec_zero()
    } else {
        spec_storage_address(context)
    }
}

/// The descriptor of the constructor call of a deployment that the running
/// call makes.
pub open spec fn spec_constructor_call(
    context: EntryPointExecutionContext,
    class_hash: ClassHash,
    address: ContractAddress,
    calldata: Vec<Felt>,
    gas: u64,
) -> CallEntryPoint {
    spec_constructor_descriptor(class_hash, address, spec_storage_address(context), calldata, gas)
}

/// What a paid deployment does, from the state in which the address and the
/// class were looked up. The binding of the address is written in the frame of
/// the constructor call, so that a constructor that fails takes it back.
pub open spec fn spec_deployed<S: StateReader>(
    r: Result<DeployStart, SyscallFailure>,
    class_hash: ClassHash,
    address: ContractAddress,
    calldata: Vec<Felt>,
    gas: u64,
    state_before: CachedStateView<S>,
    state_after: CachedStateView<S>,
    context_before: EntryPointExecutionContext,
    context_after: EntryPointExecutionContext,
) -> bool {
    let looked_up = state_before.with_read(StateKey::ClassHash(address));
    let call = spec_constructor_call(context_before, class_hash, address, calldata, gas);
    if state_before.class_hash_at(address) != ClassHash::spec_uninitialized() {
        &&& r matches Err(f)
        &&& f == SyscallFailure::AddressUnavailable
        &&& state_after == looked_up
        &&& context_after == context_before
    } else {
        match state_before.class_of(class_hash) {
            None => {
                &&& r matches Err(f)
                &&& f == SyscallFailure::ClassNotDeclared(class_hash)
                &&& state_after == looked_up
                &&& context_after == context_before
            },
            Some(class) => {
                let with_class = looked_up.with_class_read(class_hash);
                if class.entry_points.constructor.len() == 0 {
                    if calldata@.len() > 0 {
                        &&& r matches Err(f)
                        &&& f == SyscallFailure::UnexpectedConstructorCalldata
                        &&& state_after == with_class
                        &&& context_after == context_before
                    } else {
                        &&& r matches Ok(DeployStart::Completed { address: a, response })
                        &&& a == address
                        &&& !response.failed
                        &&& response.retdata@.len() == 0
                        &&& state_after == with_class.with_write(
                            StateKey::ClassHash(address),
                            class_hash.0,
                        )
                        &&& spec_context_recorded(
                            context_after,
                            context_before,
                            call,
                            CallStatus::Success,
                            true,
                        )
                    }
                } else {
                    match spec_admit(
                        gas,
                        EntryPointType::Constructor,
                        call.entry_point_selector,
                        class,
                        context_before.frames@.len(),
                        context_before.max_recursion_depth as nat,
                    ) {
                        Admission::Reject(cause) => {
                            &&& r matches Ok(DeployStart::Completed { address: a, response })
                            &&& a == address
                            &&& response.failed
                            &&& response.retdata@.len() == 0
                            &&& state_after == with_class
                            &&& spec_context_recorded(
                                context_after,
                                context_before,
                                call,
                                CallStatus::Failed(cause),
                                true,
                            )
                        },
                        admission => {
                            &&& r matches Ok(DeployStart::Run { address: a, invocation })
                            &&& a == address
                            &&& invocation.carries_out(admission, call, context_before.next_trace_id)
                            &&& context_after.entered(context_before, call, true)
                            &&& state_after == with_class.with_frame().with_write(
                                StateKey::ClassHash(address),
                                class_hash.0,
                            )
                        },
                    }
                }
            },
        }
    }
}

/// Deploys a contract of the class `class_hash`: computes its address, binds the
/// address to the class and starts the constructor. An address that is bound
/// already is not taken. A failure of the constructor is never caught: it binds
/// the running call to end reverted, and the binding goes with the
/// constructor's frame.
pub fn deploy<S: StateReader>(
    state: &mut CachedState<S>,
    context: &mut EntryPointExecutionContext,
    remaining_gas: &mut u64,
    class_hash: ClassHash,
    salt: Felt,
    constructor_calldata: Vec<Felt>,
    deploy_from_zero: bool,
) -> (r: Result<DeployStart, SyscallFailure>)
    ensures
        match spec_precheck(*old(context), *old(remaining_gas), old(context).costs.deploy) {
            Some(failure) => {
                &&& r matches Err(f)
                &&& f == failure
                &&& final(state)@ == old(state)@
                &&& spec_refused(
                    failure,
                    *old(context),
                    *final(context),
                    *old(remaining_gas),
                    *final(remaining_gas),
                )
            },
            None => {
                let gas = (*old(remaining_gas) - old(context).costs.deploy) as u64;
                &&& *final(remaining_gas) == gas
                &&& spec_deployed(
                    r,
                    class_hash,
                    spec_contract_address(
                        salt,
                        class_hash,
                        constructor_calldata@,
                        spec_deployer(*old(context), deploy_from_zero),
                    ),
                    constructor_calldata,
                    gas,
                    old(state)@,
                    final(state)@,
                    *old(context),
                    *final(context),
                )
            },
        },
{
    let cost = context.costs.deploy;
    match pay(context, remaining_gas, cost) {
        Some(failure) => {
            return Err(failure);
        },
        None => {},
    }
    let deployer = if deploy_from_zero {
        ContractAddress::zero()
    } else {
        current_storage_address(context)
    };
    let address = calculate_contract_address(salt, class_hash, &constructor_calldata, deployer);
    let caller = current_storage_address(context);
    let gas = *remaining_gas;
    match execute_deployment(
        state,
        context,
        class_hash,
        address,
        caller,
        constructor_calldata,
        gas,
        true,
    ) {
        Err(failure) => Err(failure),
        Ok(Dispatch::Run(invocation)) => Ok(DeployStart::Run { address, invocation }),
        Ok(Dispatch::Done(info)) => {
            let failed = !info.succeeded();
            record_immediate(context, info, true);
            Ok(
                DeployStart::Completed {
                    address,
                    response: CallResponse { retdata: Vec::new(), failed },
                },
            )
        },
    }
}

/// Starting a nested call has the same effect through either representation
/// of the callee's class: from twin states the states end up twins, and the
/// answers agree but for the engine and the artifact that an invocation names.
pub proof fn lemma_nested_start_is_backend_independent<S: StateReader, T: StateReader>(
    call: CallEntryPoint,
    interpreted: ContractClassView,
    native: ContractClassView,
    propagate_failure: bool,
    context: EntryPointExecutionContext,
    state_interpreted: CachedStateView<S>,
    by_interpreted: CallStart,
    after_interpreted: CachedStateView<S>,
    context_interpreted: EntryPointExecutionContext,
    state_native: CachedStateView<T>,
    by_native: CallStart,
    after_native: CachedStateView<T>,
    context_native: EntryPointExecutionContext,
)
    requires
        same_program(interpreted, native),
        backend_twins(state_interpreted, state_native),
        spec_nested_started(
            by_interpreted,
            call,
            interpreted,
            propagate_failure,
            state_interpreted,
            after_interpreted,
            context,
            context_interpreted,
        ),
        spec_nested_started(
            by_native,
            call,
            native,
            propagate_failure,
            state_native,
            after_native,
            context,
            context_native,
        ),
    ensures
        backend_twins(after_interpreted, after_native),
        context_interpreted.frames@.len() == context_native.frames@.len(),
        context_interpreted.same_trace(context_native),
        match (by_interpreted, by_native) {
            (CallStart::Completed(a), CallStart::Completed(b)) => {
                &&& a.failed == b.failed
                &&& a.retdata@ == b.retdata@
                &&& context_interpreted.frames@.last().inner_calls@.last().status
                    == context_native.frames@.last().inner_calls@.last().status
                &&& context_interpreted.frames@.last().pending
                    == context_native.frames@.last().pending
            },
            (CallStart::Run(a), CallStart::Run(b)) => {
                &&& a.function_idx == b.function_idx
                &&& a.calldata@ == b.calldata@
                &&& a.gas == b.gas
                &&& a.trace_id == b.trace_id
                &&& a.backend == interpreted.backend
                &&& b.backend == native.backend
            },
            _ => false,
        },
{
    crate::execution::entry_point_execution::lemma_admission_is_backend_independent(
        call,
        interpreted,
        native,
        context,
    );
    lemma_twins_stay_twins(
        state_interpreted,
        state_native,
        StateKey::Nonce(call.storage_address),
        Felt::spec_zero(),
        ClassHash::spec_uninitialized(),
        interpreted,
        native,
        Set::empty(),
    );
}

/// A deployment has the same effect on twin states: it is refused in both for
/// the same reason, or it binds the address in both and starts the same
/// constructor, and the states end up twins.
pub proof fn lemma_deployment_is_backend_independent<S: StateReader, T: StateReader>(
    call: CallEntryPoint,
    class_hash: ClassHash,
    propagate_failure: bool,
    context: EntryPointExecutionContext,
    state_interpreted: CachedStateView<S>,
    by_interpreted: Result<Dispatch, SyscallFailure>,
    after_interpreted: CachedStateView<S>,
    context_interpreted: EntryPointExecutionContext,
    state_native: CachedStateView<T>,
    by_native: Result<Dispatch, SyscallFailure>,
    after_native: CachedStateView<T>,
    context_native: EntryPointExecutionContext,
)
    requires
        backend_twins(state_interpreted, state_native),
        spec_deployment(
            by_interpreted,
            call,
            class_hash,
            propagate_failure,
            state_interpreted,
            after_interpreted,
            context,
            context_interpreted,
        ),
        spec_deployment(
            by_native,
            call,
            class_hash,
            propagate_failure,
            state_native,
            after_native,
            context,
            context_native,
        ),
    ensures
        backend_twins(after_interpreted, after_native),
        context_interpreted.frames@.len() == context_native.frames@.len(),
        match (by_interpreted, by_native) {
            (Err(a), Err(b)) => a == b,
            (Ok(Dispatch::Done(a)), Ok(Dispatch::Done(b))) => a.status == b.status,
            (Ok(Dispatch::Run(a)), Ok(Dispatch::Run(b))) => {
                &&& a.function_idx == b.function_idx
                &&& a.calldata@ == b.calldata@
                &&& a.gas == b.gas
                &&& a.trace_id == b.trace_id
            },
            _ => false,
        },
{
    let address = call.storage_address;
    let bound = StateKey::ClassHash(address);
    lemma_twins_read_alike(state_interpreted, state_native, bound, class_hash);
    let any = arbitrary::<ContractClassView>();
    lemma_twins_stay_twins(
        state_interpreted,
        state_native,
        bound,
        class_hash.0,
        class_hash,
        any,
        any,
        Set::empty(),
    );
    let read_interpreted = state_interpreted.with_read(bound);
    let read_native = state_native.with_read(bound);
    lemma_twins_read_alike(read_interpreted, read_native, bound, class_hash);
    lemma_twins_stay_twins(
        read_interpreted,
        read_native,
        bound,
        class_hash.0,
        class_hash,
        any,
        any,
        Set::empty(),
    );
    let class_interpreted = read_interpreted.with_class_read(class_hash);
    let class_native = read_native.with_class_read(class_hash);
    lemma_twins_stay_twins(
        class_interpreted,
        class_native,
        bound,
        class_hash.0,
        class_hash,
        any,
        any,
        Set::empty(),
    );
    lemma_twins_stay_twins(
        class_interpreted.with_frame(),
        class_native.with_frame(),
        bound,
        class_hash.0,
        class_hash,
        any,
        any,
        Set::empty(),
    );
    if state_interpreted.class_of(class_hash) is Some {
        crate::execution::entry_point_execution::lemma_admission_is_backend_independent(
            call,
            state_interpreted.class_of(class_hash)->Some_0,
            state_native.class_of(class_hash)->Some_0,
            context,
        );
    }
}

} // verus!
