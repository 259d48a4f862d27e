use blockifier::abi_utils::{calculate_contract_address, selector_from_name};
use blockifier::execution::call_info::{
    CallEntryPoint, CallInfo, CallStatus, CallType, ExecutionResources, FailureCause,
};
use blockifier::execution::contract_class::{
    Backend, ContractClass, ContractClassV1, EntryPoint, EntryPointTable, NativeContractClassV1,
};
use blockifier::execution::entry_point::{
    BackendOutcome, Dispatch, EntryPointExecutionContext, ExecutionEnvironment, ExecutionInfo,
    Invocation, SyscallCosts,
};
use blockifier::execution::entry_point_execution::{
    complete_entry_point_call, execute_entry_point_call, CallResponse, Completion,
};
use blockifier::execution::syscalls::{
    call_contract, deploy, emit_event, get_balance, get_class_hash_at, get_execution_info,
    get_nonce, library_call, replace_class, send_message_to_l1, storage_read, storage_write,
    CallStart, DeployStart, SyscallFailure,
};
use blockifier::felt::Felt;
use blockifier::state::cached_state::CachedState;
use blockifier::test_utils::dict_state_reader::DictStateReader;
use blockifier::types::{
    ClassHash, ContractAddress, EntryPointSelector, EntryPointType, Nonce, PatriciaKey, StorageKey,
};

const COSTS: SyscallCosts = SyscallCosts {
    storage_read: 10,
    storage_write: 20,
    get_nonce: 5,
    get_balance: 15,
    emit_event: 30,
    send_message_to_l1: 40,
    call_contract: 100,
    library_call: 90,
    deploy: 200,
    replace_class: 60,
    get_class_hash_at: 25,
    get_execution_info: 35,
};

fn environment() -> ExecutionEnvironment {
    ExecutionEnvironment {
        block_number: 2000,
        block_timestamp: 1_069_200,
        sequencer_address: ContractAddress::from_u128(0x1000),
        chain_id: Felt::from_bytes_be_slice(b"SN_GOERLI"),
        account_contract_address: ContractAddress::from_u128(4321),
        transaction_hash: Felt::from_u128(0x7a),
        transaction_version: Felt::from_u128(3),
        nonce: Nonce(Felt::from_u128(5)),
        max_fee: 0,
    }
}

fn felt(x: u128) -> Felt {
    Felt::from_u128(x)
}

fn address(x: u128) -> ContractAddress {
    ContractAddress::from_u128(x)
}

fn key(x: u128) -> StorageKey {
    StorageKey(PatriciaKey::from_u128(x))
}

fn selector(x: u128) -> EntryPointSelector {
    EntryPointSelector(felt(x))
}

fn work(n_steps: u64) -> ExecutionResources {
    ExecutionResources { n_steps, n_memory_holes: 1, n_builtin_instances: 2 }
}

fn table(external: &[(u128, u64)], constructor: Option<u64>) -> EntryPointTable {
    let mut t = EntryPointTable::new();
    for (s, function_idx) in external {
        t.external.push(EntryPoint { selector: selector(*s), function_idx: *function_idx });
    }
    if let Some(function_idx) = constructor {
        t.constructor
            .push(EntryPoint { selector: selector_from_name("constructor"), function_idx });
    }
    t
}

fn class(backend: Backend, artifact: u64, external: &[(u128, u64)], ctor: Option<u64>) -> ContractClass {
    match backend {
        Backend::Interpreted => {
            ContractClass::V1(ContractClassV1 { entry_points: table(external, ctor), artifact })
        }
        Backend::Native => ContractClass::V1Native(NativeContractClassV1 {
            entry_points: table(external, ctor),
            artifact,
        }),
    }
}

fn call(to: u128, sel: u128, calldata: Vec<Felt>, gas: u64) -> CallEntryPoint {
    CallEntryPoint {
        class_hash: Some(ClassHash(felt(1000 + to))),
        code_address: Some(address(to)),
        entry_point_type: EntryPointType::External,
        entry_point_selector: selector(sel),
        calldata,
        storage_address: address(to),
        caller_address: address(4321),
        call_type: CallType::Call,
        initial_gas: gas,
    }
}

/// A cache in which the contracts 1 and 2 are deployed with classes that have
/// the entry points 100 and 200.
fn world(backend: Backend) -> CachedState<DictStateReader> {
    let mut state = CachedState::new(DictStateReader::new());
    for to in [1u128, 2] {
        let h = ClassHash(felt(1000 + to));
        state
            .declare_class(h, class(backend, to as u64, &[(100, 7), (200, 8)], Some(9)))
            .unwrap();
        state.bind_address(address(to), h);
    }
    state
}

fn context() -> EntryPointExecutionContext {
    EntryPointExecutionContext::new(3, COSTS, environment())
}

fn enter(
    state: &mut CachedState<DictStateReader>,
    ctx: &mut EntryPointExecutionContext,
    c: CallEntryPoint,
) -> Dispatch {
    let class = state.read_class(c.class_hash.unwrap()).unwrap();
    let mut resources = ExecutionResources::zero();
    execute_entry_point_call(c, class, state, &mut resources, ctx)
}

fn expect_run(d: Dispatch) -> Invocation {
    match d {
        Dispatch::Run(invocation) => invocation,
        Dispatch::Done(info) => panic!("the call was over at once: {:?}", info),
    }
}

fn expect_done(d: Dispatch) -> CallInfo {
    match d {
        Dispatch::Done(info) => info,
        Dispatch::Run(invocation) => panic!("the call was admitted: {:?}", invocation),
    }
}

fn returned(retdata: Vec<Felt>, remaining_gas: u64) -> BackendOutcome {
    BackendOutcome::Returned { retdata, remaining_gas, resources: work(10) }
}

#[test]
fn a_call_without_budget_is_out_of_resources() {
    for backend in [Backend::Interpreted, Backend::Native] {
        let mut state = world(backend);
        state.write_storage(address(1), key(1), felt(5));
        let diff_before = state.state_diff().len();
        let mut ctx = context();
        let mut resources = work(3);
        let c = call(1, 100, vec![felt(1)], 0);
        let class = state.read_class(ClassHash(felt(1001))).unwrap();
        let info =
            expect_done(execute_entry_point_call(c.clone(), class, &mut state, &mut resources, &mut ctx));
        assert_eq!(info.status, CallStatus::Failed(FailureCause::OutOfResources));
        assert_eq!(info.call, c);
        assert_eq!(info.gas_consumed, 0);
        assert!(info.retdata.is_empty() && info.events.is_empty() && info.inner_calls.is_empty());
        assert_eq!(info.resources, ExecutionResources::zero());
        assert_eq!(resources, work(3));
        assert_eq!(ctx, context());
        assert_eq!(ctx.environment, environment());
        assert_eq!(state.open_frames(), 0);
        assert_eq!(state.state_diff().len(), diff_before);
        assert_eq!(state.read_storage(address(1), key(1)), felt(5));
    }
}

#[test]
fn a_zero_budget_wins_over_a_missing_entry_point() {
    let mut state = world(Backend::Native);
    let mut ctx = context();
    let info = expect_done(enter(&mut state, &mut ctx, call(1, 999, vec![], 0)));
    assert_eq!(info.status, CallStatus::Failed(FailureCause::OutOfResources));
}

#[test]
fn a_missing_entry_point_is_a_failed_result() {
    let mut state = world(Backend::Interpreted);
    let mut ctx = context();
    let info = expect_done(enter(&mut state, &mut ctx, call(1, 999, vec![], 50)));
    assert_eq!(info.status, CallStatus::Failed(FailureCause::EntryPointNotFound));
    assert_eq!(info.gas_consumed, 0);
    assert_eq!(ctx.depth(), 0);
    assert_eq!(state.open_frames(), 0);
    let mut handler_call = call(1, 100, vec![], 50);
    handler_call.entry_point_type = EntryPointType::L1Handler;
    let info = expect_done(enter(&mut state, &mut ctx, handler_call));
    assert_eq!(info.status, CallStatus::Failed(FailureCause::EntryPointNotFound));
}

#[test]
fn the_variant_of_the_class_names_the_engine() {
    let mut by_backend = Vec::new();
    for backend in [Backend::Interpreted, Backend::Native] {
        let mut state = world(backend);
        let mut ctx = context();
        let invocation = expect_run(enter(&mut state, &mut ctx, call(2, 200, vec![felt(4), felt(5)], 500)));
        assert_eq!(invocation.backend, backend);
        assert_eq!(invocation.artifact, 2);
        assert_eq!(invocation.function_idx, 8);
        assert_eq!(invocation.calldata, vec![felt(4), felt(5)]);
        assert_eq!(invocation.gas, 500);
        assert_eq!(invocation.trace_id, 0);
        assert_eq!(ctx.depth(), 1);
        assert_eq!(ctx.current_trace_id, 0);
        assert_eq!(ctx.next_trace_id, 1);
        assert_eq!(state.open_frames(), 1);
        by_backend.push((invocation.function_idx, invocation.calldata, invocation.gas));
    }
    assert_eq!(by_backend[0], by_backend[1]);
}

#[test]
fn a_successful_call_keeps_its_writes() {
    let mut state = world(Backend::Native);
    let mut ctx = context();
    let mut resources = work(1);
    let c = call(1, 100, vec![], 1000);
    expect_run(enter(&mut state, &mut ctx, c.clone()));
    let mut gas = 1000u64;
    assert_eq!(storage_write(&mut state, &mut ctx, &mut gas, key(3), felt(33)), Ok(()));
    assert_eq!(gas, 980);
    assert_eq!(storage_read(&mut state, &mut ctx, &mut gas, key(3)), Ok(felt(33)));
    assert_eq!(gas, 970);
    let mut budget = 5000u64;
    let done = complete_entry_point_call(
        returned(vec![felt(8)], gas - 70),
        &vec![11, 12],
        &mut state,
        &mut resources,
        &mut ctx,
        &mut budget,
    );
    let info = match done {
        Completion::TopLevel(info) => info,
        other => panic!("not the outermost call: {:?}", other),
    };
    assert_eq!(info.status, CallStatus::Success);
    assert_eq!(info.call, c);
    assert_eq!(info.retdata, vec![felt(8)]);
    assert_eq!(info.gas_consumed, 100);
    assert_eq!(info.resources, work(10));
    assert_eq!(budget, 4900);
    assert_eq!(
        resources,
        ExecutionResources { n_steps: 11, n_memory_holes: 2, n_builtin_instances: 4 }
    );
    assert_eq!(ctx.depth(), 0);
    assert_eq!(state.open_frames(), 0);
    assert_eq!(state.read_storage(address(1), key(3)), felt(33));
    assert!(state.has_visited(ClassHash(felt(1001)), 11));
    assert!(state.has_visited(ClassHash(felt(1001)), 12));
}

#[test]
fn a_reverted_call_loses_its_writes_but_pays() {
    let mut state = world(Backend::Interpreted);
    state.write_storage(address(1), key(3), felt(1));
    let mut ctx = context();
    let mut resources = ExecutionResources::zero();
    expect_run(enter(&mut state, &mut ctx, call(1, 100, vec![], 1000)));
    let mut gas = 1000u64;
    storage_write(&mut state, &mut ctx, &mut gas, key(3), felt(33)).unwrap();
    let mut budget = 1000u64;
    let done = complete_entry_point_call(
        BackendOutcome::Reverted { reason: vec![felt(0xbad)], remaining_gas: 600, resources: work(4) },
        &vec![5],
        &mut state,
        &mut resources,
        &mut ctx,
        &mut budget,
    );
    let info = match done {
        Completion::TopLevel(info) => info,
        other => panic!("not the outermost call: {:?}", other),
    };
    assert_eq!(info.status, CallStatus::Reverted);
    assert_eq!(info.retdata, vec![felt(0xbad)]);
    assert_eq!(info.gas_consumed, 400);
    assert_eq!(budget, 600);
    assert_eq!(resources, work(4));
    assert_eq!(state.read_storage(address(1), key(3)), felt(1));
    assert_eq!(state.open_frames(), 0);
    assert!(state.has_visited(ClassHash(felt(1001)), 5));
}

#[test]
fn a_trap_and_an_empty_budget_are_failed_results() {
    let mut state = world(Backend::Native);
    let mut ctx = context();
    let mut resources = ExecutionResources::zero();
    let mut budget = 300u64;
    expect_run(enter(&mut state, &mut ctx, call(1, 100, vec![], 300)));
    let done = complete_entry_point_call(
        BackendOutcome::Trapped { remaining_gas: 250, resources: work(1) },
        &vec![],
        &mut state,
        &mut resources,
        &mut ctx,
        &mut budget,
    );
    match done {
        Completion::TopLevel(info) => {
            assert_eq!(info.status, CallStatus::Failed(FailureCause::RuntimeTrap));
            assert_eq!(info.gas_consumed, 50);
            assert!(info.retdata.is_empty());
        }
        other => panic!("not the outermost call: {:?}", other),
    }
    assert_eq!(budget, 250);
    expect_run(enter(&mut state, &mut ctx, call(1, 100, vec![], 250)));
    let done = complete_entry_point_call(
        BackendOutcome::OutOfGas { resources: work(1) },
        &vec![],
        &mut state,
        &mut resources,
        &mut ctx,
        &mut budget,
    );
    match done {
        Completion::TopLevel(info) => {
            assert_eq!(info.status, CallStatus::Failed(FailureCause::OutOfResources));
            assert_eq!(info.gas_consumed, 250);
        }
        other => panic!("not the outermost call: {:?}", other),
    }
    assert_eq!(budget, 0);
}

#[test]
fn the_engine_cannot_report_more_than_the_budget() {
    let mut state = world(Backend::Native);
    let mut ctx = context();
    let mut resources = ExecutionResources::zero();
    let mut budget = 10u64;
    expect_run(enter(&mut state, &mut ctx, call(1, 100, vec![], 300)));
    let done = complete_entry_point_call(
        returned(vec![], 900),
        &vec![],
        &mut state,
        &mut resources,
        &mut ctx,
        &mut budget,
    );
    match done {
        Completion::TopLevel(info) => assert_eq!(info.gas_consumed, 0),
        other => panic!("not the outermost call: {:?}", other),
    }
    assert_eq!(budget, 10);
    expect_run(enter(&mut state, &mut ctx, call(1, 100, vec![], 300)));
    complete_entry_point_call(returned(vec![], 0), &vec![], &mut state, &mut resources, &mut ctx, &mut budget);
    assert_eq!(budget, 0);
}

#[test]
fn completing_without_an_open_call_does_nothing() {
    let mut state = world(Backend::Native);
    let mut ctx = context();
    let mut resources = work(2);
    let mut budget = 77u64;
    let done = complete_entry_point_call(
        returned(vec![felt(1)], 5),
        &vec![1],
        &mut state,
        &mut resources,
        &mut ctx,
        &mut budget,
    );
    assert_eq!(done, Completion::NoActiveCall);
    assert_eq!(budget, 77);
    assert_eq!(resources, work(2));
    assert_eq!(ctx, context());
    assert!(!state.has_visited(ClassHash(felt(1001)), 1));
}

#[test]
fn operations_need_an_open_call() {
    let mut state = world(Backend::Native);
    let mut ctx = context();
    let mut gas = 1000u64;
    assert_eq!(storage_read(&mut state, &mut ctx, &mut gas, key(1)), Err(SyscallFailure::NoActiveCall));
    assert_eq!(
        storage_write(&mut state, &mut ctx, &mut gas, key(1), felt(1)),
        Err(SyscallFailure::NoActiveCall)
    );
    assert_eq!(get_nonce(&mut state, &mut ctx, &mut gas, address(1)), Err(SyscallFailure::NoActiveCall));
    assert_eq!(get_balance(&mut state, &mut ctx, &mut gas, address(1)), Err(SyscallFailure::NoActiveCall));
    assert_eq!(emit_event(&mut ctx, &mut gas, vec![], vec![]), Err(SyscallFailure::NoActiveCall));
    assert_eq!(
        send_message_to_l1(&mut ctx, &mut gas, felt(1), vec![]),
        Err(SyscallFailure::NoActiveCall)
    );
    assert_eq!(
        call_contract(&mut state, &mut ctx, &mut gas, address(1), selector(100), vec![], true),
        Err(SyscallFailure::NoActiveCall)
    );
    assert_eq!(
        library_call(&mut state, &mut ctx, &mut gas, ClassHash(felt(1001)), selector(100), vec![], true),
        Err(SyscallFailure::NoActiveCall)
    );
    assert_eq!(
        deploy(&mut state, &mut ctx, &mut gas, ClassHash(felt(1001)), felt(1), vec![], false),
        Err(SyscallFailure::NoActiveCall)
    );
    assert_eq!(gas, 1000);
    assert_eq!(state.read_storage(address(1), key(1)), Felt::zero());
}

#[test]
fn an_operation_that_cannot_be_paid_fails_the_call() {
    let mut state = world(Backend::Native);
    let mut ctx = context();
    let mut resources = ExecutionResources::zero();
    expect_run(enter(&mut state, &mut ctx, call(1, 100, vec![], 25)));
    let mut gas = 25u64;
    assert_eq!(storage_write(&mut state, &mut ctx, &mut gas, key(1), felt(1)), Ok(()));
    assert_eq!(gas, 5);
    assert_eq!(
        storage_write(&mut state, &mut ctx, &mut gas, key(2), felt(2)),
        Err(SyscallFailure::OutOfGas)
    );
    assert_eq!(gas, 0);
    assert_eq!(ctx.frames[0].pending, Some(CallStatus::Failed(FailureCause::OutOfResources)));
    let mut budget = 25u64;
    // whatever the engine says now, the call has failed
    let done = complete_entry_point_call(
        returned(vec![felt(1)], 0),
        &vec![],
        &mut state,
        &mut resources,
        &mut ctx,
        &mut budget,
    );
    match done {
        Completion::TopLevel(info) => {
            assert_eq!(info.status, CallStatus::Failed(FailureCause::OutOfResources));
            assert_eq!(info.gas_consumed, 25);
            assert!(info.retdata.is_empty());
        }
        other => panic!("not the outermost call: {:?}", other),
    }
    assert_eq!(budget, 0);
    assert_eq!(state.read_storage(address(1), key(1)), Felt::zero());
}

#[test]
fn an_exact_budget_pays_once() {
    let mut state = world(Backend::Native);
    let mut ctx = context();
    expect_run(enter(&mut state, &mut ctx, call(1, 100, vec![], 10)));
    let mut gas = 10u64;
    assert_eq!(storage_read(&mut state, &mut ctx, &mut gas, key(1)), Ok(Felt::zero()));
    assert_eq!(gas, 0);
    assert_eq!(ctx.frames[0].pending, None);
    assert_eq!(storage_read(&mut state, &mut ctx, &mut gas, key(1)), Err(SyscallFailure::OutOfGas));
}

#[test]
fn queries_read_through_the_cache() {
    let mut state = world(Backend::Native);
    state.write_nonce(address(9), Nonce(felt(3))).unwrap();
    let mut ctx = context();
    expect_run(enter(&mut state, &mut ctx, call(1, 100, vec![], 1000)));
    let mut gas = 1000u64;
    assert_eq!(get_nonce(&mut state, &mut ctx, &mut gas, address(9)), Ok(Nonce(felt(3))));
    assert_eq!(gas, 995);
    assert_eq!(get_balance(&mut state, &mut ctx, &mut gas, address(2)), Ok((Felt::zero(), Felt::zero())));
    assert_eq!(gas, 980);
}

#[test]
fn a_call_knows_itself_and_its_surroundings() {
    let mut state = world(Backend::Native);
    let mut ctx = context();
    let mut gas = 1000u64;
    assert_eq!(get_execution_info(&mut ctx, &mut gas), Err(SyscallFailure::NoActiveCall));
    assert_eq!(
        get_class_hash_at(&mut state, &mut ctx, &mut gas, address(1)),
        Err(SyscallFailure::NoActiveCall)
    );
    expect_run(enter(&mut state, &mut ctx, call(1, 100, vec![], 1000)));
    assert_eq!(
        get_execution_info(&mut ctx, &mut gas),
        Ok(ExecutionInfo {
            environment: environment(),
            caller_address: address(4321),
            contract_address: address(1),
            entry_point_selector: selector(100),
        })
    );
    assert_eq!(gas, 965);
    match call_contract(&mut state, &mut ctx, &mut gas, address(2), selector(200), vec![], true).unwrap() {
        CallStart::Run(invocation) => gas = invocation.gas,
        other => panic!("not admitted: {:?}", other),
    }
    let info = get_execution_info(&mut ctx, &mut gas).unwrap();
    assert_eq!(info.caller_address, address(1));
    assert_eq!(info.contract_address, address(2));
    assert_eq!(info.entry_point_selector, selector(200));
    assert_eq!(info.environment.block_number, 2000);
    assert_eq!(
        get_class_hash_at(&mut state, &mut ctx, &mut gas, address(2)),
        Ok(ClassHash(felt(1002)))
    );
    assert_eq!(
        get_class_hash_at(&mut state, &mut ctx, &mut gas, address(66)),
        Ok(ClassHash(Felt::zero()))
    );
    assert_eq!(gas, 965 - 100 - 35 - 50);
}

#[test]
fn events_and_messages_are_numbered_across_calls() {
    let mut state = world(Backend::Native);
    let mut ctx = context();
    let mut resources = ExecutionResources::zero();
    expect_run(enter(&mut state, &mut ctx, call(1, 100, vec![], 10_000)));
    let mut gas = 10_000u64;
    emit_event(&mut ctx, &mut gas, vec![felt(1)], vec![felt(2)]).unwrap();
    send_message_to_l1(&mut ctx, &mut gas, felt(0xe), vec![felt(3)]).unwrap();
    assert_eq!(gas, 10_000 - 70);
    let started =
        call_contract(&mut state, &mut ctx, &mut gas, address(2), selector(200), vec![], true).unwrap();
    let inner = match started {
        CallStart::Run(invocation) => invocation,
        other => panic!("not admitted: {:?}", other),
    };
    let mut inner_gas = inner.gas;
    emit_event(&mut ctx, &mut inner_gas, vec![felt(10)], vec![]).unwrap();
    complete_entry_point_call(
        returned(vec![], inner_gas),
        &vec![],
        &mut state,
        &mut resources,
        &mut ctx,
        &mut gas,
    );
    emit_event(&mut ctx, &mut gas, vec![felt(20)], vec![]).unwrap();
    let mut budget = 10_000u64;
    let done = complete_entry_point_call(
        returned(vec![], gas),
        &vec![],
        &mut state,
        &mut resources,
        &mut ctx,
        &mut budget,
    );
    let info = match done {
        Completion::TopLevel(info) => info,
        other => panic!("not the outermost call: {:?}", other),
    };
    let orders: Vec<usize> = info.events.iter().map(|e| e.order).collect();
    assert_eq!(orders, vec![0, 2]);
    assert_eq!(info.events[0].keys, vec![felt(1)]);
    assert_eq!(info.events[0].data, vec![felt(2)]);
    assert_eq!(info.events[1].keys, vec![felt(20)]);
    assert_eq!(info.l2_to_l1_messages.len(), 1);
    assert_eq!(info.l2_to_l1_messages[0].order, 0);
    assert_eq!(info.l2_to_l1_messages[0].to_address, felt(0xe));
    assert_eq!(info.l2_to_l1_messages[0].payload, vec![felt(3)]);
    assert_eq!(info.inner_calls.len(), 1);
    assert_eq!(info.inner_calls[0].events.len(), 1);
    assert_eq!(info.inner_calls[0].events[0].order, 1);
    assert_eq!(ctx.n_emitted_events, 3);
    assert_eq!(ctx.n_sent_messages, 1);
    // 70 + 100 for the call + 30 in the nested call + 30
    assert_eq!(info.gas_consumed, 230);
    assert_eq!(info.inner_calls[0].gas_consumed, 30);
}

fn nested(propagate: bool, inner_outcome: BackendOutcome) -> (CallInfo, CachedState<DictStateReader>, CallResponse) {
    let mut state = world(Backend::Interpreted);
    let mut ctx = context();
    let mut resources = ExecutionResources::zero();
    expect_run(enter(&mut state, &mut ctx, call(1, 100, vec![], 10_000)));
    let mut gas = 10_000u64;
    storage_write(&mut state, &mut ctx, &mut gas, key(1), felt(1)).unwrap();
    let started =
        call_contract(&mut state, &mut ctx, &mut gas, address(2), selector(200), vec![felt(6)], propagate)
            .unwrap();
    let inner = match started {
        CallStart::Run(invocation) => invocation,
        other => panic!("not admitted: {:?}", other),
    };
    assert_eq!(inner.gas, 10_000 - 20 - 100);
    assert_eq!(inner.function_idx, 8);
    assert_eq!(inner.artifact, 2);
    assert_eq!(inner.trace_id, 1);
    assert_eq!(ctx.current_trace_id, 1);
    assert_eq!(ctx.depth(), 2);
    assert_eq!(state.open_frames(), 2);
    assert_eq!(ctx.frames[1].call.caller_address, address(1));
    assert_eq!(ctx.frames[1].call.storage_address, address(2));
    assert_eq!(ctx.frames[1].call.calldata, vec![felt(6)]);
    let mut inner_gas = inner.gas;
    // the nested call sees the writes made so far, and writes to its own storage
    storage_write(&mut state, &mut ctx, &mut inner_gas, key(1), felt(2)).unwrap();
    assert_eq!(state.read_storage(address(1), key(1)), felt(1));
    assert_eq!(state.read_storage(address(2), key(1)), felt(2));
    let response = match complete_entry_point_call(
        inner_outcome,
        &vec![],
        &mut state,
        &mut resources,
        &mut ctx,
        &mut gas,
    ) {
        Completion::Nested(response) => response,
        other => panic!("not a nested call: {:?}", other),
    };
    assert_eq!(ctx.current_trace_id, 0);
    assert_eq!(ctx.next_trace_id, 2);
    assert_eq!(ctx.depth(), 1);
    assert_eq!(state.open_frames(), 1);
    let mut budget = 10_000u64;
    let done = complete_entry_point_call(
        returned(vec![felt(1)], gas),
        &vec![],
        &mut state,
        &mut resources,
        &mut ctx,
        &mut budget,
    );
    match done {
        Completion::TopLevel(info) => (info, state, response),
        other => panic!("not the outermost call: {:?}", other),
    }
}

#[test]
fn a_nested_success_is_kept_with_its_caller() {
    let (info, mut state, response) = nested(true, returned(vec![felt(42)], 9_000));
    assert_eq!(response, CallResponse { retdata: vec![felt(42)], failed: false });
    assert_eq!(info.status, CallStatus::Success);
    assert_eq!(info.inner_calls.len(), 1);
    assert_eq!(info.inner_calls[0].status, CallStatus::Success);
    assert_eq!(info.inner_calls[0].retdata, vec![felt(42)]);
    assert_eq!(info.inner_calls[0].gas_consumed, 880);
    assert_eq!(info.gas_consumed, 20 + 100 + 880);
    assert_eq!(
        info.resources,
        ExecutionResources { n_steps: 20, n_memory_holes: 2, n_builtin_instances: 4 }
    );
    assert_eq!(state.read_storage(address(1), key(1)), felt(1));
    assert_eq!(state.read_storage(address(2), key(1)), felt(2));
}

#[test]
fn a_nested_failure_that_is_not_caught_reverts_the_caller() {
    let reverted =
        BackendOutcome::Reverted { reason: vec![felt(0xdead)], remaining_gas: 9_800, resources: work(3) };
    let (info, mut state, response) = nested(true, reverted);
    assert_eq!(response, CallResponse { retdata: vec![felt(0xdead)], failed: true });
    assert_eq!(info.status, CallStatus::Reverted);
    assert_eq!(info.retdata, vec![felt(0xdead)]);
    assert_eq!(info.inner_calls.len(), 1);
    assert_eq!(info.inner_calls[0].status, CallStatus::Reverted);
    // what was paid stays paid
    assert_eq!(info.inner_calls[0].gas_consumed, 80);
    assert_eq!(info.gas_consumed, 20 + 100 + 80);
    // nothing of either call is left in the state
    assert_eq!(state.read_storage(address(1), key(1)), Felt::zero());
    assert_eq!(state.read_storage(address(2), key(1)), Felt::zero());
    assert_eq!(state.state_diff().len(), 2);
}

#[test]
fn a_nested_failure_that_is_caught_leaves_the_caller_free() {
    let trapped = BackendOutcome::Trapped { remaining_gas: 9_880, resources: work(3) };
    let (info, mut state, response) = nested(false, trapped);
    assert_eq!(response, CallResponse { retdata: vec![], failed: true });
    assert_eq!(info.status, CallStatus::Success);
    assert_eq!(info.retdata, vec![felt(1)]);
    assert_eq!(info.inner_calls[0].status, CallStatus::Failed(FailureCause::RuntimeTrap));
    // the caller's write stays, the nested call's write is gone
    assert_eq!(state.read_storage(address(1), key(1)), felt(1));
    assert_eq!(state.read_storage(address(2), key(1)), Felt::zero());
}

#[test]
fn a_nested_call_that_is_turned_away_is_over_at_once() {
    let mut state = world(Backend::Native);
    let mut ctx = context();
    expect_run(enter(&mut state, &mut ctx, call(1, 100, vec![], 10_000)));
    let mut gas = 10_000u64;
    let started =
        call_contract(&mut state, &mut ctx, &mut gas, address(2), selector(999), vec![], false).unwrap();
    assert_eq!(started, CallStart::Completed(CallResponse { retdata: vec![], failed: true }));
    assert_eq!(gas, 9_900);
    assert_eq!(ctx.depth(), 1);
    assert_eq!(state.open_frames(), 1);
    assert_eq!(ctx.frames[0].inner_calls.len(), 1);
    assert_eq!(
        ctx.frames[0].inner_calls[0].status,
        CallStatus::Failed(FailureCause::EntryPointNotFound)
    );
    assert_eq!(ctx.frames[0].pending, None);
    let again =
        call_contract(&mut state, &mut ctx, &mut gas, address(2), selector(999), vec![], true).unwrap();
    assert_eq!(again, CallStart::Completed(CallResponse { retdata: vec![], failed: true }));
    assert_eq!(ctx.frames[0].inner_calls.len(), 2);
    assert_eq!(ctx.frames[0].pending, Some(CallStatus::Reverted));
}

#[test]
fn calls_beyond_the_depth_limit_are_turned_away() {
    let mut state = world(Backend::Native);
    let mut ctx = context();
    expect_run(enter(&mut state, &mut ctx, call(1, 100, vec![], 10_000)));
    let mut gas = 10_000u64;
    for depth in 2..=3 {
        match call_contract(&mut state, &mut ctx, &mut gas, address(2), selector(200), vec![], false)
            .unwrap()
        {
            CallStart::Run(invocation) => gas = invocation.gas,
            other => panic!("not admitted: {:?}", other),
        }
        assert_eq!(ctx.depth(), depth);
    }
    let started =
        call_contract(&mut state, &mut ctx, &mut gas, address(1), selector(100), vec![], false).unwrap();
    assert_eq!(started, CallStart::Completed(CallResponse { retdata: vec![], failed: true }));
    assert_eq!(ctx.depth(), 3);
    assert_eq!(
        ctx.frames[2].inner_calls[0].status,
        CallStatus::Failed(FailureCause::RecursionLimitExceeded)
    );
    let mut top_level = context();
    top_level.max_recursion_depth = 0;
    let info = expect_done(enter(&mut state, &mut top_level, call(1, 100, vec![], 10)));
    assert_eq!(info.status, CallStatus::Failed(FailureCause::RecursionLimitExceeded));
}

#[test]
fn a_contract_without_a_class_cannot_be_called() {
    let mut state = world(Backend::Native);
    state.bind_address(address(3), ClassHash(felt(555)));
    let mut ctx = context();
    expect_run(enter(&mut state, &mut ctx, call(1, 100, vec![], 10_000)));
    let mut gas = 10_000u64;
    assert_eq!(
        call_contract(&mut state, &mut ctx, &mut gas, address(77), selector(100), vec![], true),
        Err(SyscallFailure::ClassNotDeclared(ClassHash(Felt::zero())))
    );
    assert_eq!(
        call_contract(&mut state, &mut ctx, &mut gas, address(3), selector(100), vec![], true),
        Err(SyscallFailure::ClassNotDeclared(ClassHash(felt(555))))
    );
    assert_eq!(
        library_call(&mut state, &mut ctx, &mut gas, ClassHash(felt(556)), selector(100), vec![], true),
        Err(SyscallFailure::ClassNotDeclared(ClassHash(felt(556))))
    );
    assert_eq!(gas, 10_000 - 290);
    assert_eq!(ctx.depth(), 1);
    assert!(ctx.frames[0].inner_calls.is_empty());
}

#[test]
fn a_library_call_runs_on_the_callers_storage() {
    let mut state = world(Backend::Native);
    let mut ctx = context();
    let mut resources = ExecutionResources::zero();
    expect_run(enter(&mut state, &mut ctx, call(1, 100, vec![], 10_000)));
    let mut gas = 10_000u64;
    let started = library_call(
        &mut state,
        &mut ctx,
        &mut gas,
        ClassHash(felt(1002)),
        selector(200),
        vec![felt(3)],
        true,
    )
    .unwrap();
    let inner = match started {
        CallStart::Run(invocation) => invocation,
        other => panic!("not admitted: {:?}", other),
    };
    assert_eq!(inner.artifact, 2);
    assert_eq!(inner.gas, 10_000 - 90);
    let frame = &ctx.frames[1].call;
    assert_eq!(frame.call_type, CallType::Delegate);
    assert_eq!(frame.storage_address, address(1));
    assert_eq!(frame.caller_address, address(4321));
    assert_eq!(frame.code_address, None);
    assert_eq!(frame.class_hash, Some(ClassHash(felt(1002))));
    let mut inner_gas = inner.gas;
    storage_write(&mut state, &mut ctx, &mut inner_gas, key(4), felt(44)).unwrap();
    complete_entry_point_call(
        returned(vec![], inner_gas),
        &vec![],
        &mut state,
        &mut resources,
        &mut ctx,
        &mut gas,
    );
    assert_eq!(storage_read(&mut state, &mut ctx, &mut gas, key(4)), Ok(felt(44)));
    assert_eq!(state.read_storage(address(2), key(4)), Felt::zero());
}

#[test]
fn a_deployment_binds_the_address_in_the_constructors_frame() {
    for failing in [false, true] {
        let mut state = world(Backend::Interpreted);
        let mut ctx = context();
        let mut resources = ExecutionResources::zero();
        expect_run(enter(&mut state, &mut ctx, call(1, 100, vec![], 10_000)));
        let mut gas = 10_000u64;
        let class_hash = ClassHash(felt(1002));
        let expected =
            calculate_contract_address(felt(5), class_hash, &vec![felt(8)], address(1));
        let started =
            deploy(&mut state, &mut ctx, &mut gas, class_hash, felt(5), vec![felt(8)], false).unwrap();
        let (deployed, invocation) = match started {
            DeployStart::Run { address, invocation } => (address, invocation),
            other => panic!("not admitted: {:?}", other),
        };
        assert_eq!(deployed, expected);
        assert_eq!(invocation.function_idx, 9);
        assert_eq!(invocation.calldata, vec![felt(8)]);
        assert_eq!(invocation.gas, 10_000 - 200);
        assert_eq!(state.read_class_hash(deployed), class_hash);
        let frame = &ctx.frames[1].call;
        assert_eq!(frame.entry_point_type, EntryPointType::Constructor);
        assert_eq!(frame.entry_point_selector, selector_from_name("constructor"));
        assert_eq!(frame.storage_address, deployed);
        assert_eq!(frame.caller_address, address(1));
        let outcome = if failing {
            BackendOutcome::Reverted { reason: vec![felt(1)], remaining_gas: 9_000, resources: work(1) }
        } else {
            returned(vec![], 9_000)
        };
        complete_entry_point_call(outcome, &vec![], &mut state, &mut resources, &mut ctx, &mut gas);
        if failing {
            assert_eq!(state.read_class_hash(deployed), ClassHash(Felt::zero()));
            assert_eq!(ctx.frames[0].pending, Some(CallStatus::Reverted));
        } else {
            assert_eq!(state.read_class_hash(deployed), class_hash);
            assert_eq!(ctx.frames[0].pending, None);
            // the address is taken now
            assert_eq!(
                deploy(&mut state, &mut ctx, &mut gas, class_hash, felt(5), vec![felt(8)], false),
                Err(SyscallFailure::AddressUnavailable)
            );
        }
    }
}

#[test]
fn a_deployment_from_zero_ignores_the_deployer() {
    let mut state = world(Backend::Native);
    let mut ctx = context();
    expect_run(enter(&mut state, &mut ctx, call(1, 100, vec![], 10_000)));
    let mut gas = 10_000u64;
    let class_hash = ClassHash(felt(1002));
    let started = deploy(&mut state, &mut ctx, &mut gas, class_hash, felt(5), vec![], true).unwrap();
    match started {
        DeployStart::Run { address: deployed, .. } => assert_eq!(
            deployed,
            calculate_contract_address(felt(5), class_hash, &vec![], ContractAddress::zero())
        ),
        other => panic!("not admitted: {:?}", other),
    }
}

#[test]
fn a_class_without_constructor_is_deployed_at_once() {
    let mut state = world(Backend::Native);
    let plain = ClassHash(felt(3000));
    state.declare_class(plain, class(Backend::Native, 3, &[(100, 1)], None)).unwrap();
    let mut ctx = context();
    expect_run(enter(&mut state, &mut ctx, call(1, 100, vec![], 10_000)));
    let mut gas = 10_000u64;
    assert_eq!(
        deploy(&mut state, &mut ctx, &mut gas, plain, felt(1), vec![felt(1)], false),
        Err(SyscallFailure::UnexpectedConstructorCalldata)
    );
    let started = deploy(&mut state, &mut ctx, &mut gas, plain, felt(1), vec![], false).unwrap();
    let deployed = calculate_contract_address(felt(1), plain, &vec![], address(1));
    assert_eq!(
        started,
        DeployStart::Completed {
            address: deployed,
            response: CallResponse { retdata: vec![], failed: false },
        }
    );
    assert_eq!(state.read_class_hash(deployed), plain);
    assert_eq!(ctx.depth(), 1);
    assert_eq!(ctx.frames[0].inner_calls.len(), 1);
    assert_eq!(ctx.frames[0].inner_calls[0].status, CallStatus::Success);
    assert_eq!(ctx.frames[0].pending, None);
    assert_eq!(
        deploy(&mut state, &mut ctx, &mut gas, ClassHash(felt(3001)), felt(1), vec![], false),
        Err(SyscallFailure::ClassNotDeclared(ClassHash(felt(3001))))
    );
}

#[test]
fn a_contract_can_move_to_a_declared_class() {
    let mut state = world(Backend::Native);
    let mut ctx = context();
    let mut resources = ExecutionResources::zero();
    let mut gas = 1000u64;
    assert_eq!(
        replace_class(&mut state, &mut ctx, &mut gas, ClassHash(felt(1002))),
        Err(SyscallFailure::NoActiveCall)
    );
    expect_run(enter(&mut state, &mut ctx, call(1, 100, vec![], 1000)));
    assert_eq!(
        replace_class(&mut state, &mut ctx, &mut gas, ClassHash(felt(404))),
        Err(SyscallFailure::ClassNotDeclared(ClassHash(felt(404))))
    );
    assert_eq!(state.read_class_hash(address(1)), ClassHash(felt(1001)));
    assert_eq!(replace_class(&mut state, &mut ctx, &mut gas, ClassHash(felt(1002))), Ok(()));
    assert_eq!(gas, 1000 - 120);
    assert_eq!(state.read_class_hash(address(1)), ClassHash(felt(1002)));
    assert_eq!(state.read_class_hash(address(2)), ClassHash(felt(1002)));
    let mut budget = 1000u64;
    let trapped = BackendOutcome::Trapped { remaining_gas: gas, resources: work(1) };
    complete_entry_point_call(trapped, &vec![], &mut state, &mut resources, &mut ctx, &mut budget);
    assert_eq!(state.read_class_hash(address(1)), ClassHash(felt(1001)));
}

#[test]
fn trace_identifiers_are_scoped() {
    let mut state = world(Backend::Native);
    let mut ctx = context();
    let mut resources = ExecutionResources::zero();
    ctx.current_trace_id = 40;
    ctx.next_trace_id = u64::MAX;
    let first = expect_run(enter(&mut state, &mut ctx, call(1, 100, vec![], 10_000)));
    assert_eq!(first.trace_id, u64::MAX);
    assert_eq!(ctx.current_trace_id, u64::MAX);
    assert_eq!(ctx.next_trace_id, 0);
    let mut gas = 10_000u64;
    match call_contract(&mut state, &mut ctx, &mut gas, address(2), selector(200), vec![], true).unwrap() {
        CallStart::Run(invocation) => assert_eq!(invocation.trace_id, 0),
        other => panic!("not admitted: {:?}", other),
    }
    assert_eq!(ctx.current_trace_id, 0);
    let trapped = BackendOutcome::Trapped { remaining_gas: 0, resources: work(1) };
    complete_entry_point_call(trapped, &vec![], &mut state, &mut resources, &mut ctx, &mut gas);
    assert_eq!(ctx.current_trace_id, u64::MAX);
    let mut budget = 0u64;
    complete_entry_point_call(returned(vec![], 0), &vec![], &mut state, &mut resources, &mut ctx, &mut budget);
    assert_eq!(ctx.current_trace_id, 40);
    assert_eq!(ctx.next_trace_id, 1);
}

#[test]
fn counters_of_work_do_not_wrap() {
    let a = ExecutionResources { n_steps: u64::MAX - 1, n_memory_holes: 5, n_builtin_instances: 0 };
    let b = ExecutionResources { n_steps: 7, n_memory_holes: 6, n_builtin_instances: u64::MAX };
    assert_eq!(
        a.merge(&b),
        ExecutionResources { n_steps: u64::MAX, n_memory_holes: 11, n_builtin_instances: u64::MAX }
    );
    assert_eq!(a.merge(&ExecutionResources::zero()), a);
}
