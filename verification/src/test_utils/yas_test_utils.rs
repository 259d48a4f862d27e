//! The set-up of a liquidity-pool scenario: an account, four classes, five
//! deployments, and the calls that drive them.

use vstd::prelude::*;
use vstd::string::*;
use crate::abi_utils::{
    calculate_contract_address, selector_from_name, short_string, spec_contract_address,
    spec_fee_token_var_address, spec_fee_token_var_address_high, spec_selector_from_name,
    spec_short_string,
};
use crate::execution::call_info::{CallEntryPoint, CallType, ExecutionResources};
use crate::execution::contract_class::{
    Backend, ContractClass, ContractClassV1, ContractClassView, EntryPointTable,
    NativeContractClassV1,
};
use crate::execution::entry_point::{Dispatch, EntryPointExecutionContext};
use crate::execution::entry_point_execution::{execute_entry_point_call, spec_dispatched};
use crate::execution::syscalls::{
    execute_deployment, spec_constructor_descriptor, spec_deployment, SyscallFailure,
};
use crate::felt::{
    be_value, lemma_be_value_bound, lemma_be_value_concat, lemma_pow256_values, pow256, pow2_251,
    prime, Felt,
};
use crate::state::cached_state::{CachedState, CachedStateView};
use crate::state::errors::StateError;
use crate::state::state_api::{StateKey, StateReader};
use crate::test_utils::dict_state_reader::DictStateReader;
use crate::types::{ClassHash, ContractAddress, EntryPointType, Nonce};

verus! {

/// The address of the account that declares, deploys and invokes.
pub const ACCOUNT_ADDRESS: u32 = 4321;

/// The address of the owner of the tokens.
pub const OWNER_ADDRESS: u32 = 4321;

/// The step between the class hashes of the scenario.
pub const CLASS_HASH_BASE: u32 = 0x1_0000;

/// The bit that marks the class hashes of the scenario.
pub const CAIRO1_BIT: u32 = 0x8000_0000;

/// The initial supply of each token.
pub const INITIAL_SUPPLY: u128 = 0x9876_dace_9d90_0000_0000;

/// The number under which a contract of the scenario is known, by its name.
pub open spec fn spec_integer_base(name: Seq<u8>) -> Option<u32> {
    if name == "YasCustomAccount".spec_bytes() {
        Some((CLASS_HASH_BASE + CAIRO1_BIT) as u32)
    } else if name == "ERC20".spec_bytes() {
        Some((5 * CLASS_HASH_BASE + CAIRO1_BIT) as u32)
    } else if name == "YASFactory".spec_bytes() {
        Some((2 * CLASS_HASH_BASE + CAIRO1_BIT) as u32)
    } else if name == "YASPool".spec_bytes() {
        Some((3 * CLASS_HASH_BASE + CAIRO1_BIT) as u32)
    } else if name == "YASRouter".spec_bytes() {
        Some((4 * CLASS_HASH_BASE + CAIRO1_BIT) as u32)
    } else {
        None
    }
}

/// Whether two byte strings are the same.
fn same_bytes(a: &[u8], b: &[u8]) -> (r: bool)
    ensures
        r == (a@ == b@),
{
    if a.len() != b.len() {
        return false;
    }
    let mut i: usize = 0;
    while i < a.len()
        invariant
            i <= a@.len(),
            a@.len() == b@.len(),
            forall|j: int| 0 <= j < i ==> a@[j] == b@[j],
        decreases a@.len() - i,
    {
        if a[i] != b[i] {
            return false;
        }
        i += 1;
    }
    proof {
        assert(a@ =~= b@);
    }
    true
}

/// Whether `contract` is the name `name`.
fn is_named(contract: &str, name: &str) -> (r: bool)
    ensures
        r == (contract.spec_bytes() == name.spec_bytes()),
{
    same_bytes(contract.as_bytes(), name.as_bytes())
}

/// The number under which a contract of the scenario is known. The name must
/// be one of the five names of the scenario.
pub fn integer_base(contract: &str) -> (r: u32)
    requires
        spec_integer_base(contract.spec_bytes()) is Some,
    ensures
        Some(r) == spec_integer_base(contract.spec_bytes()),
{
    let base: u32 = if is_named(contract, "YasCustomAccount") {
        CLASS_HASH_BASE
    } else if is_named(contract, "ERC20") {
        5 * CLASS_HASH_BASE
    } else if is_named(contract, "YASFactory") {
        2 * CLASS_HASH_BASE
    } else if is_named(contract, "YASPool") {
        3 * CLASS_HASH_BASE
    } else {
        4 * CLASS_HASH_BASE
    };
    base + CAIRO1_BIT
}

/// The class hash of a contract of the scenario, by its name.
pub open spec fn spec_class_hash(name: Seq<u8>) -> ClassHash {
    ClassHash(Felt::spec_from_value(spec_integer_base(name)->Some_0 as nat))
}

/// The class hash of a contract of the scenario. The name must be one of the
/// five names of the scenario.
pub fn get_class_hash(contract: &str) -> (r: ClassHash)
    requires
        spec_integer_base(contract.spec_bytes()) is Some,
    ensures
        r == spec_class_hash(contract.spec_bytes()),
        r.0.value() == spec_integer_base(contract.spec_bytes())->Some_0,
{
    ClassHash(Felt::from_u32(integer_base(contract)))
}

/// The file that holds the class of the contract `name`, in the directory of
/// the scenario. Each representation of a class has a file of its own.
pub fn contract_path(name: &str, cairo_native: bool) -> (r: String)
    ensures
        r@ == "bench/yas/"@ + name@ + if cairo_native {
            ".sierra.json"@
        } else {
            ".json"@
        },
{
    let path = String::from_str("bench/yas/").concat(name);
    if cairo_native {
        path.concat(".sierra.json")
    } else {
        path.concat(".json")
    }
}

/// The class of a contract whose entry points and artifact were read from
/// disk, in the representation asked for.
pub fn load_contract(entry_points: EntryPointTable, artifact: u64, cairo_native: bool) -> (r:
    ContractClass)
    ensures
        r@ == (ContractClassView {
            backend: if cairo_native {
                Backend::Native
            } else {
                Backend::Interpreted
            },
            entry_points: entry_points@,
            artifact,
        }),
{
    if cairo_native {
        ContractClass::V1Native(NativeContractClassV1 { entry_points, artifact })
    } else {
        ContractClass::V1(ContractClassV1 { entry_points, artifact })
    }
}

/// The account of the scenario.
pub open spec fn spec_account() -> ContractAddress {
    ContractAddress::spec_from_u128(ACCOUNT_ADDRESS as u128)
}

/// 2^136: the weight of seventeen bytes.
pub open spec fn pow2_136() -> nat {
    0x100_0000_0000_0000_0000_0000_0000_0000_0000nat
}

/// The balance that the two halves kept by a token contract stand for: of each
/// half the lowest seventeen bytes count, the upper half first, and the whole
/// is taken as a field element.
pub open spec fn spec_balance(low: Felt, high: Felt) -> nat {
    ((high.value() % pow2_136()) * pow2_136() + low.value() % pow2_136()) % prime()
}

/// The bytes of `v` from position `from` on.
fn tail_bytes(v: &Vec<u8>, from: usize) -> (r: Vec<u8>)
    requires
        from <= v@.len(),
    ensures
        r@ == v@.subrange(from as int, v@.len() as int),
{
    let mut out: Vec<u8> = Vec::new();
    let mut i: usize = from;
    while i < v.len()
        invariant
            from <= i <= v@.len(),
            out@ == v@.subrange(from as int, i as int),
        decreases v@.len() - i,
    {
        out.push(v[i]);
        proof {
            assert(v@.subrange(from as int, i as int).push(v@[i as int]) =~= v@.subrange(
                from as int,
                i + 1,
            ));
        }
        i += 1;
    }
    out
}

/// The lowest seventeen bytes of 32 spell the number modulo 2^136.
proof fn lemma_low_seventeen_bytes(bytes: Seq<u8>)
    requires
        bytes.len() == 32,
    ensures
        be_value(bytes.subrange(15, 32)) == be_value(bytes) % pow2_136(),
{
    let head = bytes.subrange(0, 15);
    let tail = bytes.subrange(15, 32);
    assert(bytes =~= head + tail);
    lemma_be_value_concat(head, tail);
    lemma_be_value_bound(tail);
    lemma_pow256_values();
    assert(pow256(17) == pow2_136());
    let q = be_value(head) as int;
    let d = pow2_136() as int;
    assert(be_value(bytes) == q * d + be_value(tail)) by (nonlinear_arith)
        requires
            be_value(bytes) == be_value(head) * pow256(17) + be_value(tail),
            pow256(17) == d,
            q == be_value(head),
    ;
    vstd::arithmetic::div_mod::lemma_fundamental_div_mod_converse(
        be_value(bytes) as int,
        d,
        q,
        be_value(tail) as int,
    );
}

/// The balance of the owner in the token contract at `token_address`. An
/// address that is not below 2^251 is out of range, and nothing is read.
pub fn get_balance<S: StateReader>(state: &mut CachedState<S>, token_address: Felt) -> (r: Result<
    Felt,
    StateError,
>)
    ensures
        match r {
            Ok(balance) => {
                let owner = ContractAddress::spec_from_u128(OWNER_ADDRESS as u128);
                let token = ContractAddress(crate::types::PatriciaKey::spec_from_felt(token_address));
                &&& token_address.value() < pow2_251()
                &&& balance.value() == spec_balance(
                    old(state)@.storage_at(token, spec_fee_token_var_address(owner)),
                    old(state)@.storage_at(token, spec_fee_token_var_address_high(owner)),
                )
                &&& final(state)@ == old(state)@.with_read(
                    StateKey::Storage(
                        (crate::types::StorageEntry {
                            address: token,
                            key: spec_fee_token_var_address(owner),
                        }),
                    ),
                ).with_read(
                    StateKey::Storage(
                        (crate::types::StorageEntry {
                            address: token,
                            key: spec_fee_token_var_address_high(owner),
                        }),
                    ),
                )
            },
            Err(e) => {
                &&& e == StateError::OutOfRange
                &&& token_address.value() >= pow2_251()
                &&& final(state)@ == old(state)@
            },
        },
{
    let token = match ContractAddress::try_from_felt(token_address) {
        Some(a) => a,
        None => {
            return Err(StateError::OutOfRange);
        },
    };
    let owner = ContractAddress::from_u128(OWNER_ADDRESS as u128);
    let (low, high) = state.read_balance(owner, token);
    let low_bytes = low.to_bytes_be();
    let high_bytes = high.to_bytes_be();
    let mut joined = tail_bytes(&high_bytes, 15);
    let mut low_tail = tail_bytes(&low_bytes, 15);
    proof {
        lemma_low_seventeen_bytes(low_bytes@);
        lemma_low_seventeen_bytes(high_bytes@);
        lemma_be_value_concat(joined@, low_tail@);
        lemma_pow256_values();
        assert(pow256(17) == pow2_136());
        assert(be_value(joined@ + low_tail@) == (high.value() % pow2_136()) * pow2_136()
            + low.value() % pow2_136()) by (nonlinear_arith)
            requires
                be_value(joined@ + low_tail@) == be_value(joined@) * pow256(17) + be_value(
                    low_tail@,
                ),
                pow256(17) == pow2_136(),
                be_value(joined@) == high.value() % pow2_136(),
                be_value(low_tail@) == low.value() % pow2_136(),
        ;
    }
    joined.append(&mut low_tail);
    Ok(Felt::from_bytes_be_slice(joined.as_slice()))
}

/// A cache over a backing store that holds the account of the scenario: its
/// class, the binding of its address, and the nonce one.
pub fn create_state(account_class: ContractClass) -> (r: CachedState<DictStateReader>)
    ensures
        r@.backing.class(spec_class_hash("YasCustomAccount".spec_bytes())) == Some(account_class@),
        r@.backing.class_hash(spec_account()) == spec_class_hash("YasCustomAccount".spec_bytes()),
        r@.backing.nonce(spec_account()) == Nonce(Felt::spec_from_value(1)),
        r@.backing.storage_view@ == Map::<crate::types::StorageEntry, Felt>::empty(),
        r@.backing.address_to_nonce@.dom() == set![spec_account()],
        r@.backing.address_to_class_hash@.dom() == set![spec_account()],
        r@.backing.class_hash_to_class@.dom() == set![
            spec_class_hash("YasCustomAccount".spec_bytes()),
        ],
        r@.writes == seq![Map::<StateKey, Felt>::empty()],
        r@.diff() == Map::<StateKey, Felt>::empty(),
        r@.reads == Map::<StateKey, Felt>::empty(),
        r@.declared == Map::<ClassHash, ContractClassView>::empty(),
        r@.class_reads == Map::<ClassHash, ContractClassView>::empty(),
        r@.visited_pcs == Map::<ClassHash, Set<usize>>::empty(),
{
    let class_hash = get_class_hash("YasCustomAccount");
    let account = ContractAddress::from_u128(ACCOUNT_ADDRESS as u128);
    let mut reader = DictStateReader::new();
    reader.address_to_class_hash.insert(account, class_hash);
    reader.class_hash_to_class.insert(class_hash, account_class);
    reader.address_to_nonce.insert(account, Nonce(Felt::from_u64(1)));
    proof {
        assert(reader.address_to_nonce@.dom() =~= set![spec_account()]);
        assert(reader.address_to_class_hash@.dom() =~= set![spec_account()]);
        assert(reader.class_hash_to_class@.dom() =~= set![
            spec_class_hash("YasCustomAccount".spec_bytes()),
        ]);
    }
    CachedState::new(reader)
}

/// What the declaration of a class by the account does: the account's nonce is
/// read and advanced by one, and the class is declared. An account whose nonce
/// cannot advance and a hash that already names a class stop the declaration
/// before anything is written.
pub open spec fn spec_declare<S: StateReader>(
    state: CachedStateView<S>,
    class_hash: ClassHash,
    class: ContractClassView,
) -> (Option<StateError>, CachedStateView<S>) {
    let nonce = state.nonce_at(spec_account());
    let read = state.with_read(StateKey::Nonce(spec_account()));
    if nonce.0.value() + 1 == prime() {
        (Some(StateError::OutOfRange), read)
    } else if state.class_of(class_hash) is Some {
        (Some(StateError::ClassAlreadyDeclared(class_hash)), read)
    } else {
        (
            None,
            read.with_declared(class_hash, class).with_write(
                StateKey::Nonce(spec_account()),
                Felt::spec_from_value(nonce.0.value() + 1),
            ),
        )
    }
}

/// Declares `contract_class` under the class hash of the contract named
/// `contract_name`, in the name of the account. The name must be one of the
/// five names of the scenario.
pub fn declare_contract<S: StateReader>(
    state: &mut CachedState<S>,
    contract_name: &str,
    contract_class: ContractClass,
) -> (r: Result<ClassHash, StateError>)
    requires
        spec_integer_base(contract_name.spec_bytes()) is Some,
    ensures
        final(state)@ == spec_declare(
            old(state)@,
            spec_class_hash(contract_name.spec_bytes()),
            contract_class@,
        ).1,
        match spec_declare(
            old(state)@,
            spec_class_hash(contract_name.spec_bytes()),
            contract_class@,
        ).0 {
            Some(e) => r == Err::<ClassHash, StateError>(e),
            None => {
                &&& r == Ok::<ClassHash, StateError>(spec_class_hash(contract_name.spec_bytes()))
                &&& final(state)@.class_of(spec_class_hash(contract_name.spec_bytes())) == Some(
                    contract_class@,
                )
            },
        },
{
    let sender = ContractAddress::from_u128(ACCOUNT_ADDRESS as u128);
    let class_hash = get_class_hash(contract_name);
    let nonce = state.read_nonce(sender);
    let next = match nonce.try_increment() {
        Some(n) => n,
        None => {
            return Err(StateError::OutOfRange);
        },
    };
    match state.declare_class(class_hash, contract_class) {
        Ok(_) => {},
        Err(e) => {
            return Err(e);
        },
    }
    proof {
        Felt::lemma_spec_from_value(next.0);
    }
    state.write(StateKey::Nonce(sender), next.0);
    Ok(class_hash)
}

/// The four classes of the scenario besides the account.
pub struct YasClasses {
    pub erc20: ContractClass,
    pub yas_factory: ContractClass,
    pub yas_router: ContractClass,
    pub yas_pool: ContractClass,
}

/// What the four declarations do, one after the other; the first that fails
/// ends them.
pub open spec fn spec_declare_all<S: StateReader>(
    state: CachedStateView<S>,
    classes: YasClasses,
) -> (Option<StateError>, CachedStateView<S>) {
    let first = spec_declare(state, spec_class_hash("ERC20".spec_bytes()), classes.erc20@);
    if first.0 is Some {
        first
    } else {
        let second = spec_declare(
            first.1,
            spec_class_hash("YASFactory".spec_bytes()),
            classes.yas_factory@,
        );
        if second.0 is Some {
            second
        } else {
            let third = spec_declare(
                second.1,
                spec_class_hash("YASRouter".spec_bytes()),
                classes.yas_router@,
            );
            if third.0 is Some {
                third
            } else {
                spec_declare(third.1, spec_class_hash("YASPool".spec_bytes()), classes.yas_pool@)
            }
        }
    }
}

/// Declares the token, the factory, the router and the pool, in this order, and
/// hands back their class hashes in the same order.
pub fn declare_all_contracts(state: &mut CachedState<DictStateReader>, classes: YasClasses) -> (r:
    Result<(ClassHash, ClassHash, ClassHash, ClassHash), StateError>)
    ensures
        final(state)@ == spec_declare_all(old(state)@, classes).1,
        match spec_declare_all(old(state)@, classes).0 {
            Some(e) => r == Err::<(ClassHash, ClassHash, ClassHash, ClassHash), StateError>(e),
            None => r == Ok::<(ClassHash, ClassHash, ClassHash, ClassHash), StateError>(
                (
                    spec_class_hash("ERC20".spec_bytes()),
                    spec_class_hash("YASFactory".spec_bytes()),
                    spec_class_hash("YASRouter".spec_bytes()),
                    spec_class_hash("YASPool".spec_bytes()),
                ),
            ),
        },
{
    let YasClasses { erc20, yas_factory, yas_router, yas_pool } = classes;
    let erc20_class_hash = match declare_contract(state, "ERC20", erc20) {
        Ok(h) => h,
        Err(e) => {
            return Err(e);
        },
    };
    let yas_factory_class_hash = match declare_contract(state, "YASFactory", yas_factory) {
        Ok(h) => h,
        Err(e) => {
            return Err(e);
        },
    };
    let yas_router_class_hash = match declare_contract(state, "YASRouter", yas_router) {
        Ok(h) => h,
        Err(e) => {
            return Err(e);
        },
    };
    let yas_pool_class_hash = match declare_contract(state, "YASPool", yas_pool) {
        Ok(h) => h,
        Err(e) => {
            return Err(e);
        },
    };
    Ok((erc20_class_hash, yas_factory_class_hash, yas_router_class_hash, yas_pool_class_hash))
}

/// The budget of the calls of the scenario: the largest there is.
pub const SCENARIO_GAS: u64 = u64::MAX;

/// Deploys the class `class_hash` in the name of nobody, with the account's
/// nonce as the salt, and starts the constructor with `calldata`. The result
/// is the address and the dispatcher's answer for the constructor call.
pub fn tx_deploy_contract<S: StateReader>(
    state: &mut CachedState<S>,
    context: &mut EntryPointExecutionContext,
    calldata: Vec<Felt>,
    class_hash: ClassHash,
) -> (r: Result<(Felt, Dispatch), SyscallFailure>)
    ensures
        ({
            let salt = old(state)@.nonce_at(spec_account()).0;
            let address = spec_contract_address(
                salt,
                class_hash,
                calldata@,
                ContractAddress::spec_zero(),
            );
            let call = spec_constructor_descriptor(
                class_hash,
                address,
                ContractAddress::spec_zero(),
                calldata,
                SCENARIO_GAS,
            );
            let read = old(state)@.with_read(StateKey::Nonce(spec_account()));
            match r {
                Ok((deployed, dispatch)) => {
                    &&& deployed == address.0.felt()
                    &&& spec_deployment(
                        Ok::<Dispatch, SyscallFailure>(dispatch),
                        call,
                        class_hash,
                        false,
                        read,
                        final(state)@,
                        *old(context),
                        *final(context),
                    )
                },
                Err(e) => spec_deployment(
                    Err::<Dispatch, SyscallFailure>(e),
                    call,
                    class_hash,
                    false,
                    read,
                    final(state)@,
                    *old(context),
                    *final(context),
                ),
            }
        }),
{
    let account = ContractAddress::from_u128(ACCOUNT_ADDRESS as u128);
    let salt = state.read_nonce(account).0;
    let deployer = ContractAddress::zero();
    let address = calculate_contract_address(salt, class_hash, &calldata, deployer);
    match execute_deployment(
        state,
        context,
        class_hash,
        address,
        deployer,
        calldata,
        SCENARIO_GAS,
        false,
    ) {
        Ok(dispatch) => Ok((address.0.key(), dispatch)),
        Err(e) => Err(e),
    }
}

/// Where the deployments of the scenario stand.
#[derive(Clone, Copy, Debug, PartialEq, Eq, Structural)]
pub enum DeployStage {
    Token0,
    Token1,
    Factory,
    Router,
    Pool,
    Finished,
}

/// The deployments of the scenario so far: the stage, and the addresses of the
/// contracts deployed before it.
#[derive(Clone, Copy, Debug, PartialEq, Eq, Structural)]
pub struct DeployProgress {
    pub stage: DeployStage,
    pub yas0_token: Felt,
    pub yas1_token: Felt,
    pub factory: Felt,
    pub router: Felt,
    pub pool: Felt,
}

/// What the deployments of the scenario ask for next.
#[derive(Debug, PartialEq, Eq)]
pub enum DeployAction {
    /// Deploy this class with these constructor arguments, then record the address.
    Deploy { calldata: Vec<Felt>, class_hash: ClassHash },
    /// All are deployed: the two tokens, the router and the pool.
    Finished { yas0_token: Felt, yas1_token: Felt, router: Felt, pool: Felt },
}

/// The constructor arguments of a token: name, symbol, the two halves of the
/// initial supply, and the owner.
pub open spec fn spec_token_calldata(name: Seq<u8>, symbol: Seq<u8>) -> Seq<Felt> {
    seq![
        spec_short_string(name),
        spec_short_string(symbol),
        Felt::spec_from_value(0),
        Felt::spec_from_value(INITIAL_SUPPLY as nat),
        Felt::spec_from_value(OWNER_ADDRESS as nat),
    ]
}

/// The constructor arguments of the pool: the factory, the two tokens, the fee,
/// the tick spacing, and zero.
pub open spec fn spec_pool_calldata(factory: Felt, token0: Felt, token1: Felt) -> Seq<Felt> {
    seq![
        factory,
        token0,
        token1,
        Felt::spec_from_value(0x0bb8),
        Felt::spec_from_value(0x3c),
        Felt::spec_from_value(0),
    ]
}

/// The constructor arguments of a token.
fn token_calldata(name: &str, symbol: &str) -> (r: Vec<Felt>)
    ensures
        r@ == spec_token_calldata(name.spec_bytes(), symbol.spec_bytes()),
{
    let mut calldata: Vec<Felt> = Vec::new();
    calldata.push(short_string(name));
    calldata.push(short_string(symbol));
    calldata.push(Felt::from_u128(0));
    calldata.push(Felt::from_u128(INITIAL_SUPPLY));
    calldata.push(Felt::from_u32(OWNER_ADDRESS));
    proof {
        assert(calldata@ =~= spec_token_calldata(name.spec_bytes(), symbol.spec_bytes()));
    }
    calldata
}

impl DeployProgress {
    /// Nothing is deployed yet.
    pub fn new() -> (r: DeployProgress)
        ensures
            r.stage == DeployStage::Token0,
            r.yas0_token == Felt::spec_zero(),
            r.yas1_token == Felt::spec_zero(),
            r.factory == Felt::spec_zero(),
            r.router == Felt::spec_zero(),
            r.pool == Felt::spec_zero(),
    {
        DeployProgress {
            stage: DeployStage::Token0,
            yas0_token: Felt::zero(),
            yas1_token: Felt::zero(),
            factory: Felt::zero(),
            router: Felt::zero(),
            pool: Felt::zero(),
        }
    }

    /// The progress after the deployment of the current stage landed at `address`.
    pub open spec fn spec_record(self, address: Felt) -> DeployProgress {
        match self.stage {
            DeployStage::Token0 => DeployProgress {
                stage: DeployStage::Token1,
                yas0_token: address,
                ..self
            },
            DeployStage::Token1 => DeployProgress {
                stage: DeployStage::Factory,
                yas1_token: address,
                ..self
            },
            DeployStage::Factory => DeployProgress {
                stage: DeployStage::Router,
                factory: address,
                ..self
            },
            DeployStage::Router => DeployProgress {
                stage: DeployStage::Pool,
                router: address,
                ..self
            },
            DeployStage::Pool => DeployProgress {
                stage: DeployStage::Finished,
                pool: address,
                ..self
            },
            DeployStage::Finished => self,
        }
    }

    /// Records that the deployment of the current stage landed at `address`, and
    /// moves on to the next stage.
    pub fn record(&mut self, address: Felt)
        ensures
            *final(self) == old(self).spec_record(address),
    {
        match self.stage {
            DeployStage::Token0 => {
                self.yas0_token = address;
                self.stage = DeployStage::Token1;
            },
            DeployStage::Token1 => {
                self.yas1_token = address;
                self.stage = DeployStage::Factory;
            },
            DeployStage::Factory => {
                self.factory = address;
                self.stage = DeployStage::Router;
            },
            DeployStage::Router => {
                self.router = address;
                self.stage = DeployStage::Pool;
            },
            DeployStage::Pool => {
                self.pool = address;
                self.stage = DeployStage::Finished;
            },
            DeployStage::Finished => {},
        }
    }
}

/// The next deployment of the scenario: two tokens, the factory, the router,
/// and the pool of the two tokens under the factory; then the addresses of the
/// tokens, the router and the pool.
pub fn deploy_all_contracts(
    progress: &DeployProgress,
    erc20_class_hash: ClassHash,
    yas_factory_class_hash: ClassHash,
    yas_router_class_hash: ClassHash,
    yas_pool_class_hash: ClassHash,
) -> (r: DeployAction)
    ensures
        match progress.stage {
            DeployStage::Token0 => {
                &&& r matches DeployAction::Deploy { calldata, class_hash }
                &&& class_hash == erc20_class_hash
                &&& calldata@ == spec_token_calldata("TYAS0".spec_bytes(), "$YAS0".spec_bytes())
            },
            DeployStage::Token1 => {
                &&& r matches DeployAction::Deploy { calldata, class_hash }
                &&& class_hash == erc20_class_hash
                &&& calldata@ == spec_token_calldata("TYAS1".spec_bytes(), "$YAS1".spec_bytes())
            },
            DeployStage::Factory => {
                &&& r matches DeployAction::Deploy { calldata, class_hash }
                &&& class_hash == yas_factory_class_hash
                &&& calldata@ == seq![
                    Felt::spec_from_value(OWNER_ADDRESS as nat),
                    yas_pool_class_hash.0,
                ]
            },
            DeployStage::Router => {
                &&& r matches DeployAction::Deploy { calldata, class_hash }
                &&& class_hash == yas_router_class_hash
                &&& calldata@.len() == 0
            },
            DeployStage::Pool => {
                &&& r matches DeployAction::Deploy { calldata, class_hash }
                &&& class_hash == yas_pool_class_hash
                &&& calldata@ == spec_pool_calldata(
                    progress.factory,
                    progress.yas0_token,
                    progress.yas1_token,
                )
            },
            DeployStage::Finished => {
                &&& r matches DeployAction::Finished { yas0_token, yas1_token, router, pool }
                &&& yas0_token == progress.yas0_token
                &&& yas1_token == progress.yas1_token
                &&& router == progress.router
                &&& pool == progress.pool
            },
        },
{
    match progress.stage {
        DeployStage::Token0 => DeployAction::Deploy {
            calldata: token_calldata("TYAS0", "$YAS0"),
            class_hash: erc20_class_hash,
        },
        DeployStage::Token1 => DeployAction::Deploy {
            calldata: token_calldata("TYAS1", "$YAS1"),
            class_hash: erc20_class_hash,
        },
        DeployStage::Factory => {
            let mut calldata: Vec<Felt> = Vec::new();
            calldata.push(Felt::from_u32(OWNER_ADDRESS));
            calldata.push(yas_pool_class_hash.0);
            proof {
                assert(calldata@ =~= seq![
                    Felt::spec_from_value(OWNER_ADDRESS as nat),
                    yas_pool_class_hash.0,
                ]);
            }
            DeployAction::Deploy { calldata, class_hash: yas_factory_class_hash }
        },
        DeployStage::Router => DeployAction::Deploy {
            calldata: Vec::new(),
            class_hash: yas_router_class_hash,
        },
        DeployStage::Pool => {
            let mut calldata: Vec<Felt> = Vec::new();
            calldata.push(progress.factory);
            calldata.push(progress.yas0_token);
            calldata.push(progress.yas1_token);
            calldata.push(Felt::from_u32(0x0bb8));
            calldata.push(Felt::from_u32(0x3c));
            calldata.push(Felt::from_u32(0));
            proof {
                assert(calldata@ =~= spec_pool_calldata(
                    progress.factory,
                    progress.yas0_token,
                    progress.yas1_token,
                ));
            }
            DeployAction::Deploy { calldata, class_hash: yas_pool_class_hash }
        },
        DeployStage::Finished => DeployAction::Finished {
            yas0_token: progress.yas0_token,
            yas1_token: progress.yas1_token,
            router: progress.router,
            pool: progress.pool,
        },
    }
}

/// The descriptor of a call that the account makes to the entry point `name` of
/// the contract at `address`, whose class is `class_hash`.
pub open spec fn spec_invocation(
    name: Seq<u8>,
    class_hash: ClassHash,
    address: ContractAddress,
    calldata: Vec<Felt>,
) -> CallEntryPoint {
    CallEntryPoint {
        class_hash: Some(class_hash),
        code_address: Some(address),
        entry_point_type: EntryPointType::External,
        entry_point_selector: spec_selector_from_name(name),
        calldata,
        storage_address: address,
        caller_address: spec_account(),
        call_type: CallType::Call,
        initial_gas: SCENARIO_GAS,
    }
}

/// Starts a call of the account to the entry point `entry_point` of the
/// contract at `contract_address`. An address that is not below 2^251 is out of
/// range; a contract whose class nobody declared cannot be called. Otherwise
/// the dispatcher decides, and the run goes on in `context`.
pub fn invoke_func<S: StateReader>(
    state: &mut CachedState<S>,
    entry_point: &str,
    contract_address: Felt,
    calldata: Vec<Felt>,
    resources: &mut ExecutionResources,
    context: &mut EntryPointExecutionContext,
) -> (r: Result<Dispatch, StateError>)
    ensures
        *final(resources) == *old(resources),
        contract_address.value() >= pow2_251() ==> {
            &&& r matches Err(e)
            &&& e == StateError::OutOfRange
            &&& final(state)@ == old(state)@
            &&& *final(context) == *old(context)
        },
        contract_address.value() < pow2_251() ==> ({
            let address = ContractAddress(crate::types::PatriciaKey::spec_from_felt(contract_address));
            let class_hash = old(state)@.class_hash_at(address);
            let looked_up = old(state)@.with_read(StateKey::ClassHash(address)).with_class_read(
                class_hash,
            );
            match old(state)@.class_of(class_hash) {
                None => {
                    &&& r matches Err(e)
                    &&& e == StateError::ClassNotDeclared(class_hash)
                    &&& final(state)@ == looked_up
                    &&& *final(context) == *old(context)
                },
                Some(class) => {
                    &&& r matches Ok(dispatch)
                    &&& spec_dispatched(
                        dispatch,
                        spec_invocation(entry_point.spec_bytes(), class_hash, address, calldata),
                        class,
                        false,
                        looked_up,
                        final(state)@,
                        *old(context),
                        *final(context),
                    )
                },
            }
        }),
{
    let caller_address = ContractAddress::from_u128(ACCOUNT_ADDRESS as u128);
    let address = match ContractAddress::try_from_felt(contract_address) {
        Some(a) => a,
        None => {
            return Err(StateError::OutOfRange);
        },
    };
    let class_hash = state.read_class_hash(address);
    let contract_class = match state.read_class(class_hash) {
        Ok(c) => c,
        Err(e) => {
            return Err(e);
        },
    };
    let call = CallEntryPoint {
        class_hash: Some(class_hash),
        code_address: Some(address),
        entry_point_type: EntryPointType::External,
        entry_point_selector: selector_from_name(entry_point),
        calldata,
        storage_address: address,
        caller_address,
        call_type: CallType::Call,
        initial_gas: SCENARIO_GAS,
    };
    Ok(execute_entry_point_call(call, contract_class, state, resources, context))
}

} // verus!
