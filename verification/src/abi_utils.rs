//! Names and addresses: selectors of entry points, keys of storage variables,
//! and the address that a deployment gets.

use vstd::prelude::*;
use vstd::string::*;
use crate::felt::{address_bound, be_value, prime, Felt};
use crate::hash::{
    pedersen_fold, pedersen_hash_array, spec_pedersen_array, spec_pedersen_fold,
    spec_starknet_keccak, starknet_keccak,
};
use crate::types::{ClassHash, ContractAddress, EntryPointSelector, PatriciaKey, StorageKey};

verus! {

/// The field element that a short text spells: its bytes read as one number.
pub open spec fn spec_short_string(bytes: Seq<u8>) -> Felt {
    Felt::spec_from_value(be_value(bytes) % prime())
}

/// The field element that a short text spells.
pub fn short_string(text: &str) -> (r: Felt)
    ensures
        r == spec_short_string(text.spec_bytes()),
{
    let f = Felt::from_bytes_be_slice(text.as_bytes());
    proof {
        Felt::lemma_spec_from_value(f);
    }
    f
}

/// The selector of the entry point with the given name.
pub open spec fn spec_selector_from_name(name: Seq<u8>) -> EntryPointSelector {
    EntryPointSelector(spec_starknet_keccak(name))
}

/// The selector of the entry point with the given name: the truncated Keccak of the name.
pub fn selector_from_name(entry_point_name: &str) -> (r: EntryPointSelector)
    ensures
        r == spec_selector_from_name(entry_point_name.spec_bytes()),
{
    EntryPointSelector(starknet_keccak(entry_point_name.as_bytes()))
}

/// The element below 2^251 - 256 that `f` reduces to, as a key.
pub open spec fn spec_reduced_key(f: Felt) -> PatriciaKey {
    PatriciaKey::spec_from_felt(Felt::spec_from_value(f.value() % address_bound()))
}

/// Reduces `f` modulo 2^251 - 256 and hands it back as a key.
fn reduced_key(f: Felt) -> (r: PatriciaKey)
    ensures
        r == spec_reduced_key(f),
        r.felt().value() == f.value() % address_bound(),
{
    let reduced = f.mod_address_bound();
    proof {
        Felt::lemma_spec_from_value(reduced);
    }
    match PatriciaKey::try_from_felt(reduced) {
        Some(k) => k,
        None => PatriciaKey::from_u128(0),
    }
}

/// The key of a storage variable: the Keccak of its name, chained with its
/// arguments by the Pedersen hash, and reduced modulo 2^251 - 256.
pub open spec fn spec_storage_var_address(name: Seq<u8>, args: Seq<Felt>) -> StorageKey {
    StorageKey(spec_reduced_key(spec_pedersen_fold(spec_starknet_keccak(name), args)))
}

/// The key of the storage variable `storage_var_name` with the arguments `args`.
pub fn get_storage_var_address(storage_var_name: &str, args: &Vec<Felt>) -> (r: StorageKey)
    ensures
        r == spec_storage_var_address(storage_var_name.spec_bytes(), args@),
        r.0.felt().value() < address_bound(),
{
    let name_hash = starknet_keccak(storage_var_name.as_bytes());
    let chained = pedersen_fold(name_hash, args);
    StorageKey(reduced_key(chained))
}

/// The key under which a token contract keeps the lower half of an account's balance.
pub open spec fn spec_fee_token_var_address(account: ContractAddress) -> StorageKey {
    spec_storage_var_address("ERC20_balances".spec_bytes(), seq![account.0.felt()])
}

/// The key under which a token contract keeps the upper half of an account's
/// balance: the one that follows the key of the lower half.
pub open spec fn spec_fee_token_var_address_high(account: ContractAddress) -> StorageKey {
    StorageKey(
        PatriciaKey::spec_from_felt(
            Felt::spec_from_value(spec_fee_token_var_address(account).0.felt().value() + 1),
        ),
    )
}

/// The key under which a token contract keeps the lower half of an account's
/// balance; the upper half is kept under the key that follows.
pub fn get_fee_token_var_address(account_address: ContractAddress) -> (r: StorageKey)
    ensures
        r == spec_fee_token_var_address(account_address),
        r.0.felt().value() < address_bound(),
{
    let mut args: Vec<Felt> = Vec::new();
    args.push(account_address.0.key());
    proof {
        assert(args@ =~= seq![account_address.0.felt()]);
    }
    get_storage_var_address("ERC20_balances", &args)
}

/// The address that a deployment gets: the Pedersen hash of a fixed prefix, the
/// deployer, the salt, the class hash and the hash of the constructor's
/// arguments, reduced modulo 2^251 - 256.
pub open spec fn spec_contract_address(
    salt: Felt,
    class_hash: ClassHash,
    constructor_calldata: Seq<Felt>,
    deployer_address: ContractAddress,
) -> ContractAddress {
    ContractAddress(
        spec_reduced_key(
            spec_pedersen_array(
                seq![
                    spec_short_string("STARKNET_CONTRACT_ADDRESS".spec_bytes()),
                    deployer_address.0.felt(),
                    salt,
                    class_hash.0,
                    spec_pedersen_array(constructor_calldata),
                ],
            ),
        ),
    )
}

/// The address that a deployment of `class_hash` by `deployer_address` gets.
pub fn calculate_contract_address(
    salt: Felt,
    class_hash: ClassHash,
    constructor_calldata: &Vec<Felt>,
    deployer_address: ContractAddress,
) -> (r: ContractAddress)
    ensures
        r == spec_contract_address(salt, class_hash, constructor_calldata@, deployer_address),
        r.0.felt().value() < address_bound(),
{
    let calldata_hash = pedersen_hash_array(constructor_calldata);
    let mut parts: Vec<Felt> = Vec::new();
    parts.push(short_string("STARKNET_CONTRACT_ADDRESS"));
    parts.push(deployer_address.0.key());
    parts.push(salt);
    parts.push(class_hash.0);
    parts.push(calldata_hash);
    proof {
        assert(parts@ =~= seq![
            spec_short_string("STARKNET_CONTRACT_ADDRESS".spec_bytes()),
            deployer_address.0.felt(),
            salt,
            class_hash.0,
            spec_pedersen_array(constructor_calldata@),
        ]);
    }
    let hash = pedersen_hash_array(&parts);
    ContractAddress(reduced_key(hash))
}

} // verus!
