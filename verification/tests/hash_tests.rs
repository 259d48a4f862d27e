use blockifier::abi_utils::{
    calculate_contract_address, get_fee_token_var_address, get_storage_var_address,
    selector_from_name, short_string,
};
use blockifier::felt::Felt;
use blockifier::hash::{pedersen_fold, pedersen_hash, pedersen_hash_array, starknet_keccak};
use blockifier::types::{ClassHash, ContractAddress};

fn hex_to_bytes(hex: &str) -> Vec<u8> {
    let digits: Vec<u8> = hex
        .trim_start_matches("0x")
        .bytes()
        .map(|c| match c {
            b'0'..=b'9' => c - b'0',
            b'a'..=b'f' => c - b'a' + 10,
            _ => panic!("not a hex digit"),
        })
        .collect();
    let mut padded = vec![0u8; 64 - digits.len()];
    padded.extend(digits);
    padded.chunks(2).map(|pair| pair[0] * 16 + pair[1]).collect()
}

fn felt(hex: &str) -> Felt {
    Felt::from_bytes_be(&hex_to_bytes(hex)).unwrap()
}

fn to_api(f: &Felt) -> starknet_api::hash::StarkFelt {
    let bytes: [u8; 32] = f.to_bytes_be().try_into().unwrap();
    starknet_api::hash::StarkFelt::new(bytes).unwrap()
}

fn from_api(f: &starknet_api::hash::StarkFelt) -> Felt {
    Felt::from_bytes_be(f.bytes()).unwrap()
}

#[test]
fn pedersen_of_a_known_pair() {
    let x = felt("0x03d937c035c878245caf64531a5756109c53068da139362728feb561405371cb");
    assert_eq!(
        pedersen_hash(&x, &Felt::zero()),
        felt("0x460ded9dacd215bcfc43f1b30b2a02690378e00f82a2283617d47d948c7b7f1")
    );
    assert_ne!(pedersen_hash(&x, &Felt::zero()), x);
    assert_ne!(pedersen_hash(&x, &Felt::zero()), Felt::zero());
}

#[test]
fn pedersen_agrees_with_the_outside_hash() {
    let pairs = [(Felt::zero(), Felt::zero()), (Felt::from_u128(1), Felt::from_u128(2))];
    for (a, b) in pairs {
        let expected = starknet_api::hash::pedersen_hash(&to_api(&a), &to_api(&b));
        assert_eq!(pedersen_hash(&a, &b), from_api(&expected));
    }
}

#[test]
fn pedersen_of_a_sequence_is_the_chain_closed_with_the_length() {
    let elems = vec![Felt::from_u128(10), Felt::from_u128(20), Felt::from_u128(30)];
    let chained = pedersen_hash(
        &pedersen_hash(&pedersen_hash(&Felt::zero(), &elems[0]), &elems[1]),
        &elems[2],
    );
    assert_eq!(pedersen_fold(Felt::zero(), &elems), chained);
    assert_eq!(pedersen_hash_array(&elems), pedersen_hash(&chained, &Felt::from_u128(3)));
    assert_eq!(pedersen_fold(Felt::from_u128(5), &vec![]), Felt::from_u128(5));
    let api_elems: Vec<_> = elems.iter().map(to_api).collect();
    assert_eq!(
        pedersen_hash_array(&elems),
        from_api(&starknet_api::hash::pedersen_hash_array(&api_elems))
    );
    assert_eq!(
        pedersen_hash_array(&vec![]),
        from_api(&starknet_api::hash::pedersen_hash_array(&[]))
    );
}

#[test]
fn keccak_of_a_known_name() {
    assert_eq!(
        starknet_keccak(b"transfer"),
        felt("0x83afd3f4caedc6eebf44246fe54e38c95e3179a5ec9ea81740eca5b482d12e")
    );
    assert_eq!(selector_from_name("transfer").0, starknet_keccak(b"transfer"));
    assert_ne!(selector_from_name("transfer"), selector_from_name("approve"));
}

#[test]
fn keccak_agrees_with_the_outside_hash() {
    let names: [&[u8]; 3] = [b"", b"constructor", b"ERC20_balances"];
    for name in names {
        let expected = cairo_lang_starknet_classes::keccak::starknet_keccak(name).to_bytes_be();
        assert_eq!(starknet_keccak(name), Felt::from_bytes_be_slice(&expected));
    }
}

#[test]
fn short_strings_spell_their_bytes() {
    assert_eq!(short_string("TYAS0"), Felt::from_u128(0x54_5941_5330));
    assert_eq!(short_string("$YAS1"), Felt::from_u128(0x24_5941_5331));
    assert_eq!(short_string(""), Felt::zero());
}

#[test]
fn storage_var_address_is_the_reduced_chain() {
    let account = ContractAddress::from_u128(4321);
    let name_hash = starknet_keccak(b"ERC20_balances");
    let expected = pedersen_hash(&name_hash, &Felt::from_u128(4321)).mod_address_bound();
    assert_eq!(get_fee_token_var_address(account).0.key(), expected);
    assert_eq!(
        get_storage_var_address("ERC20_balances", &vec![Felt::from_u128(4321)]),
        get_fee_token_var_address(account)
    );
    assert_eq!(
        get_storage_var_address("total_supply", &vec![]).0.key(),
        starknet_keccak(b"total_supply").mod_address_bound()
    );
}

#[test]
fn contract_address_agrees_with_the_outside_computation() {
    let salt = Felt::from_u128(5);
    let class_hash = ClassHash(Felt::from_u128(0x8005_0000));
    let calldata = vec![Felt::from_u128(1), Felt::from_u128(2), Felt::from_u128(4321)];
    let deployer = ContractAddress::from_u128(77);
    let ours = calculate_contract_address(salt, class_hash, &calldata, deployer);
    let theirs = starknet_api::core::calculate_contract_address(
        starknet_api::transaction::ContractAddressSalt(to_api(&salt)),
        starknet_api::core::ClassHash(to_api(&class_hash.0)),
        &starknet_api::transaction::Calldata(std::sync::Arc::new(
            calldata.iter().map(to_api).collect(),
        )),
        starknet_api::core::ContractAddress::try_from(to_api(&Felt::from_u128(77))).unwrap(),
    )
    .unwrap();
    assert_eq!(ours.0.key(), from_api(theirs.0.key()));
    let other = calculate_contract_address(Felt::from_u128(6), class_hash, &calldata, deployer);
    assert_ne!(ours, other);
}

#[test]
fn contract_address_of_an_empty_constructor() {
    let class_hash = ClassHash(Felt::from_u128(0x8004_0000));
    let ours =
        calculate_contract_address(Felt::from_u128(5), class_hash, &vec![], ContractAddress::zero());
    let theirs = starknet_api::core::calculate_contract_address(
        starknet_api::transaction::ContractAddressSalt(to_api(&Felt::from_u128(5))),
        starknet_api::core::ClassHash(to_api(&class_hash.0)),
        &starknet_api::transaction::Calldata(std::sync::Arc::new(vec![])),
        starknet_api::core::ContractAddress::default(),
    )
    .unwrap();
    assert_eq!(ours.0.key(), from_api(theirs.0.key()));
}
