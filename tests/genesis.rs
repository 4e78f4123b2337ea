use genesis_txs::construct::{
    init_established_account, init_validator, sign_txs, GenesisValidatorData,
};
use genesis_txs::crypto::{verify_signature, PublicKey, SecretKey, Signature};
use genesis_txs::ledger::TokenBalancesForValidation;
use genesis_txs::signing::{
    resolves_signer, sign_delegation_bond_tx, sign_tx, sign_validator_account_tx, ValidatorWallet,
    Wallet,
};
use genesis_txs::threshold::{verify_threshold, VerifySigError};
use genesis_txs::txs::{
    default_threshold, Amount, BondTx, Dec, DenominatedAmount, DenominationError,
    EstablishedAccountTx, EstablishedAddress, GenesisAddress, NetAddress, SignedBondTx,
    Transactions, UnsignedTransactions,
};
use genesis_txs::validation::{
    validate, validate_established_account, validate_signature, validate_validator_account,
    DenominatedBalances,
    EstablishedAccounts, Parameters, TokenBalances, ValidityPredicates,
};
use sha2::Digest;

fn sk(b: u8) -> SecretKey {
    SecretKey { bytes: vec![b; 32] }
}

fn vps() -> ValidityPredicates {
    ValidityPredicates { wasm: vec!["vp_user".to_string(), "vp_validator".to_string()] }
}

fn params() -> Parameters {
    Parameters { native_token: "nam".to_string() }
}

fn validator_wallet() -> ValidatorWallet {
    ValidatorWallet {
        consensus_key: sk(11),
        protocol_key: sk(12),
        tendermint_node_key: sk(13),
        eth_hot_key: sk(14),
        eth_cold_key: sk(15),
    }
}

fn account(vp: &str, threshold: u8, keys: Vec<PublicKey>) -> EstablishedAccountTx {
    EstablishedAccountTx { vp: vp.to_string(), threshold, public_keys: keys }
}

fn validator_data(address: EstablishedAddress, bond: u128) -> GenesisValidatorData {
    GenesisValidatorData {
        address,
        commission_rate: Dec { raw: 50_000_000_000 },
        max_commission_rate_change: Dec { raw: 10_000_000_000 },
        net_address: NetAddress { ip: vec![127, 0, 0, 1], port: 26656 },
        self_bond_amount: DenominatedAmount { amount: bond, denom: 0 },
        email: "validator@example.com".to_string(),
        description: Some("a validator".to_string()),
        website: None,
        discord_handle: None,
    }
}

fn balances_of(owner: GenesisAddress, raw: u128) -> DenominatedBalances {
    DenominatedBalances {
        token: vec![TokenBalances {
            token: "nam".to_string(),
            amounts: vec![(owner, Amount { raw })],
        }],
    }
}

/// One account with one key, one validator on it and one self-bond of
/// `bond` whole tokens, all signed.
fn signed_batch(bond: u128) -> (EstablishedAddress, Transactions<SignedBondTx<DenominatedAmount>>) {
    let owner = sk(1);
    let pk = owner.ref_to();
    let (address, txs) = init_established_account("vp_user".to_string(), vec![pk], 1);
    let (validator_address, validator_txs) =
        init_validator(validator_data(address.clone(), bond), &validator_wallet());
    assert_eq!(validator_address, address);
    let unsigned = UnsignedTransactions {
        established_account: txs.established_account,
        validator_account: validator_txs.validator_account,
        bond: validator_txs.bond,
    };
    let wallet = Wallet { keys: vec![owner] };
    let signed = sign_txs(unsigned, &wallet, Some(&validator_wallet()));
    (address, signed)
}

#[test]
fn end_to_end_valid_batch() {
    let (address, signed) = signed_batch(100);
    let balances = balances_of(GenesisAddress::EstablishedAddress(address.clone()), 1_000_000_000);
    let validated = validate(signed, Some(&vps()), Some(&balances), Some(&params())).unwrap();
    assert!(validated.has_at_least_one_validator());
    let bonds = validated.bond.as_ref().unwrap();
    assert_eq!(bonds.len(), 1);
    assert_eq!(bonds[0].amount, Amount { raw: 100_000_000 });
    assert_eq!(bonds[0].validator, address);
}

#[test]
fn end_to_end_bond_exceeds_balance() {
    let (address, signed) = signed_batch(100);
    let balances = balances_of(GenesisAddress::EstablishedAddress(address), 99_999_999);
    assert!(validate(signed, Some(&vps()), Some(&balances), Some(&params())).is_none());
}

#[test]
fn end_to_end_validator_without_account() {
    let owner = sk(1);
    let pk = owner.ref_to();
    let (address, txs) = init_established_account("vp_user".to_string(), vec![pk], 1);
    let missing = EstablishedAddress { hash: vec![9; 20] };
    let (_, validator_txs) = init_validator(validator_data(missing.clone(), 0), &validator_wallet());
    let bond = BondTx {
        source: GenesisAddress::EstablishedAddress(address.clone()),
        validator: missing,
        amount: DenominatedAmount { amount: 100, denom: 0 },
    };
    let unsigned = UnsignedTransactions {
        established_account: txs.established_account,
        validator_account: validator_txs.validator_account,
        bond: Some(vec![bond]),
    };
    let wallet = Wallet { keys: vec![owner] };
    let signed = sign_txs(unsigned, &wallet, Some(&validator_wallet()));
    let balances = balances_of(GenesisAddress::EstablishedAddress(address), 1_000_000_000);
    assert!(validate(signed, Some(&vps()), Some(&balances), Some(&params())).is_none());
}

#[test]
fn bonds_without_parameters_are_rejected() {
    let (address, signed) = signed_batch(100);
    let balances = balances_of(GenesisAddress::EstablishedAddress(address), 1_000_000_000);
    assert!(validate(signed, Some(&vps()), Some(&balances), None).is_none());
}

#[test]
fn unknown_vp_is_rejected() {
    let (address, signed) = signed_batch(100);
    let balances = balances_of(GenesisAddress::EstablishedAddress(address), 1_000_000_000);
    let only_other = ValidityPredicates { wasm: vec!["vp_other".to_string()] };
    assert!(validate(signed, Some(&only_other), Some(&balances), Some(&params())).is_none());
}

#[test]
fn tampered_validator_is_rejected() {
    let (address, mut signed) = signed_batch(100);
    signed.validator_account.as_mut().unwrap()[0].commission_rate = Dec { raw: 1 };
    let balances = balances_of(GenesisAddress::EstablishedAddress(address), 1_000_000_000);
    assert!(validate(signed, Some(&vps()), Some(&balances), Some(&params())).is_none());
}

#[test]
fn empty_batch_is_valid() {
    let txs: Transactions<SignedBondTx<DenominatedAmount>> = Transactions::default();
    let validated = validate(txs, None, None, None).unwrap();
    assert!(!validated.has_at_least_one_validator());
    assert!(validated.bond.is_none());
}

#[test]
fn account_threshold_bounds() {
    let keys: Vec<PublicKey> = (1..=3u8).map(|b| sk(b).ref_to()).collect();
    for (threshold, n, expected) in [(1u8, 1usize, true), (3, 3, true), (2, 3, true), (0, 3, false), (4, 3, false)] {
        let tx = account("vp_user", threshold, keys[..n].to_vec());
        let mut used = Vec::new();
        let mut registry = EstablishedAccounts { entries: Vec::new() };
        assert_eq!(
            validate_established_account(&tx, Some(&vps()), &mut used, &mut registry),
            expected,
            "threshold {threshold} of {n}"
        );
        assert_eq!(registry.entries.len(), 1);
        assert_eq!(used.len(), 1);
    }
}

#[test]
fn account_with_too_many_keys() {
    let keys: Vec<PublicKey> = (0..256u32).map(|i| PublicKey { bytes: vec![(i % 256) as u8, (i / 256) as u8] }).collect();
    let tx = account("vp_user", 1, keys.clone());
    let mut used = Vec::new();
    let mut registry = EstablishedAccounts { entries: Vec::new() };
    assert!(!validate_established_account(&tx, Some(&vps()), &mut used, &mut registry));
    let tx = account("vp_user", 1, keys[..255].to_vec());
    assert!(validate_established_account(&tx, Some(&vps()), &mut used, &mut registry));
}

#[test]
fn account_without_keys_or_vp() {
    let mut used = Vec::new();
    let mut registry = EstablishedAccounts { entries: Vec::new() };
    assert!(!validate_established_account(&account("vp_user", 0, vec![]), Some(&vps()), &mut used, &mut registry));
    let tx = account("vp_user", 1, vec![sk(1).ref_to()]);
    assert!(!validate_established_account(&tx, None, &mut used, &mut registry));
}

#[test]
fn duplicate_account_is_rejected() {
    let tx = account("vp_user", 1, vec![sk(1).ref_to()]);
    let mut used = Vec::new();
    let mut registry = EstablishedAccounts { entries: Vec::new() };
    assert!(validate_established_account(&tx, Some(&vps()), &mut used, &mut registry));
    assert!(!validate_established_account(&tx, Some(&vps()), &mut used, &mut registry));
    assert_eq!(used.len(), 1);
    assert_eq!(registry.entries.len(), 2);
}

#[test]
fn address_is_deterministic() {
    let a = account("vp_user", 1, vec![sk(1).ref_to()]);
    let b = account("vp_user", 1, vec![sk(1).ref_to()]);
    let c = account("vp_user", 1, vec![sk(2).ref_to()]);
    let d = account("vp_other", 1, vec![sk(1).ref_to()]);
    assert_eq!(a.derive_address(), b.derive_address());
    assert_ne!(a.derive_address(), c.derive_address());
    assert_ne!(a.derive_address(), d.derive_address());
    assert_eq!(a.derive_address().hash.len(), 20);
}

#[test]
fn address_is_truncated_salted_digest() {
    let tx = account("vp_user", 1, vec![sk(1).ref_to()]);
    let mut data = b"established-account-tx".to_vec();
    data.extend_from_slice(&tx.payload());
    let digest = sha2::Sha256::digest(&data);
    assert_eq!(tx.derive_address().hash, digest[..20].to_vec());
    assert_ne!(tx.derive_address().hash, data[..20].to_vec());
}

#[test]
fn account_payload_bytes() {
    let tx = account("ab", 1, vec![PublicKey { bytes: vec![7, 7] }]);
    assert_eq!(
        tx.payload(),
        vec![2, 0, 0, 0, 0, 0, 0, 0, b'a', b'b', 1, 1, 0, 0, 0, 0, 0, 0, 0, 2, 0, 0, 0, 0, 0, 0, 0, 7, 7]
    );
}

#[test]
fn threshold_counts_each_key_once() {
    let msg = b"payload".to_vec();
    let keys: Vec<SecretKey> = (1..=3u8).map(sk).collect();
    let pks: Vec<PublicKey> = keys.iter().map(|k| k.ref_to()).collect();
    let s1 = keys[0].sign(&msg);
    let s2 = keys[1].sign(&msg);
    assert_eq!(
        verify_threshold(&msg, &vec![s1.clone(), s1.clone(), s1.clone()], &pks, 2),
        Err(VerifySigError::ThresholdNotMet(2, 1))
    );
    assert_eq!(verify_threshold(&msg, &vec![s1.clone(), s2.clone()], &pks, 2), Ok(()));
    assert_eq!(verify_threshold(&msg, &vec![s2.clone(), s1.clone()], &pks, 2), Ok(()));
    let reversed: Vec<PublicKey> = pks.iter().rev().cloned().collect();
    assert_eq!(verify_threshold(&msg, &vec![s2.clone(), s1.clone()], &reversed, 2), Ok(()));
    assert_eq!(
        verify_threshold(&msg, &vec![s2, s1], &pks, 3),
        Err(VerifySigError::ThresholdNotMet(3, 2))
    );
    assert_eq!(verify_threshold(&msg, &vec![], &pks, 0), Ok(()));
}

#[test]
fn threshold_refuses_too_many_keys() {
    let msg = b"payload".to_vec();
    let pks: Vec<PublicKey> = (0..256u32).map(|i| PublicKey { bytes: vec![i as u8] }).collect();
    assert_eq!(verify_threshold(&msg, &vec![], &pks, 1), Err(VerifySigError::TooManyKeys));
}

#[test]
fn signatures_verify_and_reject() {
    let key = sk(3);
    let pk = key.ref_to();
    let msg = b"hello".to_vec();
    let sig = key.sign(&msg);
    assert_eq!(sig.bytes.len(), 64);
    assert!(verify_signature(&pk, &msg, &sig));
    assert!(!verify_signature(&pk, b"hellp", &sig));
    assert!(!verify_signature(&sk(4).ref_to(), &msg, &sig));
    assert!(!verify_signature(&PublicKey { bytes: vec![1, 2, 3] }, &msg, &sig));
    assert!(!verify_signature(&pk, &msg, &Signature { bytes: vec![0; 10] }));
    let expected = ed25519_consensus::SigningKey::from([3u8; 32]).verification_key().to_bytes();
    assert_eq!(pk.bytes, expected.to_vec());
    let standalone = sign_tx(&msg, &key);
    assert!(validate_signature(&msg, &pk, &standalone));
    assert!(!verify_signature(&pk, &msg, &standalone));
}

#[test]
fn tampered_bond_loses_its_signature() {
    let owner = sk(5);
    let bond = BondTx {
        source: GenesisAddress::PublicKey(owner.ref_to()),
        validator: EstablishedAddress { hash: vec![1; 20] },
        amount: DenominatedAmount { amount: 10, denom: 0 },
    };
    let wallet = Wallet { keys: vec![owner.clone()] };
    let mut signed = sign_delegation_bond_tx(bond, &wallet, &None);
    assert_eq!(signed.signatures.len(), 1);
    let pks = vec![owner.ref_to()];
    assert_eq!(signed.verify_sig(&pks, 1), Ok(()));
    signed.data.amount = DenominatedAmount { amount: 11, denom: 0 };
    assert_eq!(signed.verify_sig(&pks, 1), Err(VerifySigError::ThresholdNotMet(1, 0)));
}

#[test]
fn signing_unknown_source_fails() {
    let bond = BondTx {
        source: GenesisAddress::PublicKey(sk(6).ref_to()),
        validator: EstablishedAddress { hash: vec![1; 20] },
        amount: DenominatedAmount { amount: 10, denom: 0 },
    };
    let wallet = Wallet { keys: vec![sk(7)] };
    assert!(!resolves_signer(&bond.source, &wallet, &None));
    let known = GenesisAddress::PublicKey(sk(7).ref_to());
    assert!(resolves_signer(&known, &wallet, &None));
    let established = BondTx {
        source: GenesisAddress::EstablishedAddress(EstablishedAddress { hash: vec![3; 20] }),
        validator: EstablishedAddress { hash: vec![1; 20] },
        amount: DenominatedAmount { amount: 10, denom: 0 },
    };
    assert!(!resolves_signer(&established.source, &wallet, &Some(vec![])));
    assert!(!resolves_signer(&established.source, &wallet, &None));
    let acct = account("vp_user", 1, vec![sk(7).ref_to()]);
    let declared = GenesisAddress::EstablishedAddress(acct.derive_address());
    assert!(resolves_signer(&declared, &wallet, &Some(vec![acct])));
}

#[test]
fn multisig_bond_collects_held_keys() {
    let keys: Vec<SecretKey> = (21..=23u8).map(sk).collect();
    let pks: Vec<PublicKey> = keys.iter().map(|k| k.ref_to()).collect();
    let acct = account("vp_user", 2, pks.clone());
    let address = acct.derive_address();
    let bond = BondTx {
        source: GenesisAddress::EstablishedAddress(address),
        validator: EstablishedAddress { hash: vec![1; 20] },
        amount: DenominatedAmount { amount: 10, denom: 0 },
    };
    let wallet = Wallet { keys: vec![keys[2].clone(), keys[0].clone()] };
    let signed = sign_delegation_bond_tx(bond, &wallet, &Some(vec![acct]));
    assert_eq!(signed.signatures.len(), 2);
    assert_eq!(signed.verify_sig(&pks, 2), Ok(()));
    assert_eq!(signed.verify_sig(&pks, 3), Err(VerifySigError::ThresholdNotMet(3, 2)));
}

#[test]
fn repeated_key_counts_once() {
    let msg = b"payload".to_vec();
    let key = sk(1);
    let pk = key.ref_to();
    let sig = key.sign(&msg);
    let pks = vec![pk.clone(), pk.clone()];
    assert_eq!(
        verify_threshold(&msg, &vec![sig.clone(), sig.clone()], &pks, 2),
        Err(VerifySigError::ThresholdNotMet(2, 1))
    );
    assert_eq!(verify_threshold(&msg, &vec![sig], &pks, 1), Ok(()));
}

#[test]
fn validator_txs_without_keys_keep_no_bond() {
    let (_, validator_txs) =
        init_validator(validator_data(EstablishedAddress { hash: vec![5; 20] }, 0), &validator_wallet());
    assert!(validator_txs.bond.is_none());
    assert_eq!(validator_txs.validator_account.as_ref().unwrap().len(), 1);
}

#[test]
fn snapshot_owner_uniqueness() {
    let a = GenesisAddress::PublicKey(PublicKey { bytes: vec![1] });
    let b = GenesisAddress::PublicKey(PublicKey { bytes: vec![2] });
    let unique = DenominatedBalances {
        token: vec![TokenBalances {
            token: "nam".to_string(),
            amounts: vec![(a.clone(), Amount { raw: 1 }), (b, Amount { raw: 2 })],
        }],
    };
    assert!(unique.has_unique_owners());
    let twice = DenominatedBalances {
        token: vec![TokenBalances {
            token: "nam".to_string(),
            amounts: vec![(a.clone(), Amount { raw: 1 }), (a, Amount { raw: 2 })],
        }],
    };
    assert!(!twice.has_unique_owners());
}

#[test]
fn denomination() {
    assert_eq!(DenominatedAmount { amount: 5, denom: 2 }.increase_precision(), Ok(Amount { raw: 50_000 }));
    assert_eq!(DenominatedAmount { amount: 5, denom: 6 }.increase_precision(), Ok(Amount { raw: 5 }));
    assert_eq!(
        DenominatedAmount { amount: 5, denom: 7 }.increase_precision(),
        Err(DenominationError::PrecisionDecrease)
    );
    assert_eq!(
        DenominatedAmount { amount: u128::MAX, denom: 0 }.increase_precision(),
        Err(DenominationError::Overflow)
    );
    let bond = BondTx {
        source: GenesisAddress::PublicKey(PublicKey { bytes: vec![1] }),
        validator: EstablishedAddress { hash: vec![2; 20] },
        amount: DenominatedAmount { amount: 3, denom: 0 },
    };
    assert_eq!(bond.denominate().unwrap().amount, Amount { raw: 3_000_000 });
}

#[test]
fn ledger_debits_and_removes() {
    let a = GenesisAddress::PublicKey(PublicKey { bytes: vec![1] });
    let b = GenesisAddress::PublicKey(PublicKey { bytes: vec![2] });
    let mut ledger = TokenBalancesForValidation {
        amounts: vec![(a.clone(), Amount { raw: 100 }), (b.clone(), Amount { raw: 40 })],
    };
    ledger.debit(&a, Amount { raw: 30 });
    assert_eq!(ledger.get(&a), Some(Amount { raw: 70 }));
    ledger.debit(&b, Amount { raw: 40 });
    assert_eq!(ledger.get(&b), None);
    assert_eq!(ledger.amounts.len(), 1);
    ledger.debit(&a, Amount { raw: 70 });
    assert!(ledger.amounts.is_empty());
}

/// An account that is a validator, and two bonds of 3 and 4 tokens to it
/// from the bare key `sk(31)`, signed.
fn two_bonds_batch() -> Transactions<SignedBondTx<DenominatedAmount>> {
    let owner = sk(31);
    let src = GenesisAddress::PublicKey(owner.ref_to());
    let acct_key = sk(32);
    let (address, txs) = init_established_account("vp_user".to_string(), vec![acct_key.ref_to()], 1);
    let (_, validator_txs) = init_validator(validator_data(address.clone(), 0), &validator_wallet());
    let bonds: Vec<BondTx<DenominatedAmount>> = [3u128, 4]
        .iter()
        .map(|a| BondTx {
            source: src.clone(),
            validator: address.clone(),
            amount: DenominatedAmount { amount: *a, denom: 0 },
        })
        .collect();
    let unsigned = UnsignedTransactions {
        established_account: txs.established_account,
        validator_account: validator_txs.validator_account,
        bond: Some(bonds),
    };
    let wallet = Wallet { keys: vec![owner, acct_key] };
    sign_txs(unsigned, &wallet, Some(&validator_wallet()))
}

#[test]
fn balance_conservation_over_bonds() {
    let src = GenesisAddress::PublicKey(sk(31).ref_to());
    let exact = balances_of(src.clone(), 7_000_000);
    let validated = validate(two_bonds_batch(), Some(&vps()), Some(&exact), Some(&params())).unwrap();
    let total: u128 = validated.bond.as_ref().unwrap().iter().map(|b| b.amount.raw).sum();
    assert_eq!(total, 7_000_000);
    let short = balances_of(src, 6_999_999);
    assert!(validate(two_bonds_batch(), Some(&vps()), Some(&short), Some(&params())).is_none());
}

#[test]
fn voting_power_is_floor_of_stake() {
    let v1 = EstablishedAddress { hash: vec![1; 20] };
    let v2 = EstablishedAddress { hash: vec![2; 20] };
    let bond = |v: &EstablishedAddress, raw: u128| BondTx {
        source: GenesisAddress::PublicKey(PublicKey { bytes: vec![9] }),
        validator: v.clone(),
        amount: Amount { raw },
    };
    let votes = Dec { raw: 1_000_000 };
    let low = Transactions {
        established_account: None,
        validator_account: None,
        bond: Some(vec![bond(&v1, 300_000), bond(&v2, 100_000), bond(&v1, 200_000)]),
    };
    assert!(!low.has_validator_with_positive_voting_power(votes));
    let high = Transactions {
        established_account: None,
        validator_account: None,
        bond: Some(vec![bond(&v1, 600_000), bond(&v2, 100_000), bond(&v1, 400_000)]),
    };
    assert!(high.has_validator_with_positive_voting_power(votes));
    assert!(!high.has_validator_with_positive_voting_power(Dec { raw: 0 }));
    let none: Transactions<BondTx<Amount>> = Transactions::default();
    assert!(!none.has_validator_with_positive_voting_power(votes));
    let huge = Transactions {
        established_account: None,
        validator_account: None,
        bond: Some(vec![bond(&v1, u128::MAX), bond(&v1, u128::MAX)]),
    };
    assert!(huge.has_validator_with_positive_voting_power(Dec { raw: 1 }));
}

#[test]
fn merge_concatenates_lists() {
    let mut a: Transactions<BondTx<Amount>> = Transactions::default();
    a.established_account = Some(vec![account("vp_user", 1, vec![])]);
    let mut b: Transactions<BondTx<Amount>> = Transactions::default();
    b.established_account = Some(vec![account("vp_other", 1, vec![])]);
    b.bond = Some(vec![]);
    a.merge(b);
    let accounts = a.established_account.as_ref().unwrap();
    assert_eq!(accounts.len(), 2);
    assert_eq!(accounts[0].vp, "vp_user");
    assert_eq!(accounts[1].vp, "vp_other");
    assert_eq!(a.bond, Some(vec![]));
    assert!(a.validator_account.is_none());
}

#[test]
fn default_threshold_is_one() {
    assert_eq!(default_threshold(), 1);
}

#[test]
fn validator_authorizations_are_checked_per_key() {
    let (address, txs) = init_established_account("vp_user".to_string(), vec![sk(1).ref_to()], 1);
    let declared = vec![address.clone()];
    let (_, unsigned) = init_validator(validator_data(address.clone(), 0), &validator_wallet());
    let unsigned_tx = unsigned.validator_account.unwrap().remove(0);
    let signed = sign_validator_account_tx(unsigned_tx, &validator_wallet());
    let payload = signed.unsigned_payload();
    assert!(validate_signature(&payload, &signed.consensus_key.pk, &signed.consensus_key.authorization));
    assert!(validate_signature(&payload, &signed.eth_cold_key.pk, &signed.eth_cold_key.authorization));
    let mut seen = Vec::new();
    assert!(validate_validator_account(&signed, Some(&vps()), &declared, &mut seen));
    assert_eq!(seen.len(), 1);
    assert!(!validate_validator_account(&signed, Some(&vps()), &declared, &mut seen));
    assert_eq!(seen.len(), 1);
    let mut swapped = sign_validator_account_tx(signed.to_unsigned(), &validator_wallet());
    std::mem::swap(&mut swapped.protocol_key.authorization, &mut swapped.eth_hot_key.authorization);
    let mut fresh = Vec::new();
    assert!(!validate_validator_account(&swapped, Some(&vps()), &declared, &mut fresh));
    assert!(!validate_validator_account(&signed, Some(&vps()), &vec![], &mut Vec::new()));
    assert!(txs.established_account.is_some());
}

#[test]
fn later_declaration_replaces_earlier() {
    let mut registry = EstablishedAccounts { entries: Vec::new() };
    let a = EstablishedAddress { hash: vec![1; 20] };
    registry.insert(a.clone(), vec![sk(1).ref_to()], 1);
    registry.insert(EstablishedAddress { hash: vec![2; 20] }, vec![], 1);
    registry.insert(a.clone(), vec![sk(2).ref_to(), sk(3).ref_to()], 2);
    let (keys, threshold) = registry.get(&a).unwrap();
    assert_eq!(keys.len(), 2);
    assert_eq!(threshold, 2);
    assert!(registry.get(&EstablishedAddress { hash: vec![3; 20] }).is_none());
}

#[test]
fn wallet_finds_keys_by_public_key() {
    let wallet = Wallet { keys: vec![sk(41), sk(42)] };
    assert_eq!(wallet.find_key_by_pk(&sk(42).ref_to()), Some(sk(42)));
    assert_eq!(wallet.find_key_by_pk(&sk(43).ref_to()), None);
}
