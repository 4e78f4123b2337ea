//! Signing of genesis transactions, and the wallets whose keys sign them.

use vstd::prelude::*;

use crate::crypto::{
    public_key_of, sha256, signature_of, signature_valid, PublicKey, SecretKey, Signature,
};
use crate::threshold::sig_views;
use crate::validation::authorizations_valid;
use crate::txs::{
    account_address, bond_payload, key_views, signed_authorizations, signed_keys,
    signed_validator_payload, signing_digest, unsigned_keys, validator_payload, BondTx,
    DenominatedAmount, EstablishedAccountTx, GenesisAddress, GenesisAddressView, SignedBondTx,
    SignedPk, SignedValidatorAccountTx, UnsignedValidatorAccountTx, ValidatorAccountTx,
};

verus! {

/// The secret keys at hand for signing.
#[derive(Debug, PartialEq, Eq)]
pub struct Wallet {
    pub keys: Vec<SecretKey>,
}

/// The bytes of each secret key of a list.
pub open spec fn secret_views(keys: Seq<SecretKey>) -> Seq<Seq<u8>> {
    keys.map_values(|k: SecretKey| k@)
}

/// The first of `keys` whose public key is `pk`.
pub open spec fn wallet_lookup(keys: Seq<Seq<u8>>, pk: Seq<u8>) -> Option<Seq<u8>>
    decreases keys.len(),
{
    if keys.len() == 0 {
        None
    } else if public_key_of(keys[0]) == pk {
        Some(keys[0])
    } else {
        wallet_lookup(keys.drop_first(), pk)
    }
}

/// Every key is a usable secret key.
pub open spec fn keys_wf(keys: Seq<SecretKey>) -> bool {
    forall|i: int| 0 <= i < keys.len() ==> (#[trigger] keys[i]).wf()
}

impl Wallet {
    /// Every key of the wallet is usable.
    pub open spec fn wf(&self) -> bool {
        keys_wf(self.keys@)
    }

    /// The secret key of `pk`, if the wallet holds it.
    pub fn find_key_by_pk(&self, pk: &PublicKey) -> (r: Option<SecretKey>)
        requires
            self.wf(),
        ensures
            match r {
                Some(sk) => wallet_lookup(secret_views(self.keys@), pk@) == Some(sk@) && sk.wf(),
                None => wallet_lookup(secret_views(self.keys@), pk@) is None,
            },
    {
        let ghost all = secret_views(self.keys@);
        let mut i: usize = 0;
        assert(all.skip(0) =~= all);
        while i < self.keys.len()
            invariant
                self.wf(),
                all == secret_views(self.keys@),
                i <= self.keys@.len(),
                wallet_lookup(all, pk@) == wallet_lookup(all.skip(i as int), pk@),
            decreases self.keys@.len() - i,
        {
            let candidate = self.keys[i].ref_to();
            assert(all.skip(i as int)[0] == self.keys@[i as int]@);
            assert(all.skip(i as int).drop_first() =~= all.skip(i + 1));
            if candidate.same_as(pk) {
                return Some(self.keys[i].clone());
            }
            i = i + 1;
        }
        assert(all.skip(i as int).len() == 0);
        None
    }
}

/// The five secret keys of a validator.
#[derive(Debug, PartialEq, Eq)]
pub struct ValidatorWallet {
    pub consensus_key: SecretKey,
    pub protocol_key: SecretKey,
    pub tendermint_node_key: SecretKey,
    pub eth_hot_key: SecretKey,
    pub eth_cold_key: SecretKey,
}

impl ValidatorWallet {
    /// Every key of the wallet is usable.
    pub open spec fn wf(&self) -> bool {
        &&& self.consensus_key.wf()
        &&& self.protocol_key.wf()
        &&& self.tendermint_node_key.wf()
        &&& self.eth_hot_key.wf()
        &&& self.eth_cold_key.wf()
    }

    /// The five secret keys, in the order of the role keys.
    pub open spec fn role_keys(&self) -> Seq<Seq<u8>> {
        seq![
            self.consensus_key@,
            self.protocol_key@,
            self.tendermint_node_key@,
            self.eth_hot_key@,
            self.eth_cold_key@,
        ]
    }
}

/// Sign a payload with `keypair`: the signature is over the payload's digest.
pub fn sign_tx(tx_data: &[u8], keypair: &SecretKey) -> (r: Signature)
    requires
        keypair.wf(),
    ensures
        r@ == signature_of(keypair@, signing_digest(tx_data@)),
        signature_valid(public_key_of(keypair@), signing_digest(tx_data@), r@),
{
    let digest = sha256(tx_data);
    keypair.sign(digest.as_slice())
}

/// Sign a validator transaction with each of its five role keys.
pub fn sign_validator_account_tx(
    unsigned_tx: UnsignedValidatorAccountTx,
    validator_wallet: &ValidatorWallet,
) -> (r: SignedValidatorAccountTx)
    requires
        validator_wallet.wf(),
    ensures
        r.address@ == unsigned_tx.address@,
        r.vp@ == unsigned_tx.vp@,
        r.commission_rate == unsigned_tx.commission_rate,
        r.max_commission_rate_change == unsigned_tx.max_commission_rate_change,
        r.net_address == unsigned_tx.net_address,
        r.metadata == unsigned_tx.metadata,
        signed_keys(r) == unsigned_keys(unsigned_tx),
        signed_validator_payload(r) == validator_payload(unsigned_tx),
        signed_authorizations(r) == validator_wallet.role_keys().map_values(
            |sk: Seq<u8>| signature_of(sk, signing_digest(validator_payload(unsigned_tx))),
        ),
        forall|k: int|
            0 <= k < 5 ==> signature_valid(
                public_key_of(#[trigger] validator_wallet.role_keys()[k]),
                signing_digest(validator_payload(unsigned_tx)),
                signed_authorizations(r)[k],
            ),
        unsigned_keys(unsigned_tx) == validator_wallet.role_keys().map_values(
            |sk: Seq<u8>| public_key_of(sk),
        ) ==> authorizations_valid(r),
{
    let payload = unsigned_tx.payload();
    let consensus_key_sig = sign_tx(payload.as_slice(), &validator_wallet.consensus_key);
    let protocol_key_sig = sign_tx(payload.as_slice(), &validator_wallet.protocol_key);
    let tendermint_node_key_sig = sign_tx(
        payload.as_slice(),
        &validator_wallet.tendermint_node_key,
    );
    let eth_hot_key_sig = sign_tx(payload.as_slice(), &validator_wallet.eth_hot_key);
    let eth_cold_key_sig = sign_tx(payload.as_slice(), &validator_wallet.eth_cold_key);
    let ghost u = unsigned_tx;
    let ValidatorAccountTx {
        address,
        vp,
        commission_rate,
        max_commission_rate_change,
        net_address,
        consensus_key,
        protocol_key,
        tendermint_node_key,
        eth_hot_key,
        eth_cold_key,
        metadata,
    } = unsigned_tx;
    let r = ValidatorAccountTx {
        address,
        vp,
        commission_rate,
        max_commission_rate_change,
        net_address,
        consensus_key: SignedPk { pk: consensus_key, authorization: consensus_key_sig },
        protocol_key: SignedPk { pk: protocol_key, authorization: protocol_key_sig },
        tendermint_node_key: SignedPk {
            pk: tendermint_node_key,
            authorization: tendermint_node_key_sig,
        },
        eth_hot_key: SignedPk { pk: eth_hot_key, authorization: eth_hot_key_sig },
        eth_cold_key: SignedPk { pk: eth_cold_key, authorization: eth_cold_key_sig },
        metadata,
    };
    assert(signed_keys(r) =~= unsigned_keys(u));
    assert(signed_authorizations(r) =~= validator_wallet.role_keys().map_values(
        |sk: Seq<u8>| signature_of(sk, signing_digest(validator_payload(u))),
    ));
    proof {
        let d = signing_digest(validator_payload(u));
        let rk = validator_wallet.role_keys();
        let au = signed_authorizations(r);
        assert(signature_valid(public_key_of(rk[0]), d, au[0]));
        assert(signature_valid(public_key_of(rk[1]), d, au[1]));
        assert(signature_valid(public_key_of(rk[2]), d, au[2]));
        assert(signature_valid(public_key_of(rk[3]), d, au[3]));
        assert(signature_valid(public_key_of(rk[4]), d, au[4]));
        assert forall|k: int| 0 <= k < 5 implies signature_valid(
            public_key_of(#[trigger] rk[k]),
            d,
            au[k],
        ) by {
            assert(k == 0 || k == 1 || k == 2 || k == 3 || k == 4);
        }
        if unsigned_keys(u) == rk.map_values(|sk: Seq<u8>| public_key_of(sk)) {
            assert forall|k: int| 0 <= k < 5 implies signature_valid(
                #[trigger] signed_keys(r)[k],
                signing_digest(signed_validator_payload(r)),
                au[k],
            ) by {
                assert(signed_keys(r)[k] == unsigned_keys(u)[k]);
                assert(signature_valid(public_key_of(rk[k]), d, au[k]));
            }
        }
    }
    r
}

/// The signatures of the keys `keys` over the bond `b`.
pub open spec fn bond_signatures(keys: Seq<Seq<u8>>, b: BondTx<DenominatedAmount>) -> Seq<Seq<u8>> {
    keys.map_values(|sk: Seq<u8>| signature_of(sk, signing_digest(bond_payload(b))))
}

impl SignedBondTx<DenominatedAmount> {
    /// Sign the bond with each of `keys`, adding the signatures to those
    /// already collected.
    pub fn sign(&mut self, keys: &[SecretKey])
        requires
            keys_wf(keys@),
        ensures
            final(self).data == old(self).data,
            sig_views(final(self).signatures@) == sig_views(old(self).signatures@) + bond_signatures(
                secret_views(keys@),
                old(self).data,
            ),
            forall|i: int|
                0 <= i < keys@.len() ==> signature_valid(
                    public_key_of(#[trigger] keys@[i]@),
                    signing_digest(bond_payload(old(self).data)),
                    sig_views(final(self).signatures@)[old(self).signatures@.len() + i],
                ),
    {
        let payload = self.data.data_to_sign();
        let ghost old_sigs = sig_views(self.signatures@);
        let ghost added = bond_signatures(secret_views(keys@), self.data);
        let mut i: usize = 0;
        while i < keys.len()
            invariant
                keys_wf(keys@),
                self.data == old(self).data,
                payload@ == bond_payload(self.data),
                added == bond_signatures(secret_views(keys@), self.data),
                old_sigs == sig_views(old(self).signatures@),
                i <= keys@.len(),
                sig_views(self.signatures@) == old_sigs + added.take(i as int),
                forall|j: int|
                    0 <= j < i ==> signature_valid(
                        public_key_of(#[trigger] keys@[j]@),
                        signing_digest(bond_payload(self.data)),
                        added[j],
                    ),
            decreases keys@.len() - i,
        {
            let sig = sign_tx(payload.as_slice(), &keys[i]);
            assert(sig@ == added[i as int]);
            assert(added.take(i + 1) =~= added.take(i as int).push(added[i as int]));
            let ghost before = self.signatures@;
            let ghost sv = sig@;
            self.signatures.push(sig);
            assert(self.signatures@ == before.push(sig));
            assert(sig_views(self.signatures@) =~= sig_views(before).push(sv));
            i = i + 1;
            assert(sig_views(self.signatures@) =~= old_sigs + added.take(i as int));
        }
        assert(added.take(i as int) =~= added);
        assert forall|j: int| 0 <= j < keys@.len() implies signature_valid(
            public_key_of(#[trigger] keys@[j]@),
            signing_digest(bond_payload(old(self).data)),
            sig_views(self.signatures@)[old(self).signatures@.len() + j],
        ) by {
            assert(sig_views(self.signatures@)[old(self).signatures@.len() + j] == added[j]);
        }
    }
}

/// The keys declared by the first account of `txs` whose address is `h`.
pub open spec fn declared_keys(txs: Seq<EstablishedAccountTx>, h: Seq<u8>) -> Option<Seq<Seq<u8>>>
    decreases txs.len(),
{
    if txs.len() == 0 {
        None
    } else if account_address(txs[0]) == h {
        Some(key_views(txs[0].public_keys@))
    } else {
        declared_keys(txs.drop_first(), h)
    }
}

/// The secret keys that the wallet holds for `pks`, in order.
pub open spec fn held_keys(wallet: Seq<Seq<u8>>, pks: Seq<Seq<u8>>) -> Seq<Seq<u8>>
    decreases pks.len(),
{
    if pks.len() == 0 {
        Seq::empty()
    } else {
        held_keys(wallet, pks.drop_last()) + match wallet_lookup(wallet, pks.last()) {
            Some(sk) => seq![sk],
            None => Seq::empty(),
        }
    }
}

/// The secret keys that sign for `source`: the wallet's key of a bare key;
/// the wallet's keys of the keys of a declared account. None where the
/// source cannot be resolved.
pub open spec fn signing_keys(
    source: GenesisAddressView,
    wallet: Seq<Seq<u8>>,
    accounts: Option<Seq<EstablishedAccountTx>>,
) -> Option<Seq<Seq<u8>>> {
    match source {
        GenesisAddressView::Implicit(pk) => match wallet_lookup(wallet, pk) {
            Some(sk) => Some(seq![sk]),
            None => None,
        },
        GenesisAddressView::Established(h) => match accounts {
            None => None,
            Some(txs) => match declared_keys(txs, h) {
                Some(pks) => Some(held_keys(wallet, pks)),
                None => None,
            },
        },
    }
}

/// The items of an optional list of accounts.
pub open spec fn accounts_of(o: Option<Vec<EstablishedAccountTx>>) -> Option<Seq<EstablishedAccountTx>> {
    match o {
        Some(v) => Some(v@),
        None => None,
    }
}

/// The secret keys that must sign for `source`, if it can be resolved.
fn resolve_signing_keys(
    source: &GenesisAddress,
    wallet: &Wallet,
    established_accounts: &Option<Vec<EstablishedAccountTx>>,
) -> (r: Option<Vec<SecretKey>>)
    requires
        wallet.wf(),
    ensures
        match r {
            Some(ks) => keys_wf(ks@) && signing_keys(
                source@,
                secret_views(wallet.keys@),
                match established_accounts {
                    Some(v) => Some(v@),
                    None => None,
                },
            ) == Some(secret_views(ks@)),
            None => signing_keys(
                source@,
                secret_views(wallet.keys@),
                match established_accounts {
                    Some(v) => Some(v@),
                    None => None,
                },
            ) is None,
        },
{
    let ghost w = secret_views(wallet.keys@);
    match source {
        GenesisAddress::PublicKey(pk) => {
            match wallet.find_key_by_pk(pk) {
                Some(sk) => {
                    let ghost skv = sk@;
                    let ks = vec![sk];
                    assert(secret_views(ks@) =~= seq![skv]);
                    Some(ks)
                },
                None => None,
            }
        },
        GenesisAddress::EstablishedAddress(address) => {
            match established_accounts {
                None => None,
                Some(txs) => {
                    let mut i: usize = 0;
                    assert(txs@.skip(0) =~= txs@);
                    while i < txs.len()
                        invariant
                            wallet.wf(),
                            w == secret_views(wallet.keys@),
                            *established_accounts == Some(*txs),
                            source@ == GenesisAddressView::Established(address@),
                            i <= txs@.len(),
                            declared_keys(txs@, address@) == declared_keys(
                                txs@.skip(i as int),
                                address@,
                            ),
                        decreases txs@.len() - i,
                    {
                        assert(txs@.skip(i as int)[0] == txs@[i as int]);
                        assert(txs@.skip(i as int).drop_first() =~= txs@.skip(i + 1));
                        let derived = txs[i].derive_address();
                        if derived.same_as(address) {
                            let pks = &txs[i].public_keys;
                            assert(declared_keys(txs@, address@) == Some(key_views(pks@)));
                            let mut ks: Vec<SecretKey> = Vec::new();
                            let mut j: usize = 0;
                            while j < pks.len()
                                invariant
                                    wallet.wf(),
                                    *established_accounts == Some(*txs),
                                    source@ == GenesisAddressView::Established(address@),
                                    declared_keys(txs@, address@) == Some(key_views(pks@)),
                                    w == secret_views(wallet.keys@),
                                    j <= pks@.len(),
                                    keys_wf(ks@),
                                    secret_views(ks@) == held_keys(
                                        w,
                                        key_views(pks@).take(j as int),
                                    ),
                                decreases pks@.len() - j,
                            {
                                let ghost pre = key_views(pks@).take(j as int);
                                assert(key_views(pks@).take(j + 1).drop_last() =~= pre);
                                assert(key_views(pks@).take(j + 1).last() == pks@[j as int]@);
                                match wallet.find_key_by_pk(&pks[j]) {
                                    Some(sk) => {
                                        let ghost before = ks@;
                                        ks.push(sk);
                                        assert(secret_views(ks@) =~= secret_views(before).push(
                                            sk@,
                                        ));
                                        assert(secret_views(ks@) =~= held_keys(
                                            w,
                                            key_views(pks@).take(j + 1),
                                        ));
                                    },
                                    None => {
                                        assert(held_keys(w, key_views(pks@).take(j + 1)) =~= held_keys(w, pre));
                                    },
                                }
                                j = j + 1;
                            }
                            assert(key_views(pks@).take(j as int) =~= key_views(pks@));
                            return Some(ks);
                        }
                        i = i + 1;
                    }
                    None
                },
            }
        },
    }
}

/// Whether the signers of `source` can be resolved: a bare key that the
/// wallet holds, or an account that `established_accounts` declares.
pub fn resolves_signer(
    source: &GenesisAddress,
    wallet: &Wallet,
    established_accounts: &Option<Vec<EstablishedAccountTx>>,
) -> (r: bool)
    requires
        wallet.wf(),
    ensures
        r == signing_keys(source@, secret_views(wallet.keys@), accounts_of(*established_accounts)) is Some,
{
    resolve_signing_keys(source, wallet, established_accounts).is_some()
}

/// Look up the secret keys that must sign for `source`, which resolves.
fn look_up_sk_from(
    source: &GenesisAddress,
    wallet: &Wallet,
    established_accounts: &Option<Vec<EstablishedAccountTx>>,
) -> (r: Vec<SecretKey>)
    requires
        wallet.wf(),
        signing_keys(source@, secret_views(wallet.keys@), accounts_of(*established_accounts)) is Some,
    ensures
        keys_wf(r@),
        signing_keys(source@, secret_views(wallet.keys@), accounts_of(*established_accounts)) == Some(
            secret_views(r@),
        ),
{
    match resolve_signing_keys(source, wallet, established_accounts) {
        Some(ks) => ks,
        None => vstd::pervasive::unreached(),
    }
}

/// Sign a bond with every key of its source that the wallet holds. The
/// source must resolve (see [`resolves_signer`]): without its signers
/// genesis construction cannot go on.
pub fn sign_delegation_bond_tx(
    unsigned_tx: BondTx<DenominatedAmount>,
    wallet: &Wallet,
    established_accounts: &Option<Vec<EstablishedAccountTx>>,
) -> (r: SignedBondTx<DenominatedAmount>)
    requires
        wallet.wf(),
        signing_keys(unsigned_tx.source@, secret_views(wallet.keys@), accounts_of(*established_accounts))
            is Some,
    ensures
        ({
            let ks = signing_keys(
                unsigned_tx.source@,
                secret_views(wallet.keys@),
                accounts_of(*established_accounts),
            ).unwrap();
            &&& r.data == unsigned_tx
            &&& sig_views(r.signatures@) == bond_signatures(ks, unsigned_tx)
            &&& forall|i: int|
                0 <= i < ks.len() ==> signature_valid(
                    public_key_of(#[trigger] ks[i]),
                    signing_digest(bond_payload(unsigned_tx)),
                    sig_views(r.signatures@)[i],
                )
        }),
{
    let source_keys = look_up_sk_from(&unsigned_tx.source, wallet, established_accounts);
    let ghost u = unsigned_tx;
    let mut signed = SignedBondTx { data: unsigned_tx, signatures: Vec::new() };
    signed.sign(source_keys.as_slice());
    assert(sig_views(signed.signatures@) =~= bond_signatures(secret_views(source_keys@), u));
    proof {
        let ks = secret_views(source_keys@);
        assert forall|i: int| 0 <= i < ks.len() implies signature_valid(
            public_key_of(#[trigger] ks[i]),
            signing_digest(bond_payload(u)),
            sig_views(signed.signatures@)[i],
        ) by {
            assert(ks[i] == source_keys@[i]@);
            assert(public_key_of(source_keys@[i]@) == public_key_of(ks[i]));
        }
    }
    signed
}

} // verus!
