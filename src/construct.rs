//! Building the transactions of a genesis batch, and signing a whole batch.

use vstd::prelude::*;

use crate::crypto::{public_key_of, signature_of, signature_valid, PublicKey};
use crate::signing::{
    accounts_of, bond_signatures, secret_views, sign_delegation_bond_tx,
    sign_validator_account_tx, signing_keys, wallet_lookup, ValidatorWallet, Wallet,
};
use crate::threshold::{key_signed, sig_views};
use crate::validation::{authorizations_valid, bond_signed, signer_keys, AccountView};
use crate::txs::{
    account_address, bond_payload, signed_authorizations, signed_keys, signed_validator_payload, signing_digest,
    unsigned_keys, validator_payload, BondTx, Dec, DenominatedAmount, EstablishedAccountTx,
    EstablishedAddress, GenesisAddress, GenesisAddressView, NetAddress, SignedBondTx,
    SignedValidatorAccountTx, Transactions, UnsignedTransactions, UnsignedValidatorAccountTx,
    ValidatorAccountTx, ValidatorMetaData,
};

verus! {

broadcast use vstd::set::group_set_axioms;

/// What a genesis validator declares of itself.
#[derive(Debug, PartialEq, Eq)]
pub struct GenesisValidatorData {
    pub address: EstablishedAddress,
    pub commission_rate: Dec,
    pub max_commission_rate_change: Dec,
    pub net_address: NetAddress,
    pub self_bond_amount: DenominatedAmount,
    pub email: String,
    pub description: Option<String>,
    pub website: Option<String>,
    pub discord_handle: Option<String>,
}

/// A batch that declares one established account, with that account's
/// address.
pub fn init_established_account(vp: String, public_keys: Vec<PublicKey>, threshold: u8) -> (r: (
    EstablishedAddress,
    Transactions<SignedBondTx<DenominatedAmount>>,
))
    ensures
        r.0@ == account_address((EstablishedAccountTx { vp, threshold, public_keys })),
        r.1.established_account matches Some(v) && v@ == seq![
            (EstablishedAccountTx { vp, threshold, public_keys }),
        ],
        r.1.validator_account is None,
        r.1.bond is None,
{
    let unsigned_tx = EstablishedAccountTx { vp, threshold, public_keys };
    let address = unsigned_tx.derive_address();
    let txs = Transactions {
        established_account: Some(vec![unsigned_tx]),
        validator_account: None,
        bond: None,
    };
    (address, txs)
}

/// `v` is the unsigned validator transaction that `data` and the keys of
/// `w` make.
pub open spec fn validator_tx_of(
    v: UnsignedValidatorAccountTx,
    data: GenesisValidatorData,
    w: ValidatorWallet,
) -> bool {
    &&& v.address@ == data.address@
    &&& v.vp@ == "vp_user"@
    &&& v.commission_rate == data.commission_rate
    &&& v.max_commission_rate_change == data.max_commission_rate_change
    &&& v.net_address == data.net_address
    &&& unsigned_keys(v) == w.role_keys().map_values(|sk: Seq<u8>| public_key_of(sk))
    &&& v.metadata == (ValidatorMetaData {
        email: data.email,
        description: data.description,
        website: data.website,
        discord_handle: data.discord_handle,
    })
}

/// The unsigned transactions of a genesis validator: its validator
/// transaction, and its self-bond where the amount is not zero; with the
/// validator's address.
pub fn init_validator(data: GenesisValidatorData, validator_wallet: &ValidatorWallet) -> (r: (
    EstablishedAddress,
    UnsignedTransactions,
))
    requires
        validator_wallet.wf(),
    ensures
        r.0@ == data.address@,
        r.1.established_account is None,
        r.1.validator_account matches Some(v) && v@.len() == 1 && validator_tx_of(
            v@[0],
            data,
            *validator_wallet,
        ),
        data.self_bond_amount.amount == 0 ==> r.1.bond is None,
        data.self_bond_amount.amount != 0 ==> (r.1.bond matches Some(b) && b@.len() == 1
            && b@[0].source@ == GenesisAddressView::Established(data.address@)
            && b@[0].validator@ == data.address@ && b@[0].amount == data.self_bond_amount),
{
    let GenesisValidatorData {
        address,
        commission_rate,
        max_commission_rate_change,
        net_address,
        self_bond_amount,
        email,
        description,
        website,
        discord_handle,
    } = data;
    let vp_name: &str = "vp_user";
    proof {
        reveal_strlit("vp_user");
    }
    let unsigned_validator_account_tx = ValidatorAccountTx {
        address: address.clone(),
        vp: vp_name.to_owned(),
        commission_rate,
        max_commission_rate_change,
        net_address,
        consensus_key: validator_wallet.consensus_key.ref_to(),
        protocol_key: validator_wallet.protocol_key.ref_to(),
        tendermint_node_key: validator_wallet.tendermint_node_key.ref_to(),
        eth_hot_key: validator_wallet.eth_hot_key.ref_to(),
        eth_cold_key: validator_wallet.eth_cold_key.ref_to(),
        metadata: ValidatorMetaData { email, description, website, discord_handle },
    };
    assert(unsigned_keys(unsigned_validator_account_tx) =~= validator_wallet.role_keys().map_values(
        |sk: Seq<u8>| public_key_of(sk),
    ));
    let bond = if self_bond_amount.amount == 0 {
        None
    } else {
        let unsigned_bond_tx = BondTx {
            source: GenesisAddress::EstablishedAddress(address.clone()),
            validator: address.clone(),
            amount: self_bond_amount,
        };
        Some(vec![unsigned_bond_tx])
    };
    let txs = UnsignedTransactions {
        established_account: None,
        validator_account: Some(vec![unsigned_validator_account_tx]),
        bond,
    };
    (address, txs)
}

/// `s` is the validator transaction `u` signed with the keys of `w`; where
/// `u` holds the public keys of `w`, its authorizations are valid.
pub open spec fn validator_signed_by(
    s: SignedValidatorAccountTx,
    u: UnsignedValidatorAccountTx,
    w: ValidatorWallet,
) -> bool {
    &&& signed_keys(s) == unsigned_keys(u)
    &&& signed_validator_payload(s) == validator_payload(u)
    &&& signed_authorizations(s) == w.role_keys().map_values(
        |sk: Seq<u8>| signature_of(sk, signing_digest(validator_payload(u))),
    )
    &&& unsigned_keys(u) == w.role_keys().map_values(|sk: Seq<u8>| public_key_of(sk))
        ==> authorizations_valid(s)
}

/// `s` is the bond `b` signed with the keys that the wallet holds for its
/// source, each signature valid under its key's public key.
pub open spec fn bond_signed_by(
    s: SignedBondTx<DenominatedAmount>,
    b: BondTx<DenominatedAmount>,
    wallet: Seq<Seq<u8>>,
    accounts: Option<Seq<EstablishedAccountTx>>,
) -> bool {
    &&& signing_keys(b.source@, wallet, accounts) matches Some(ks)
    &&& s.data == b
    &&& sig_views(s.signatures@) == bond_signatures(ks, b)
    &&& forall|i: int|
        0 <= i < ks.len() ==> signature_valid(
            public_key_of(#[trigger] ks[i]),
            signing_digest(bond_payload(b)),
            sig_views(s.signatures@)[i],
        )
}

/// Every bond's source resolves to its signers.
pub open spec fn sources_resolve(
    bonds: Seq<BondTx<DenominatedAmount>>,
    wallet: Seq<Seq<u8>>,
    accounts: Option<Seq<EstablishedAccountTx>>,
) -> bool {
    forall|i: int| 0 <= i < bonds.len() ==> (signing_keys((#[trigger] bonds[i]).source@, wallet, accounts) is Some)
}

fn sign_bonds(
    bonds: Vec<BondTx<DenominatedAmount>>,
    wallet: &Wallet,
    established_accounts: &Option<Vec<EstablishedAccountTx>>,
) -> (r: Vec<SignedBondTx<DenominatedAmount>>)
    requires
        wallet.wf(),
        sources_resolve(bonds@, secret_views(wallet.keys@), accounts_of(*established_accounts)),
    ensures
        r@.len() == bonds@.len(),
        forall|i: int|
            0 <= i < bonds@.len() ==> bond_signed_by(
                #[trigger] r@[i],
                bonds@[i],
                secret_views(wallet.keys@),
                accounts_of(*established_accounts),
            ),
{
    let ghost all = bonds@;
    let ghost w = secret_views(wallet.keys@);
    let ghost accts = accounts_of(*established_accounts);
    let mut rest = bonds;
    let mut out: Vec<SignedBondTx<DenominatedAmount>> = Vec::new();
    while rest.len() > 0
        invariant
            wallet.wf(),
            all == bonds@,
            w == secret_views(wallet.keys@),
            accts == accounts_of(*established_accounts),
            sources_resolve(all, w, accts),
            out@.len() + rest@.len() == all.len(),
            rest@ == all.skip(out@.len() as int),
            forall|i: int| 0 <= i < out@.len() ==> bond_signed_by(#[trigger] out@[i], all[i], w, accts),
        decreases rest@.len(),
    {
        let k = out.len();
        let tx = rest.remove(0);
        assert(tx == all[k as int]);
        let s = sign_delegation_bond_tx(tx, wallet, established_accounts);
        let ghost before = out@;
        let ghost sg = s;
        out.push(s);
        assert(out@ == before.push(sg));
        assert(rest@ =~= all.skip(out@.len() as int));
    }
    out
}

fn sign_validators(txs: Vec<UnsignedValidatorAccountTx>, validator_wallet: &ValidatorWallet) -> (r:
    Vec<SignedValidatorAccountTx>)
    requires
        validator_wallet.wf(),
    ensures
        r@.len() == txs@.len(),
        forall|i: int|
            0 <= i < txs@.len() ==> validator_signed_by(
                #[trigger] r@[i],
                txs@[i],
                *validator_wallet,
            ),
{
    let ghost all = txs@;
    let mut rest = txs;
    let mut out: Vec<SignedValidatorAccountTx> = Vec::new();
    while rest.len() > 0
        invariant
            validator_wallet.wf(),
            out@.len() + rest@.len() == all.len(),
            rest@ == all.skip(out@.len() as int),
            forall|i: int|
                0 <= i < out@.len() ==> validator_signed_by(#[trigger] out@[i], all[i], *validator_wallet),
        decreases rest@.len(),
    {
        let k = out.len();
        let tx = rest.remove(0);
        assert(tx == all[k as int]);
        let s = sign_validator_account_tx(tx, validator_wallet);
        let ghost before = out@;
        let ghost sg = s;
        out.push(s);
        assert(out@ == before.push(sg));
        assert(rest@ =~= all.skip(out@.len() as int));
    }
    out
}

/// Sign a batch: each bond with the keys that the wallet holds for its
/// source, each validator transaction with the validator's keys. Every
/// bond's source must resolve, and validator transactions need a validator
/// wallet: without its signers genesis construction cannot go on.
pub fn sign_txs(
    txs: UnsignedTransactions,
    wallet: &Wallet,
    validator_wallet: Option<&ValidatorWallet>,
) -> (r: Transactions<SignedBondTx<DenominatedAmount>>)
    requires
        wallet.wf(),
        validator_wallet matches Some(vw) ==> vw.wf(),
        txs.validator_account is Some ==> validator_wallet is Some,
        txs.bond matches Some(b) ==> sources_resolve(
            b@,
            secret_views(wallet.keys@),
            accounts_of(txs.established_account),
        ),
    ensures
        r.established_account == txs.established_account,
        match txs.validator_account {
            None => r.validator_account is None,
            Some(v) => r.validator_account matches Some(sv) && validator_wallet matches Some(vw)
                && sv@.len() == v@.len() && forall|i: int|
                0 <= i < v@.len() ==> validator_signed_by(#[trigger] sv@[i], v@[i], *vw),
        },
        match txs.bond {
            None => r.bond is None,
            Some(b) => r.bond matches Some(sb) && sb@.len() == b@.len() && forall|i: int|
                0 <= i < b@.len() ==> bond_signed_by(
                    #[trigger] sb@[i],
                    b@[i],
                    secret_views(wallet.keys@),
                    accounts_of(txs.established_account),
                ),
        },
{
    let UnsignedTransactions { established_account, validator_account, bond } = txs;
    let bond = match bond {
        None => None,
        Some(b) => Some(sign_bonds(b, wallet, &established_account)),
    };
    let validator_account = match validator_account {
        None => None,
        Some(v) => match validator_wallet {
            Some(vw) => Some(sign_validators(v, vw)),
            None => vstd::pervasive::unreached(),
        },
    };
    Transactions { established_account, validator_account, bond }
}

proof fn lemma_wallet_lookup_key(keys: Seq<Seq<u8>>, pk: Seq<u8>)
    ensures
        wallet_lookup(keys, pk) matches Some(sk) ==> public_key_of(sk) == pk,
    decreases keys.len(),
{
    if keys.len() > 0 && public_key_of(keys[0]) != pk {
        lemma_wallet_lookup_key(keys.drop_first(), pk);
    }
}

/// A bond from a bare key, signed with the wallet's key for it, passes the
/// signature check of validation.
pub proof fn lemma_implicit_bond_signed(
    s: SignedBondTx<DenominatedAmount>,
    b: BondTx<DenominatedAmount>,
    wallet: Seq<Seq<u8>>,
    accounts: Option<Seq<EstablishedAccountTx>>,
    reg: Seq<AccountView>,
)
    requires
        bond_signed_by(s, b, wallet, accounts),
        b.source@ is Implicit,
    ensures
        bond_signed(s, reg),
{
    let pk = b.source@->Implicit_0;
    lemma_wallet_lookup_key(wallet, pk);
    let sk = wallet_lookup(wallet, pk).unwrap();
    let ks = signing_keys(b.source@, wallet, accounts).unwrap();
    assert(ks == seq![sk]);
    let keys = seq![pk];
    let sigs = sig_views(s.signatures@);
    let msg = signing_digest(bond_payload(s.data));
    assert(signature_valid(public_key_of(ks[0]), msg, sigs[0]));
    assert(sigs.len() == 1);
    assert(key_signed(pk, sigs, msg));
    let p = |k: Seq<u8>| key_signed(k, sigs, msg);
    assert(keys =~= Seq::<Seq<u8>>::empty().push(pk));
    assert(Seq::<Seq<u8>>::empty().to_set() =~= Set::<Seq<u8>>::empty());
    Seq::<Seq<u8>>::empty().lemma_push_to_set_commute(pk);
    assert(keys.to_set() =~= Set::<Seq<u8>>::empty().insert(pk));
    assert(keys.to_set().filter(p) =~= Set::<Seq<u8>>::empty().insert(pk));
    assert(Set::<Seq<u8>>::empty().insert(pk).len() == 1);
    assert(signer_keys(b.source@, reg) == Some((keys, 1u8)));
}

} // verus!
