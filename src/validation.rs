//! Validation of a whole genesis batch: established accounts, then
//! validators, then bonds.

use vstd::prelude::*;

use crate::crypto::{sha256, signature_valid, verify_signature, PublicKey};
use crate::ledger::{
    balance_of, debit, lemma_debit, ledger_of, owner_balance, owners_distinct, owners_unique,
    LedgerView, TokenBalancesForValidation,
};
use crate::threshold::{key_signed, sig_views, signed_keys_of, threshold_outcome, MAX_KEYS};
use crate::txs::{
    account_address, bond_payload, denominated, key_views, signed_authorizations, signed_keys,
    signed_validator_payload, signing_digest, Amount, BondTx, DenominatedAmount,
    DenominationError, EstablishedAccountTx, EstablishedAddress, GenesisAddress,
    GenesisAddressView, SignedBondTx, SignedValidatorAccountTx, Transactions,
};

verus! {

broadcast use vstd::set::group_set_axioms, vstd::seq_lib::seq_to_set_is_finite;

/// The names of the validity predicates that accounts may use.
#[derive(Debug, PartialEq, Eq)]
pub struct ValidityPredicates {
    pub wasm: Vec<String>,
}

/// Whether `names` holds `name`.
pub open spec fn names_contain(names: Seq<String>, name: Seq<char>) -> bool {
    exists|i: int| 0 <= i < names.len() && (#[trigger] names[i])@ == name
}

/// Whether `name` is a known validity predicate.
pub open spec fn vp_known(vps: Option<&ValidityPredicates>, name: Seq<char>) -> bool {
    match vps {
        Some(v) => names_contain(v.wasm@, name),
        None => false,
    }
}

fn has_vp(vps: Option<&ValidityPredicates>, name: &String) -> (r: bool)
    ensures
        r == vp_known(vps, name@),
{
    match vps {
        None => false,
        Some(v) => {
            let mut i: usize = 0;
            while i < v.wasm.len()
                invariant
                    vps == Some(v),
                    i <= v.wasm@.len(),
                    forall|j: int| 0 <= j < i ==> (#[trigger] v.wasm@[j])@ != name@,
                decreases v.wasm@.len() - i,
            {
                if v.wasm[i] == *name {
                    assert((v.wasm@[i as int])@ == name@);
                    assert(names_contain(v.wasm@, name@));
                    return true;
                }
                i = i + 1;
            }
            false
        },
    }
}

/// The bytes of each address of a list, as a set.
pub open spec fn address_set(v: Seq<EstablishedAddress>) -> Set<Seq<u8>> {
    v.map_values(|a: EstablishedAddress| a@).to_set()
}

fn contains_address(v: &Vec<EstablishedAddress>, a: &EstablishedAddress) -> (r: bool)
    ensures
        r == address_set(v@).contains(a@),
{
    let ghost m = v@.map_values(|x: EstablishedAddress| x@);
    let mut i: usize = 0;
    while i < v.len()
        invariant
            i <= v@.len(),
            m == v@.map_values(|x: EstablishedAddress| x@),
            forall|j: int| 0 <= j < i ==> #[trigger] m[j] != a@,
        decreases v@.len() - i,
    {
        if v[i].same_as(a) {
            assert(m[i as int] == a@);
            return true;
        }
        i = i + 1;
    }
    false
}

fn insert_address(v: &mut Vec<EstablishedAddress>, a: EstablishedAddress)
    ensures
        address_set(final(v)@) == address_set(old(v)@).insert(a@),
{
    if !contains_address(v, &a) {
        let ghost a_view = a@;
        v.push(a);
        assert(v@.map_values(|x: EstablishedAddress| x@) =~= old(v)@.map_values(
            |x: EstablishedAddress| x@,
        ).push(a_view));
        proof {
            old(v)@.map_values(|x: EstablishedAddress| x@).lemma_push_to_set_commute(a_view);
        }
    }
    assert(address_set(v@) =~= address_set(old(v)@).insert(a@));
}

/// A declared account: its address, its keys and its threshold.
#[derive(Debug, PartialEq, Eq)]
pub struct AccountEntry {
    pub address: EstablishedAddress,
    pub public_keys: Vec<PublicKey>,
    pub threshold: u8,
}

/// The view of a declared account.
pub type AccountView = (Seq<u8>, Seq<Seq<u8>>, u8);

/// The declared accounts, in the order of declaration. A later declaration
/// of an address replaces an earlier one.
#[derive(Debug, PartialEq, Eq)]
pub struct EstablishedAccounts {
    pub entries: Vec<AccountEntry>,
}

impl View for EstablishedAccounts {
    type V = Seq<AccountView>;

    open spec fn view(&self) -> Seq<AccountView> {
        self.entries@.map_values(
            |e: AccountEntry| (e.address@, key_views(e.public_keys@), e.threshold),
        )
    }
}

/// What the declaration of `tx` registers.
pub open spec fn account_view(tx: EstablishedAccountTx) -> AccountView {
    (account_address(tx), key_views(tx.public_keys@), tx.threshold)
}

/// What the declarations of `txs` register.
pub open spec fn account_views(txs: Seq<EstablishedAccountTx>) -> Seq<AccountView> {
    txs.map_values(|tx: EstablishedAccountTx| account_view(tx))
}

/// The keys and threshold of the last declaration of `a`.
pub open spec fn lookup_account(reg: Seq<AccountView>, a: Seq<u8>) -> Option<(Seq<Seq<u8>>, u8)>
    decreases reg.len(),
{
    if reg.len() == 0 {
        None
    } else if reg.last().0 == a {
        Some((reg.last().1, reg.last().2))
    } else {
        lookup_account(reg.drop_last(), a)
    }
}

fn clone_keys(keys: &Vec<PublicKey>) -> (r: Vec<PublicKey>)
    ensures
        key_views(r@) == key_views(keys@),
{
    let mut r: Vec<PublicKey> = Vec::new();
    let mut i: usize = 0;
    while i < keys.len()
        invariant
            i <= keys@.len(),
            r@.len() == i,
            forall|j: int| 0 <= j < i ==> (#[trigger] r@[j])@ == keys@[j]@,
        decreases keys@.len() - i,
    {
        let k = keys[i].clone();
        r.push(k);
        i = i + 1;
    }
    assert(key_views(r@) =~= key_views(keys@));
    r
}

impl EstablishedAccounts {
    /// Record a declaration.
    pub fn insert(&mut self, address: EstablishedAddress, public_keys: Vec<PublicKey>, threshold: u8)
        ensures
            final(self)@ == old(self)@.push((address@, key_views(public_keys@), threshold)),
    {
        let ghost v = (address@, key_views(public_keys@), threshold);
        self.entries.push(AccountEntry { address, public_keys, threshold });
        assert(self@ =~= old(self)@.push(v));
    }

    /// The keys and threshold of the last declaration of `a`.
    pub fn get(&self, a: &EstablishedAddress) -> (r: Option<(&Vec<PublicKey>, u8)>)
        ensures
            match r {
                Some((ks, t)) => lookup_account(self@, a@) == Some((key_views(ks@), t)),
                None => lookup_account(self@, a@) is None,
            },
    {
        let mut i: usize = self.entries.len();
        assert(self@.take(i as int) =~= self@);
        while i > 0
            invariant
                i <= self@.len(),
                lookup_account(self@, a@) == lookup_account(self@.take(i as int), a@),
            decreases i,
        {
            let ghost pre = self@.take(i as int);
            assert(pre.drop_last() =~= self@.take(i - 1));
            if self.entries[i - 1].address.same_as(a) {
                return Some((&self.entries[i - 1].public_keys, self.entries[i - 1].threshold));
            }
            i = i - 1;
        }
        None
    }
}

// ---------------------------------------------------------------------------
// Established accounts

/// The threshold and key count of `tx` are in order: `1 <= threshold <= keys <= 255`.
pub open spec fn account_structurally_valid(tx: EstablishedAccountTx) -> bool {
    &&& tx.threshold != 0
    &&& tx.threshold <= tx.public_keys@.len()
    &&& tx.public_keys@.len() <= MAX_KEYS
}

/// The addresses that the declarations of `txs` derive.
pub open spec fn account_addresses(txs: Seq<EstablishedAccountTx>) -> Seq<Seq<u8>> {
    txs.map_values(|tx: EstablishedAccountTx| account_address(tx))
}

/// Check one established-account transaction against the accounts seen so
/// far, and record it whether it is valid or not.
pub fn validate_established_account(
    tx: &EstablishedAccountTx,
    vps: Option<&ValidityPredicates>,
    all_used_addresses: &mut Vec<EstablishedAddress>,
    established_accounts: &mut EstablishedAccounts,
) -> (r: bool)
    ensures
        r == (account_structurally_valid(*tx) && !address_set(old(all_used_addresses)@).contains(
            account_address(*tx),
        ) && vp_known(vps, tx.vp@)),
        address_set(final(all_used_addresses)@) == address_set(old(all_used_addresses)@).insert(
            account_address(*tx),
        ),
        final(established_accounts)@ == old(established_accounts)@.push(account_view(*tx)),
{
    let mut is_valid = true;
    let established_address = tx.derive_address();
    if tx.threshold == 0 {
        is_valid = false;
    }
    if tx.threshold as usize > tx.public_keys.len() {
        is_valid = false;
    }
    if tx.public_keys.len() > MAX_KEYS {
        is_valid = false;
    }
    established_accounts.insert(
        established_address.clone(),
        clone_keys(&tx.public_keys),
        tx.threshold,
    );
    if contains_address(all_used_addresses, &established_address) {
        is_valid = false;
    } else {
        insert_address(all_used_addresses, established_address);
    }
    if !has_vp(vps, &tx.vp) {
        is_valid = false;
    }
    if tx.public_keys.len() == 0 {
        is_valid = false;
    }
    is_valid
}

// ---------------------------------------------------------------------------
// Validators

/// Whether `sig` is a valid signature of the payload `tx_data` under `pk`.
pub fn validate_signature(tx_data: &[u8], pk: &PublicKey, sig: &crate::crypto::Signature) -> (r: bool)
    ensures
        r == signature_valid(pk@, signing_digest(tx_data@), sig@),
{
    let digest = sha256(tx_data);
    verify_signature(pk, digest.as_slice(), sig)
}

/// Each of the five role keys of `tx` authorized it: its signature over the
/// transaction without its authorizations is valid.
pub open spec fn authorizations_valid(tx: SignedValidatorAccountTx) -> bool {
    forall|k: int|
        0 <= k < 5 ==> signature_valid(
            #[trigger] signed_keys(tx)[k],
            signing_digest(signed_validator_payload(tx)),
            signed_authorizations(tx)[k],
        )
}

/// Check one validator transaction against the declared accounts and the
/// validators seen so far, and record its address.
pub fn validate_validator_account(
    tx: &SignedValidatorAccountTx,
    vps: Option<&ValidityPredicates>,
    all_used_addresses: &Vec<EstablishedAddress>,
    validator_accounts: &mut Vec<EstablishedAddress>,
) -> (r: bool)
    ensures
        r == (address_set(all_used_addresses@).contains(tx.address@) && !address_set(
            old(validator_accounts)@,
        ).contains(tx.address@) && vp_known(vps, tx.vp@) && authorizations_valid(*tx)),
        address_set(final(validator_accounts)@) == address_set(old(validator_accounts)@).insert(
            tx.address@,
        ),
{
    let mut is_valid = true;
    if !contains_address(all_used_addresses, &tx.address) {
        is_valid = false;
    }
    if contains_address(validator_accounts, &tx.address) {
        is_valid = false;
        assert(address_set(old(validator_accounts)@).insert(tx.address@) =~= address_set(
            old(validator_accounts)@,
        ));
    } else {
        insert_address(validator_accounts, tx.address.clone());
    }
    if !has_vp(vps, &tx.vp) {
        is_valid = false;
    }
    let unsigned = tx.unsigned_payload();
    let ok0 = validate_signature(unsigned.as_slice(), &tx.consensus_key.pk, &tx.consensus_key.authorization);
    let ok1 = validate_signature(unsigned.as_slice(), &tx.protocol_key.pk, &tx.protocol_key.authorization);
    let ok2 = validate_signature(
        unsigned.as_slice(),
        &tx.tendermint_node_key.pk,
        &tx.tendermint_node_key.authorization,
    );
    let ok3 = validate_signature(unsigned.as_slice(), &tx.eth_hot_key.pk, &tx.eth_hot_key.authorization);
    let ok4 = validate_signature(unsigned.as_slice(), &tx.eth_cold_key.pk, &tx.eth_cold_key.authorization);
    if !ok0 {
        is_valid = false;
    }
    if !ok1 {
        is_valid = false;
    }
    if !ok2 {
        is_valid = false;
    }
    if !ok3 {
        is_valid = false;
    }
    if !ok4 {
        is_valid = false;
    }
    proof {
        let keys = signed_keys(*tx);
        let auths = signed_authorizations(*tx);
        let d = signing_digest(signed_validator_payload(*tx));
        assert(ok0 == signature_valid(keys[0], d, auths[0]));
        assert(ok1 == signature_valid(keys[1], d, auths[1]));
        assert(ok2 == signature_valid(keys[2], d, auths[2]));
        assert(ok3 == signature_valid(keys[3], d, auths[3]));
        assert(ok4 == signature_valid(keys[4], d, auths[4]));
        if ok0 && ok1 && ok2 && ok3 && ok4 {
            assert forall|k: int| 0 <= k < 5 implies signature_valid(
                #[trigger] signed_keys(*tx)[k],
                d,
                auths[k],
            ) by {
                assert(k == 0 || k == 1 || k == 2 || k == 3 || k == 4);
            }
        }
    }
    is_valid
}

// ---------------------------------------------------------------------------
// Bonds

/// The keys that must sign for `source`, and how many of them: those of its
/// last declaration, or the key itself for a bare key.
pub open spec fn signer_keys(source: GenesisAddressView, reg: Seq<AccountView>) -> Option<
    (Seq<Seq<u8>>, u8),
> {
    match source {
        GenesisAddressView::Established(h) => lookup_account(reg, h),
        GenesisAddressView::Implicit(k) => Some((seq![k], 1u8)),
    }
}

/// Enough of the signers of a bond's source signed it.
pub open spec fn bond_signed(tx: SignedBondTx<DenominatedAmount>, reg: Seq<AccountView>) -> bool {
    match signer_keys(tx.data.source@, reg) {
        Some(st) => threshold_outcome(
            st.0,
            sig_views(tx.signatures@),
            signing_digest(bond_payload(tx.data)),
            st.1,
        ) is Ok,
        None => false,
    }
}

/// One bond against the native token's balances (absent where the token has
/// none): the balances after it, and whether it is valid. A valid bond is
/// debited from its source; a rejected bond leaves the balances as they are.
pub open spec fn bond_step(
    tx: SignedBondTx<DenominatedAmount>,
    ledger: Option<LedgerView>,
    reg: Seq<AccountView>,
    validators: Set<Seq<u8>>,
) -> (Option<LedgerView>, bool) {
    match denominated(tx.data.amount) {
        Err(_) => (ledger, false),
        Ok(amt) => match ledger {
            None => (ledger, false),
            Some(l) => match balance_of(l, tx.data.source@) {
                None => (ledger, false),
                Some(b) => if b < amt || !bond_signed(tx, reg) || !validators.contains(
                    tx.data.validator@,
                ) {
                    (ledger, false)
                } else {
                    (Some(debit(l, tx.data.source@, amt)), true)
                },
            },
        },
    }
}

/// `b` is the bond `tx` at the native precision.
pub open spec fn bond_output(b: BondTx<Amount>, tx: SignedBondTx<DenominatedAmount>) -> bool {
    &&& b.source@ == tx.data.source@
    &&& b.validator@ == tx.data.validator@
    &&& denominated(tx.data.amount) == Ok::<nat, DenominationError>(b.amount.raw as nat)
}

/// The view of optional balances.
pub open spec fn opt_ledger(b: Option<TokenBalancesForValidation>) -> Option<LedgerView> {
    match b {
        Some(t) => Some(t@),
        None => None,
    }
}

/// Check one bond: its signatures, its amount, its validator, and its
/// source's balance, which it is debited from.
fn validate_bond(
    tx: &SignedBondTx<DenominatedAmount>,
    balances: &mut Option<TokenBalancesForValidation>,
    established_accounts: &EstablishedAccounts,
    validator_accounts: &Vec<EstablishedAddress>,
) -> (r: Option<BondTx<Amount>>)
    requires
        opt_wf(*old(balances)),
    ensures
        opt_wf(*final(balances)),
        (opt_ledger(*final(balances)), r is Some) == bond_step(
            *tx,
            opt_ledger(*old(balances)),
            established_accounts@,
            address_set(validator_accounts@),
        ),
        r matches Some(b) ==> bond_output(b, *tx),
{
    let mut is_valid = match &tx.data.source {
        GenesisAddress::EstablishedAddress(address) => {
            match established_accounts.get(address) {
                Some((pks, t)) => tx.verify_sig(pks.as_slice(), t).is_ok(),
                None => false,
            }
        },
        GenesisAddress::PublicKey(pk) => {
            let one = vec![pk.clone()];
            assert(key_views(one@) =~= seq![pk@]);
            tx.verify_sig(one.as_slice(), 1).is_ok()
        },
    };
    assert(is_valid == bond_signed(*tx, established_accounts@));
    let amount = match tx.data.amount.increase_precision() {
        Ok(a) => a,
        Err(_) => {
            return None;
        },
    };
    if !contains_address(validator_accounts, &tx.data.validator) {
        is_valid = false;
    }
    match balances {
        Some(token_balances) => {
            match token_balances.get(&tx.data.source) {
                Some(balance) => {
                    if balance.raw < amount.raw {
                        is_valid = false;
                    } else if is_valid {
                        token_balances.debit(&tx.data.source, amount);
                    }
                },
                None => {
                    is_valid = false;
                },
            }
        },
        None => {
            is_valid = false;
        },
    }
    if is_valid {
        Some(BondTx { source: tx.data.source.clone(), validator: tx.data.validator.clone(), amount })
    } else {
        None
    }
}

// ---------------------------------------------------------------------------
// The batch

/// Chain parameters that validation needs: the native token's name.
#[derive(Debug, PartialEq, Eq)]
pub struct Parameters {
    pub native_token: String,
}

/// The balances of one token.
#[derive(Debug, PartialEq, Eq)]
pub struct TokenBalances {
    pub token: String,
    pub amounts: Vec<(GenesisAddress, Amount)>,
}

/// The balance snapshot: for each token, the balances of its owners.
#[derive(Debug, PartialEq, Eq)]
pub struct DenominatedBalances {
    pub token: Vec<TokenBalances>,
}

impl DenominatedBalances {
    /// Each token maps each owner to one balance: no owner has two entries.
    pub open spec fn wf(&self) -> bool {
        forall|i: int|
            0 <= i < self.token@.len() ==> owners_unique(ledger_of((#[trigger] self.token@[i]).amounts@))
    }

    /// Whether no owner has two entries under any token.
    pub fn has_unique_owners(&self) -> (r: bool)
        ensures
            r == self.wf(),
    {
        let mut i: usize = 0;
        while i < self.token.len()
            invariant
                i <= self.token@.len(),
                forall|k: int|
                    0 <= k < i ==> owners_unique(ledger_of((#[trigger] self.token@[k]).amounts@)),
            decreases self.token@.len() - i,
        {
            if !owners_distinct(&self.token[i].amounts) {
                return false;
            }
            i = i + 1;
        }
        true
    }
}

/// The balances, where present, have no owner twice.
pub open spec fn opt_wf(b: Option<TokenBalancesForValidation>) -> bool {
    b matches Some(t) ==> t.wf()
}

/// The balances of `native` in `ts`, where a later entry of a token
/// replaces an earlier one.
pub open spec fn token_ledger(ts: Seq<TokenBalances>, native: Seq<char>) -> Option<LedgerView>
    decreases ts.len(),
{
    if ts.len() == 0 {
        None
    } else if ts.last().token@ == native {
        Some(ledger_of(ts.last().amounts@))
    } else {
        token_ledger(ts.drop_last(), native)
    }
}

/// The balances of `native` in the snapshot.
pub open spec fn native_ledger(balances: Option<&DenominatedBalances>, native: Seq<char>) -> Option<
    LedgerView,
> {
    match balances {
        Some(b) => token_ledger(b.token@, native),
        None => None,
    }
}

/// The items of an optional list; none where it is absent.
pub open spec fn list_or_empty<T>(o: Option<Vec<T>>) -> Seq<T> {
    match o {
        Some(v) => v@,
        None => Seq::empty(),
    }
}

/// The `i`-th established-account transaction is valid: its threshold and
/// keys are in order, its address is new and its validity predicate known.
pub open spec fn account_ok(
    txs: Seq<EstablishedAccountTx>,
    i: int,
    vps: Option<&ValidityPredicates>,
) -> bool {
    &&& account_structurally_valid(txs[i])
    &&& !account_addresses(txs.take(i)).to_set().contains(account_address(txs[i]))
    &&& vp_known(vps, txs[i].vp@)
}

/// Every established-account transaction is valid.
pub open spec fn accounts_valid(txs: Seq<EstablishedAccountTx>, vps: Option<&ValidityPredicates>) -> bool {
    forall|i: int| 0 <= i < txs.len() ==> #[trigger] account_ok(txs, i, vps)
}

/// The addresses of validator transactions.
pub open spec fn validator_addresses(txs: Seq<SignedValidatorAccountTx>) -> Seq<Seq<u8>> {
    txs.map_values(|tx: SignedValidatorAccountTx| tx.address@)
}

/// The `i`-th validator transaction is valid: its account was declared, it
/// is the first validator of that address, its validity predicate is known
/// and its five keys authorized it.
pub open spec fn validator_ok(
    txs: Seq<SignedValidatorAccountTx>,
    i: int,
    declared: Set<Seq<u8>>,
    vps: Option<&ValidityPredicates>,
) -> bool {
    &&& declared.contains(txs[i].address@)
    &&& !validator_addresses(txs.take(i)).to_set().contains(txs[i].address@)
    &&& vp_known(vps, txs[i].vp@)
    &&& authorizations_valid(txs[i])
}

/// Every validator transaction is valid.
pub open spec fn validators_valid(
    txs: Seq<SignedValidatorAccountTx>,
    declared: Set<Seq<u8>>,
    vps: Option<&ValidityPredicates>,
) -> bool {
    forall|i: int| 0 <= i < txs.len() ==> #[trigger] validator_ok(txs, i, declared, vps)
}

/// The bonds, one after another, against the balances: the balances after
/// them, and whether all of them are valid.
pub open spec fn bonds_fold(
    txs: Seq<SignedBondTx<DenominatedAmount>>,
    ledger: Option<LedgerView>,
    reg: Seq<AccountView>,
    validators: Set<Seq<u8>>,
) -> (Option<LedgerView>, bool)
    decreases txs.len(),
{
    if txs.len() == 0 {
        (ledger, true)
    } else {
        let prev = bonds_fold(txs.drop_last(), ledger, reg, validators);
        let step = bond_step(txs.last(), prev.0, reg, validators);
        (step.0, prev.1 && step.1)
    }
}

/// The bonds of the batch are valid: there are none, or there are
/// parameters and every bond is valid in turn.
pub open spec fn bonds_valid(
    t: Transactions<SignedBondTx<DenominatedAmount>>,
    balances: Option<&DenominatedBalances>,
    parameters: Option<&Parameters>,
) -> bool {
    let etxs = list_or_empty(t.established_account);
    let vtxs = list_or_empty(t.validator_account);
    match t.bond {
        None => true,
        Some(b) => b@.len() == 0 || match parameters {
            None => false,
            Some(p) => bonds_fold(
                b@,
                native_ledger(balances, p.native_token@),
                account_views(etxs),
                validator_addresses(vtxs).to_set(),
            ).1,
        },
    }
}

/// The whole batch is valid.
pub open spec fn batch_valid(
    t: Transactions<SignedBondTx<DenominatedAmount>>,
    vps: Option<&ValidityPredicates>,
    balances: Option<&DenominatedBalances>,
    parameters: Option<&Parameters>,
) -> bool {
    let etxs = list_or_empty(t.established_account);
    let vtxs = list_or_empty(t.validator_account);
    &&& accounts_valid(etxs, vps)
    &&& validators_valid(vtxs, account_addresses(etxs).to_set(), vps)
    &&& bonds_valid(t, balances, parameters)
}

/// `out` is the list `inp` of bonds at the native precision; absent where
/// `inp` is absent or empty.
pub open spec fn validated_bonds(
    out: Option<Vec<BondTx<Amount>>>,
    inp: Option<Vec<SignedBondTx<DenominatedAmount>>>,
) -> bool {
    match inp {
        Some(b) if b@.len() > 0 => match out {
            Some(o) => o@.len() == b@.len() && forall|i: int|
                0 <= i < b@.len() ==> #[trigger] bond_output(o@[i], b@[i]),
            None => false,
        },
        _ => out is None,
    }
}

fn native_balances(balances: Option<&DenominatedBalances>, native: &String) -> (r: Option<
    TokenBalancesForValidation,
>)
    requires
        balances matches Some(b) ==> b.wf(),
    ensures
        opt_ledger(r) == native_ledger(balances, native@),
        opt_wf(r),
{
    match balances {
        None => None,
        Some(b) => {
            let mut i: usize = b.token.len();
            assert(b.token@.take(i as int) =~= b.token@);
            while i > 0
                invariant
                    balances == Some(b),
                    b.wf(),
                    i <= b.token@.len(),
                    native_ledger(balances, native@) == token_ledger(b.token@.take(i as int), native@),
                decreases i,
            {
                assert(b.token@.take(i as int).drop_last() =~= b.token@.take(i - 1));
                if b.token[i - 1].token == *native {
                    let src = &b.token[i - 1].amounts;
                    assert(owners_unique(ledger_of(src@)));
                    let mut amounts: Vec<(GenesisAddress, Amount)> = Vec::new();
                    let mut j: usize = 0;
                    while j < src.len()
                        invariant
                            owners_unique(ledger_of(src@)),
                            j <= src@.len(),
                            amounts@.len() == j,
                            forall|k: int| 0 <= k < j ==> (#[trigger] amounts@[k]).0@ == src@[k].0@
                                && amounts@[k].1 == src@[k].1,
                        decreases src@.len() - j,
                    {
                        let owner = src[j].0.clone();
                        amounts.push((owner, src[j].1));
                        j = j + 1;
                    }
                    assert(ledger_of(amounts@) =~= ledger_of(src@));
                    return Some(TokenBalancesForValidation { amounts });
                }
                i = i - 1;
            }
            None
        },
    }
}

/// Validate a batch: established accounts, then validators, then bonds,
/// each checked against what came before. Every transaction is checked;
/// the batch, with its bonds at the native precision, comes back only if
/// all of them are valid.
pub fn validate(
    transactions: Transactions<SignedBondTx<DenominatedAmount>>,
    vps: Option<&ValidityPredicates>,
    balances: Option<&DenominatedBalances>,
    parameters: Option<&Parameters>,
) -> (r: Option<Transactions<BondTx<Amount>>>)
    requires
        balances matches Some(b) ==> b.wf(),
    ensures
        r is Some <==> batch_valid(transactions, vps, balances, parameters),
        r matches Some(v) ==> {
            &&& v.established_account == transactions.established_account
            &&& v.validator_account == transactions.validator_account
            &&& validated_bonds(v.bond, transactions.bond)
        },
{
    let ghost t0 = transactions;
    let mut is_valid = true;
    let mut all_used_addresses: Vec<EstablishedAddress> = Vec::new();
    let mut established_accounts = EstablishedAccounts { entries: Vec::new() };
    let mut validator_accounts: Vec<EstablishedAddress> = Vec::new();
    let Transactions { established_account, validator_account, bond } = transactions;
    let ghost etxs = list_or_empty(established_account);
    let ghost vtxs = list_or_empty(validator_account);

    match &established_account {
        Some(txs) => {
            let mut i: usize = 0;
            assert(account_addresses(txs@.take(0)).to_set() =~= address_set(all_used_addresses@));
            assert(account_views(txs@.take(0)) =~= established_accounts@);
            while i < txs.len()
                invariant
                    etxs == txs@,
                    i <= txs@.len(),
                    address_set(all_used_addresses@) == account_addresses(txs@.take(i as int)).to_set(),
                    established_accounts@ == account_views(txs@.take(i as int)),
                    is_valid == forall|k: int| 0 <= k < i ==> #[trigger] account_ok(txs@, k, vps),
                decreases txs@.len() - i,
            {
                let ok = validate_established_account(
                    &txs[i],
                    vps,
                    &mut all_used_addresses,
                    &mut established_accounts,
                );
                proof {
                    let pre = txs@.take(i as int);
                    assert(txs@.take(i + 1) =~= pre.push(txs@[i as int]));
                    assert(account_addresses(pre.push(txs@[i as int])) =~= account_addresses(pre).push(
                        account_address(txs@[i as int]),
                    ));
                    account_addresses(pre).lemma_push_to_set_commute(account_address(txs@[i as int]));
                    assert(account_views(pre.push(txs@[i as int])) =~= account_views(pre).push(
                        account_view(txs@[i as int]),
                    ));
                    assert(ok == account_ok(txs@, i as int, vps));
                }
                if !ok {
                    is_valid = false;
                }
                i = i + 1;
            }
            assert(txs@.take(i as int) =~= txs@);
        },
        None => {
            assert(account_addresses(etxs) =~= Seq::empty());
            assert(account_addresses(etxs).to_set() =~= address_set(all_used_addresses@));
            assert(account_views(etxs) =~= established_accounts@);
        },
    }
    let ghost valid1 = is_valid;
    assert(valid1 == accounts_valid(etxs, vps));

    match &validator_account {
        Some(txs) => {
            let mut i: usize = 0;
            assert(validator_addresses(txs@.take(0)).to_set() =~= address_set(validator_accounts@));
            while i < txs.len()
                invariant
                    vtxs == txs@,
                    i <= txs@.len(),
                    address_set(all_used_addresses@) == account_addresses(etxs).to_set(),
                    address_set(validator_accounts@) == validator_addresses(txs@.take(i as int)).to_set(),
                    is_valid == (valid1 && forall|k: int|
                        0 <= k < i ==> #[trigger] validator_ok(
                            txs@,
                            k,
                            account_addresses(etxs).to_set(),
                            vps,
                        )),
                decreases txs@.len() - i,
            {
                let ok = validate_validator_account(
                    &txs[i],
                    vps,
                    &all_used_addresses,
                    &mut validator_accounts,
                );
                proof {
                    let pre = txs@.take(i as int);
                    assert(txs@.take(i + 1) =~= pre.push(txs@[i as int]));
                    assert(validator_addresses(pre.push(txs@[i as int])) =~= validator_addresses(
                        pre,
                    ).push(txs@[i as int].address@));
                    validator_addresses(pre).lemma_push_to_set_commute(txs@[i as int].address@);
                    assert(ok == validator_ok(txs@, i as int, account_addresses(etxs).to_set(), vps));
                }
                if !ok {
                    is_valid = false;
                }
                i = i + 1;
            }
            assert(txs@.take(i as int) =~= txs@);
        },
        None => {
            assert(validator_addresses(vtxs) =~= Seq::empty());
            assert(validator_addresses(vtxs).to_set() =~= address_set(validator_accounts@));
        },
    }
    let ghost valid2 = is_valid;
    assert(valid2 == (accounts_valid(etxs, vps) && validators_valid(
        vtxs,
        account_addresses(etxs).to_set(),
        vps,
    )));

    let validated_bonds: Option<Vec<BondTx<Amount>>> = match &bond {
        None => None,
        Some(txs) => {
            if txs.len() == 0 {
                None
            } else {
                match parameters {
                    None => {
                        is_valid = false;
                        None
                    },
                    Some(p) => {
                        let mut token_balances = native_balances(balances, &p.native_token);
                        let ghost reg = account_views(etxs);
                        let ghost vals = validator_addresses(vtxs).to_set();
                        let mut out: Vec<BondTx<Amount>> = Vec::new();
                        let mut all_ok = true;
                        let mut i: usize = 0;
                        while i < txs.len()
                            invariant
                                i <= txs@.len(),
                                opt_wf(token_balances),
                                established_accounts@ == reg,
                                address_set(validator_accounts@) == vals,
                                (opt_ledger(token_balances), all_ok) == bonds_fold(
                                    txs@.take(i as int),
                                    native_ledger(balances, p.native_token@),
                                    reg,
                                    vals,
                                ),
                                all_ok ==> out@.len() == i,
                                all_ok ==> forall|k: int|
                                    0 <= k < i ==> #[trigger] bond_output(out@[k], txs@[k]),
                            decreases txs@.len() - i,
                        {
                            proof {
                                assert(txs@.take(i + 1).drop_last() =~= txs@.take(i as int));
                            }
                            let r = validate_bond(
                                &txs[i],
                                &mut token_balances,
                                &established_accounts,
                                &validator_accounts,
                            );
                            match r {
                                Some(b) => {
                                    out.push(b);
                                },
                                None => {
                                    all_ok = false;
                                },
                            }
                            i = i + 1;
                        }
                        assert(txs@.take(i as int) =~= txs@);
                        if all_ok {
                            Some(out)
                        } else {
                            is_valid = false;
                            None
                        }
                    },
                }
            }
        },
    };
    if is_valid {
        Some(Transactions { established_account, validator_account, bond: validated_bonds })
    } else {
        None
    }
}

// ---------------------------------------------------------------------------
// Laws

/// The amount, at the native precision, that the bonds of `txs` that pass
/// validation in turn take from `a`.
pub open spec fn validated_from(
    txs: Seq<SignedBondTx<DenominatedAmount>>,
    ledger: Option<LedgerView>,
    reg: Seq<AccountView>,
    validators: Set<Seq<u8>>,
    a: GenesisAddressView,
) -> nat
    decreases txs.len(),
{
    if txs.len() == 0 {
        0
    } else {
        let prev = bonds_fold(txs.drop_last(), ledger, reg, validators);
        let tx = txs.last();
        validated_from(txs.drop_last(), ledger, reg, validators, a) + if bond_step(
            tx,
            prev.0,
            reg,
            validators,
        ).1 && tx.data.source@ == a {
            denominated(tx.data.amount)->Ok_0
        } else {
            0
        }
    }
}

/// Balance conservation: after a list of bonds, each owner's remaining
/// balance is its initial balance less the amounts of the bonds from it that
/// passed validation.
pub proof fn lemma_balance_conservation(
    txs: Seq<SignedBondTx<DenominatedAmount>>,
    ledger: LedgerView,
    reg: Seq<AccountView>,
    validators: Set<Seq<u8>>,
    a: GenesisAddressView,
)
    requires
        owners_unique(ledger),
    ensures
        bonds_fold(txs, Some(ledger), reg, validators).0 matches Some(l) && owners_unique(l)
            && owner_balance(l, a) + validated_from(txs, Some(ledger), reg, validators, a)
            == owner_balance(ledger, a),
    decreases txs.len(),
{
    if txs.len() > 0 {
        let pre = txs.drop_last();
        let tx = txs.last();
        lemma_balance_conservation(pre, ledger, reg, validators, a);
        let l1 = bonds_fold(pre, Some(ledger), reg, validators).0.unwrap();
        if bond_step(tx, Some(l1), reg, validators).1 {
            let amt = denominated(tx.data.amount)->Ok_0;
            lemma_debit(l1, tx.data.source@, amt, a);
        }
    }
}

/// A bond that passes validation is debited from its source alone: the
/// source held at least its amount and keeps the rest, and every other
/// owner keeps its balance.
pub proof fn lemma_valid_bond_debits(
    tx: SignedBondTx<DenominatedAmount>,
    ledger: LedgerView,
    reg: Seq<AccountView>,
    validators: Set<Seq<u8>>,
    x: GenesisAddressView,
)
    requires
        owners_unique(ledger),
        bond_step(tx, Some(ledger), reg, validators).1,
    ensures
        denominated(tx.data.amount) matches Ok(amt) && balance_of(ledger, tx.data.source@) matches Some(
            b,
        ) && amt <= b,
        bond_step(tx, Some(ledger), reg, validators).0 matches Some(l) && owners_unique(l)
            && owner_balance(l, x) == if x == tx.data.source@ {
            (owner_balance(ledger, x) - denominated(tx.data.amount)->Ok_0) as nat
        } else {
            owner_balance(ledger, x)
        },
{
    lemma_debit(ledger, tx.data.source@, denominated(tx.data.amount)->Ok_0, x);
}

/// A rejected bond leaves the balances as they were.
pub proof fn lemma_rejected_bond_leaves_ledger(
    tx: SignedBondTx<DenominatedAmount>,
    ledger: Option<LedgerView>,
    reg: Seq<AccountView>,
    validators: Set<Seq<u8>>,
)
    ensures
        !bond_step(tx, ledger, reg, validators).1 ==> bond_step(tx, ledger, reg, validators).0
            == ledger,
{
}

/// A bond whose amount exceeds its source's balance is rejected, and the
/// balances stay as they were.
pub proof fn lemma_overdraft_rejected(
    tx: SignedBondTx<DenominatedAmount>,
    ledger: LedgerView,
    reg: Seq<AccountView>,
    validators: Set<Seq<u8>>,
)
    requires
        denominated(tx.data.amount) matches Ok(amt) && balance_of(ledger, tx.data.source@) matches Some(
            b,
        ) && b < amt,
    ensures
        bond_step(tx, Some(ledger), reg, validators) == (Some(ledger), false),
{
}

/// A threshold of at least one and at most the number of keys, with at most
/// 255 keys, is in order; a zero threshold, a threshold above the number of
/// keys, or more than 255 keys makes the transaction invalid whatever its
/// other fields, and so the whole batch that holds it.
pub proof fn lemma_account_structure(
    t: Transactions<SignedBondTx<DenominatedAmount>>,
    i: int,
    vps: Option<&ValidityPredicates>,
    balances: Option<&DenominatedBalances>,
    parameters: Option<&Parameters>,
)
    requires
        0 <= i < list_or_empty(t.established_account).len(),
    ensures
        ({
            let tx = list_or_empty(t.established_account)[i];
            &&& (1 <= tx.threshold && tx.threshold <= tx.public_keys@.len() && tx.public_keys@.len()
                <= 255) ==> account_structurally_valid(tx)
            &&& (tx.threshold == 0 || tx.threshold > tx.public_keys@.len() || tx.public_keys@.len()
                > 255) ==> {
                &&& !account_ok(list_or_empty(t.established_account), i, vps)
                &&& !batch_valid(t, vps, balances, parameters)
            }
        }),
{
    let txs = list_or_empty(t.established_account);
    if !account_structurally_valid(txs[i]) {
        assert(!account_ok(txs, i, vps));
        assert(!accounts_valid(txs, vps));
    }
}

/// The native token's balances that validation starts from have no owner
/// twice, so [`lemma_balance_conservation`] applies to them.
pub proof fn lemma_native_ledger_unique(balances: &DenominatedBalances, native: Seq<char>)
    requires
        balances.wf(),
    ensures
        native_ledger(Some(balances), native) matches Some(l) ==> owners_unique(l),
{
    lemma_token_ledger_unique(balances.token@, native);
}

proof fn lemma_token_ledger_unique(ts: Seq<TokenBalances>, native: Seq<char>)
    requires
        forall|i: int| 0 <= i < ts.len() ==> owners_unique(ledger_of((#[trigger] ts[i]).amounts@)),
    ensures
        token_ledger(ts, native) matches Some(l) ==> owners_unique(l),
    decreases ts.len(),
{
    if ts.len() > 0 {
        let pre = ts.drop_last();
        assert forall|i: int| 0 <= i < pre.len() implies owners_unique(ledger_of((#[trigger] pre[i]).amounts@)) by {
            assert(pre[i] == ts[i]);
        }
        assert(owners_unique(ledger_of(ts[ts.len() - 1].amounts@)));
        lemma_token_ledger_unique(pre, native);
    }
}

/// A batch of one established account with one key and threshold one, one
/// validator on that account whose five keys authorized it, and one bond
/// from that account to it, signed by the account's key and within the
/// source's balance, is valid.
pub proof fn lemma_single_validator_batch_valid(
    t: Transactions<SignedBondTx<DenominatedAmount>>,
    vps: Option<&ValidityPredicates>,
    balances: Option<&DenominatedBalances>,
    parameters: Option<&Parameters>,
    j: int,
)
    requires
        t.established_account matches Some(ev) && ev@.len() == 1,
        t.validator_account matches Some(vv) && vv@.len() == 1,
        t.bond matches Some(bv) && bv@.len() == 1,
        ({
            let e = t.established_account->Some_0@[0];
            let v = t.validator_account->Some_0@[0];
            let bond = t.bond->Some_0@[0];
            let a = account_address(e);
            &&& e.threshold == 1
            &&& e.public_keys@.len() == 1
            &&& vp_known(vps, e.vp@)
            &&& v.address@ == a
            &&& vp_known(vps, v.vp@)
            &&& authorizations_valid(v)
            &&& bond.data.source@ == GenesisAddressView::Established(a)
            &&& bond.data.validator@ == a
            &&& 0 <= j < bond.signatures@.len()
            &&& signature_valid(
                e.public_keys@[0]@,
                signing_digest(bond_payload(bond.data)),
                sig_views(bond.signatures@)[j],
            )
            &&& denominated(bond.data.amount) matches Ok(amt)
            &&& parameters matches Some(p)
            &&& native_ledger(balances, p.native_token@) matches Some(l)
            &&& balance_of(l, bond.data.source@) matches Some(b)
            &&& amt <= b
        }),
    ensures
        batch_valid(t, vps, balances, parameters),
{
    let etxs = list_or_empty(t.established_account);
    let vtxs = list_or_empty(t.validator_account);
    let bv = t.bond->Some_0@;
    let e = etxs[0];
    let v = vtxs[0];
    let bond = bv[0];
    let a = account_address(e);
    // Established accounts.
    assert(account_addresses(etxs.take(0)).to_set() =~= Set::<Seq<u8>>::empty());
    assert(account_ok(etxs, 0, vps));
    assert(accounts_valid(etxs, vps));
    // Validators.
    assert(account_addresses(etxs)[0] == a);
    assert(account_addresses(etxs).to_set().contains(a));
    assert(validator_addresses(vtxs.take(0)).to_set() =~= Set::<Seq<u8>>::empty());
    assert(validator_ok(vtxs, 0, account_addresses(etxs).to_set(), vps));
    assert(validators_valid(vtxs, account_addresses(etxs).to_set(), vps));
    // Bonds.
    let reg = account_views(etxs);
    let vals = validator_addresses(vtxs).to_set();
    assert(validator_addresses(vtxs)[0] == a);
    assert(vals.contains(bond.data.validator@));
    assert(reg.drop_last() =~= Seq::<AccountView>::empty());
    assert(lookup_account(reg, a) == Some((key_views(e.public_keys@), 1u8)));
    let keys = key_views(e.public_keys@);
    let sigs = sig_views(bond.signatures@);
    let msg = signing_digest(bond_payload(bond.data));
    assert(keys[0] == e.public_keys@[0]@);
    assert(key_signed(keys[0], sigs, msg));
    let signed = signed_keys_of(keys, sigs, msg);
    assert(keys.to_set().contains(keys[0]));
    assert(signed.contains(keys[0]));
    keys.to_set().lemma_len_filter(|k: Seq<u8>| key_signed(k, sigs, msg));
    vstd::set_lib::lemma_len_subset(Set::<Seq<u8>>::empty().insert(keys[0]), signed);
    assert(threshold_outcome(keys, sigs, msg, 1) is Ok);
    assert(bond_signed(bond, reg));
    assert(bv.drop_last() =~= Seq::<SignedBondTx<DenominatedAmount>>::empty());
    let ledger = native_ledger(balances, parameters->Some_0.native_token@);
    assert(bonds_fold(bv.drop_last(), ledger, reg, vals) == (ledger, true));
    assert(bv.last() == bond);
    assert(bond_step(bond, ledger, reg, vals).1);
    assert(bonds_fold(bv, ledger, reg, vals).1);
}

} // verus!
