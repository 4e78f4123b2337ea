//! The genesis transactions and their canonical payloads.

use vstd::prelude::*;
use vstd::utf8::encode_utf8;

use crate::crypto::{sha256, sha256_of, PublicKey, Signature};
use crate::encoding::{
    enc_blob, enc_len, enc_opt_str, enc_str, le_bytes, push_blob, push_bytes, push_le,
    push_opt_str, push_str,
};

verus! {

/// Number of bytes of an established address.
pub const ESTABLISHED_ADDRESS_LEN: usize = 20;

/// Number of decimal places of a bond's amount once it is validated.
pub const NATIVE_MAX_DECIMAL_PLACES: u8 = 6;

/// The threshold of an established account that does not state one.
pub fn default_threshold() -> (r: u8)
    ensures
        r == 1,
{
    1
}

/// The address of an established account: a truncated digest of its
/// declaring transaction.
#[derive(Debug, PartialEq, Eq)]
pub struct EstablishedAddress {
    pub hash: Vec<u8>,
}

impl View for EstablishedAddress {
    type V = Seq<u8>;

    open spec fn view(&self) -> Seq<u8> {
        self.hash@
    }
}

impl Clone for EstablishedAddress {
    fn clone(&self) -> (r: Self)
        ensures
            r@ == self@,
    {
        EstablishedAddress { hash: self.hash.clone() }
    }
}

impl EstablishedAddress {
    /// Whether this address has the same bytes as `other`.
    pub fn same_as(&self, other: &EstablishedAddress) -> (r: bool)
        ensures
            r == (self@ == other@),
    {
        crate::crypto::bytes_eq(self.hash.as_slice(), other.hash.as_slice())
    }
}

/// The source of a bond: a declared established account, or a bare key.
#[derive(Debug, PartialEq, Eq)]
pub enum GenesisAddress {
    EstablishedAddress(EstablishedAddress),
    PublicKey(PublicKey),
}

/// What a [`GenesisAddress`] denotes.
pub enum GenesisAddressView {
    Established(Seq<u8>),
    Implicit(Seq<u8>),
}

impl View for GenesisAddress {
    type V = GenesisAddressView;

    open spec fn view(&self) -> GenesisAddressView {
        match self {
            GenesisAddress::EstablishedAddress(a) => GenesisAddressView::Established(a@),
            GenesisAddress::PublicKey(pk) => GenesisAddressView::Implicit(pk@),
        }
    }
}

impl Clone for GenesisAddress {
    fn clone(&self) -> (r: Self)
        ensures
            r@ == self@,
    {
        match self {
            GenesisAddress::EstablishedAddress(a) => GenesisAddress::EstablishedAddress(a.clone()),
            GenesisAddress::PublicKey(pk) => GenesisAddress::PublicKey(pk.clone()),
        }
    }
}

impl GenesisAddress {
    /// Whether this address denotes the same account as `other`.
    pub fn same_as(&self, other: &GenesisAddress) -> (r: bool)
        ensures
            r == (self@ == other@),
    {
        match (self, other) {
            (GenesisAddress::EstablishedAddress(a), GenesisAddress::EstablishedAddress(b)) => {
                a.same_as(b)
            },
            (GenesisAddress::PublicKey(a), GenesisAddress::PublicKey(b)) => a.same_as(b),
            _ => false,
        }
    }
}

/// A decimal with twelve places, held as its value times 10^12.
#[derive(Clone, Copy, Debug, PartialEq, Eq, Structural)]
pub struct Dec {
    pub raw: u128,
}

/// The number that stands for one in a [`Dec`].
pub const DEC_ONE: u128 = 1_000_000_000_000;

/// A token amount in a stated number of decimal places: `amount / 10^denom`.
#[derive(Clone, Copy, Debug, PartialEq, Eq, Structural)]
pub struct DenominatedAmount {
    pub amount: u128,
    pub denom: u8,
}

/// A token amount at the native precision, as an integer of smallest units.
#[derive(Clone, Copy, Debug, PartialEq, Eq, Structural)]
pub struct Amount {
    pub raw: u128,
}

/// A network address: the IP octets (4 or 16) and a port.
#[derive(Debug, PartialEq, Eq)]
pub struct NetAddress {
    pub ip: Vec<u8>,
    pub port: u16,
}

impl Clone for NetAddress {
    fn clone(&self) -> (r: Self)
        ensures
            r.ip@ == self.ip@,
            r.port == self.port,
    {
        NetAddress { ip: self.ip.clone(), port: self.port }
    }
}

/// The public description of a validator.
#[derive(Debug, PartialEq, Eq)]
pub struct ValidatorMetaData {
    pub email: String,
    pub description: Option<String>,
    pub website: Option<String>,
    pub discord_handle: Option<String>,
}

/// The view of an optional text.
pub open spec fn opt_str(s: Option<String>) -> Option<Seq<char>> {
    match s {
        Some(t) => Some(t@),
        None => None,
    }
}

fn clone_opt_str(s: &Option<String>) -> (r: Option<String>)
    ensures
        opt_str(r) == opt_str(*s),
{
    match s {
        Some(t) => Some(t.clone()),
        None => None,
    }
}

impl Clone for ValidatorMetaData {
    fn clone(&self) -> (r: Self)
        ensures
            r.email@ == self.email@,
            opt_str(r.description) == opt_str(self.description),
            opt_str(r.website) == opt_str(self.website),
            opt_str(r.discord_handle) == opt_str(self.discord_handle),
    {
        ValidatorMetaData {
            email: self.email.clone(),
            description: clone_opt_str(&self.description),
            website: clone_opt_str(&self.website),
            discord_handle: clone_opt_str(&self.discord_handle),
        }
    }
}

/// Declares an established account: its validity predicate, and the keys
/// of which `threshold` must sign for it.
#[derive(Debug, PartialEq, Eq)]
pub struct EstablishedAccountTx {
    pub vp: String,
    pub threshold: u8,
    pub public_keys: Vec<PublicKey>,
}

/// A key together with its holder's signature over the unsigned validator
/// transaction.
#[derive(Debug, PartialEq, Eq)]
pub struct SignedPk {
    pub pk: PublicKey,
    pub authorization: Signature,
}

impl Clone for SignedPk {
    fn clone(&self) -> (r: Self)
        ensures
            r.pk@ == self.pk@,
            r.authorization@ == self.authorization@,
    {
        SignedPk { pk: self.pk.clone(), authorization: self.authorization.clone() }
    }
}

/// Registers an established account as a validator. `PK` is a bare public
/// key in the unsigned form and a [`SignedPk`] in the signed form.
#[derive(Debug, PartialEq, Eq)]
pub struct ValidatorAccountTx<PK> {
    pub address: EstablishedAddress,
    pub vp: String,
    pub commission_rate: Dec,
    pub max_commission_rate_change: Dec,
    pub net_address: NetAddress,
    pub consensus_key: PK,
    pub protocol_key: PK,
    pub tendermint_node_key: PK,
    pub eth_hot_key: PK,
    pub eth_cold_key: PK,
    pub metadata: ValidatorMetaData,
}

/// A validator transaction that holds bare keys.
pub type UnsignedValidatorAccountTx = ValidatorAccountTx<PublicKey>;

/// A validator transaction whose keys carry their holders' authorizations.
pub type SignedValidatorAccountTx = ValidatorAccountTx<SignedPk>;

/// A bond of `amount` from `source` to the validator at `validator`.
#[derive(Debug, PartialEq, Eq)]
pub struct BondTx<A> {
    pub source: GenesisAddress,
    pub validator: EstablishedAddress,
    pub amount: A,
}

/// A bond with the signatures collected for it so far.
#[derive(Debug, PartialEq, Eq)]
pub struct SignedBondTx<A> {
    pub data: BondTx<A>,
    pub signatures: Vec<Signature>,
}

// ---------------------------------------------------------------------------
// Canonical payloads

/// The salt of the digest that an established account's address is.
pub open spec fn account_salt() -> Seq<u8> {
    encode_utf8("established-account-tx"@)
}

/// The encoding of a list of keys: their number, then each key.
pub open spec fn keys_payload(keys: Seq<Seq<u8>>) -> Seq<u8> {
    enc_len(keys.len()) + keys_body(keys)
}

/// The keys of a list, one after another.
pub open spec fn keys_body(keys: Seq<Seq<u8>>) -> Seq<u8>
    decreases keys.len(),
{
    if keys.len() == 0 {
        Seq::empty()
    } else {
        enc_blob(keys[0]) + keys_body(keys.drop_first())
    }
}

proof fn lemma_keys_body_push(keys: Seq<Seq<u8>>, k: Seq<u8>)
    ensures
        keys_body(keys.push(k)) == keys_body(keys) + enc_blob(k),
    decreases keys.len(),
{
    if keys.len() == 0 {
        assert(keys.push(k).drop_first() =~= Seq::<Seq<u8>>::empty());
        assert(keys_body(Seq::<Seq<u8>>::empty()) == Seq::<u8>::empty());
        assert(keys_body(keys.push(k)) =~= keys_body(keys) + enc_blob(k));
    } else {
        lemma_keys_body_push(keys.drop_first(), k);
        assert(keys.push(k).drop_first() =~= keys.drop_first().push(k));
        assert(keys.push(k)[0] == keys[0]);
        assert(keys_body(keys.push(k)) =~= keys_body(keys) + enc_blob(k));
    }
}

/// The bytes of each key of a list.
pub open spec fn key_views(keys: Seq<PublicKey>) -> Seq<Seq<u8>> {
    keys.map_values(|k: PublicKey| k@)
}

/// The canonical encoding of an established-account transaction.
pub open spec fn account_payload(tx: EstablishedAccountTx) -> Seq<u8> {
    enc_str(tx.vp@) + seq![tx.threshold] + keys_payload(key_views(tx.public_keys@))
}

/// The address derived from an established-account transaction: the first
/// bytes of the digest of the salt and the transaction's encoding.
pub open spec fn account_address(tx: EstablishedAccountTx) -> Seq<u8> {
    sha256_of(account_salt() + account_payload(tx)).take(ESTABLISHED_ADDRESS_LEN as int)
}

/// The encoding of the fields of a validator transaction that precede its keys.
pub open spec fn validator_head<PK>(tx: ValidatorAccountTx<PK>) -> Seq<u8> {
    enc_blob(tx.address@) + enc_str(tx.vp@) + le_bytes(tx.commission_rate.raw as nat, 16)
        + le_bytes(tx.max_commission_rate_change.raw as nat, 16) + enc_blob(tx.net_address.ip@)
        + le_bytes(tx.net_address.port as nat, 2)
}

/// The encoding of a validator's metadata.
pub open spec fn metadata_payload(m: ValidatorMetaData) -> Seq<u8> {
    enc_str(m.email@) + enc_opt_str(opt_str(m.description)) + enc_opt_str(opt_str(m.website))
        + enc_opt_str(opt_str(m.discord_handle))
}

/// The canonical encoding of a validator transaction with the given keys.
pub open spec fn validator_payload_with<PK>(
    tx: ValidatorAccountTx<PK>,
    keys: Seq<Seq<u8>>,
) -> Seq<u8> {
    validator_head(tx) + role_keys_payload(keys) + metadata_payload(tx.metadata)
}

/// The encoding of the five role keys of a validator, in order.
pub open spec fn role_keys_payload(keys: Seq<Seq<u8>>) -> Seq<u8> {
    enc_blob(keys[0]) + enc_blob(keys[1]) + enc_blob(keys[2]) + enc_blob(keys[3]) + enc_blob(
        keys[4],
    )
}

/// The five role keys of an unsigned validator transaction, in order.
pub open spec fn unsigned_keys(tx: UnsignedValidatorAccountTx) -> Seq<Seq<u8>> {
    seq![
        tx.consensus_key@,
        tx.protocol_key@,
        tx.tendermint_node_key@,
        tx.eth_hot_key@,
        tx.eth_cold_key@,
    ]
}

/// The five role keys of a signed validator transaction, in order.
pub open spec fn signed_keys(tx: SignedValidatorAccountTx) -> Seq<Seq<u8>> {
    seq![
        tx.consensus_key.pk@,
        tx.protocol_key.pk@,
        tx.tendermint_node_key.pk@,
        tx.eth_hot_key.pk@,
        tx.eth_cold_key.pk@,
    ]
}

/// The five authorizations of a signed validator transaction, in the order
/// of [`signed_keys`].
pub open spec fn signed_authorizations(tx: SignedValidatorAccountTx) -> Seq<Seq<u8>> {
    seq![
        tx.consensus_key.authorization@,
        tx.protocol_key.authorization@,
        tx.tendermint_node_key.authorization@,
        tx.eth_hot_key.authorization@,
        tx.eth_cold_key.authorization@,
    ]
}

/// The canonical encoding of an unsigned validator transaction.
pub open spec fn validator_payload(tx: UnsignedValidatorAccountTx) -> Seq<u8> {
    validator_payload_with(tx, unsigned_keys(tx))
}

/// The canonical encoding of a signed validator transaction with its
/// authorizations left out: what each role key signs.
pub open spec fn signed_validator_payload(tx: SignedValidatorAccountTx) -> Seq<u8> {
    validator_payload_with(tx, signed_keys(tx))
}

/// The encoding of a bond's source.
pub open spec fn source_payload(a: GenesisAddressView) -> Seq<u8> {
    match a {
        GenesisAddressView::Established(h) => seq![0u8] + enc_blob(h),
        GenesisAddressView::Implicit(k) => seq![1u8] + enc_blob(k),
    }
}

/// The bytes that the signers of a bond sign.
pub open spec fn bond_payload(b: BondTx<DenominatedAmount>) -> Seq<u8> {
    source_payload(b.source@) + enc_blob(b.validator@) + le_bytes(b.amount.amount as nat, 16)
        + seq![b.amount.denom]
}

/// The digest that a signature over `payload` signs.
pub open spec fn signing_digest(payload: Seq<u8>) -> Seq<u8> {
    sha256_of(payload)
}

fn push_keys(out: &mut Vec<u8>, keys: &Vec<PublicKey>)
    ensures
        final(out)@ == old(out)@ + keys_payload(key_views(keys@)),
{
    push_le(out, keys.len() as u128, 8);
    let ghost start = out@;
    let mut i: usize = 0;
    while i < keys.len()
        invariant
            i <= keys@.len(),
            out@ == start + keys_body(key_views(keys@).take(i as int)),
        decreases keys@.len() - i,
    {
        proof {
            assert(key_views(keys@).take(i + 1) =~= key_views(keys@).take(i as int).push(
                keys@[i as int]@,
            ));
            lemma_keys_body_push(key_views(keys@).take(i as int), keys@[i as int]@);
        }
        push_blob(out, keys[i].bytes.as_slice());
        i = i + 1;
    }
    assert(key_views(keys@).take(i as int) =~= key_views(keys@));
}

impl EstablishedAccountTx {
    /// The canonical encoding of this transaction.
    pub fn payload(&self) -> (r: Vec<u8>)
        ensures
            r@ == account_payload(*self),
    {
        let mut out: Vec<u8> = Vec::new();
        push_str(&mut out, &self.vp);
        out.push(self.threshold);
        push_keys(&mut out, &self.public_keys);
        assert(out@ =~= account_payload(*self));
        out
    }

    /// The address of the account that this transaction declares.
    pub fn derive_address(&self) -> (r: EstablishedAddress)
        ensures
            r@ == account_address(*self),
    {
        let salt: &str = "established-account-tx";
        proof {
            reveal_strlit("established-account-tx");
        }
        let mut data: Vec<u8> = Vec::new();
        push_bytes(&mut data, salt.as_bytes());
        let payload = self.payload();
        push_bytes(&mut data, payload.as_slice());
        let digest = sha256(data.as_slice());
        let mut hash: Vec<u8> = Vec::new();
        let mut i: usize = 0;
        while i < ESTABLISHED_ADDRESS_LEN
            invariant
                i <= ESTABLISHED_ADDRESS_LEN,
                digest@.len() == 32,
                hash@ == digest@.take(i as int),
            decreases ESTABLISHED_ADDRESS_LEN - i,
        {
            hash.push(digest[i]);
            i = i + 1;
            assert(hash@ =~= digest@.take(i as int));
        }
        assert(data@ =~= account_salt() + account_payload(*self));
        EstablishedAddress { hash }
    }
}

fn push_head<PK>(out: &mut Vec<u8>, tx: &ValidatorAccountTx<PK>)
    ensures
        final(out)@ == old(out)@ + validator_head(*tx),
{
    push_blob(out, tx.address.hash.as_slice());
    push_str(out, &tx.vp);
    push_le(out, tx.commission_rate.raw, 16);
    push_le(out, tx.max_commission_rate_change.raw, 16);
    push_blob(out, tx.net_address.ip.as_slice());
    push_le(out, tx.net_address.port as u128, 2);
    assert(out@ =~= old(out)@ + validator_head(*tx));
}

fn push_metadata(out: &mut Vec<u8>, m: &ValidatorMetaData)
    ensures
        final(out)@ == old(out)@ + metadata_payload(*m),
{
    push_str(out, &m.email);
    push_opt_str(out, &m.description);
    push_opt_str(out, &m.website);
    push_opt_str(out, &m.discord_handle);
    assert(out@ =~= old(out)@ + metadata_payload(*m));
}

/// The encoding of a validator transaction with the five given role keys.
fn validator_bytes<PK>(
    tx: &ValidatorAccountTx<PK>,
    k0: &PublicKey,
    k1: &PublicKey,
    k2: &PublicKey,
    k3: &PublicKey,
    k4: &PublicKey,
) -> (r: Vec<u8>)
    ensures
        r@ == validator_payload_with(*tx, seq![k0@, k1@, k2@, k3@, k4@]),
{
    let mut out: Vec<u8> = Vec::new();
    push_head(&mut out, tx);
    push_blob(&mut out, k0.bytes.as_slice());
    push_blob(&mut out, k1.bytes.as_slice());
    push_blob(&mut out, k2.bytes.as_slice());
    push_blob(&mut out, k3.bytes.as_slice());
    push_blob(&mut out, k4.bytes.as_slice());
    push_metadata(&mut out, &tx.metadata);
    let ghost keys = seq![k0@, k1@, k2@, k3@, k4@];
    assert(out@ =~= validator_payload_with(*tx, keys));
    out
}

impl ValidatorAccountTx<PublicKey> {
    /// The canonical encoding of this transaction: what each role key signs.
    pub fn payload(&self) -> (r: Vec<u8>)
        ensures
            r@ == validator_payload(*self),
    {
        let r = validator_bytes(
            self,
            &self.consensus_key,
            &self.protocol_key,
            &self.tendermint_node_key,
            &self.eth_hot_key,
            &self.eth_cold_key,
        );
        assert(seq![self.consensus_key@, self.protocol_key@, self.tendermint_node_key@, self.eth_hot_key@, self.eth_cold_key@] =~= unsigned_keys(*self));
        r
    }
}

impl ValidatorAccountTx<SignedPk> {
    /// The canonical encoding of this transaction without its
    /// authorizations: what each role key signed.
    pub fn unsigned_payload(&self) -> (r: Vec<u8>)
        ensures
            r@ == signed_validator_payload(*self),
    {
        let r = validator_bytes(
            self,
            &self.consensus_key.pk,
            &self.protocol_key.pk,
            &self.tendermint_node_key.pk,
            &self.eth_hot_key.pk,
            &self.eth_cold_key.pk,
        );
        assert(seq![self.consensus_key.pk@, self.protocol_key.pk@, self.tendermint_node_key.pk@, self.eth_hot_key.pk@, self.eth_cold_key.pk@] =~= signed_keys(*self));
        r
    }

    /// This transaction with its authorizations stripped.
    pub fn to_unsigned(&self) -> (r: UnsignedValidatorAccountTx)
        ensures
            r.address@ == self.address@,
            r.vp@ == self.vp@,
            r.commission_rate == self.commission_rate,
            r.max_commission_rate_change == self.max_commission_rate_change,
            r.net_address.ip@ == self.net_address.ip@,
            r.net_address.port == self.net_address.port,
            unsigned_keys(r) == signed_keys(*self),
            r.metadata.email@ == self.metadata.email@,
            opt_str(r.metadata.description) == opt_str(self.metadata.description),
            opt_str(r.metadata.website) == opt_str(self.metadata.website),
            opt_str(r.metadata.discord_handle) == opt_str(self.metadata.discord_handle),
            validator_payload(r) == signed_validator_payload(*self),
    {
        let r = ValidatorAccountTx {
            address: self.address.clone(),
            vp: self.vp.clone(),
            commission_rate: self.commission_rate,
            max_commission_rate_change: self.max_commission_rate_change,
            net_address: self.net_address.clone(),
            consensus_key: self.consensus_key.pk.clone(),
            protocol_key: self.protocol_key.pk.clone(),
            tendermint_node_key: self.tendermint_node_key.pk.clone(),
            eth_hot_key: self.eth_hot_key.pk.clone(),
            eth_cold_key: self.eth_cold_key.pk.clone(),
            metadata: self.metadata.clone(),
        };
        assert(unsigned_keys(r) =~= signed_keys(*self));
        assert(validator_head(r) =~= validator_head(*self));
        r
    }
}

impl BondTx<DenominatedAmount> {
    /// The bytes that the signers of this bond sign.
    pub fn data_to_sign(&self) -> (r: Vec<u8>)
        ensures
            r@ == bond_payload(*self),
    {
        let mut out: Vec<u8> = Vec::new();
        match &self.source {
            GenesisAddress::EstablishedAddress(a) => {
                out.push(0u8);
                push_blob(&mut out, a.hash.as_slice());
            },
            GenesisAddress::PublicKey(pk) => {
                out.push(1u8);
                push_blob(&mut out, pk.bytes.as_slice());
            },
        }
        assert(out@ =~= source_payload(self.source@));
        push_blob(&mut out, self.validator.hash.as_slice());
        push_le(&mut out, self.amount.amount, 16);
        out.push(self.amount.denom);
        assert(out@ =~= bond_payload(*self));
        out
    }
}

// ---------------------------------------------------------------------------
// Amounts

/// Ten to the power `k`.
pub open spec fn pow10(k: nat) -> nat
    decreases k,
{
    if k == 0 {
        1
    } else {
        10 * pow10((k - 1) as nat)
    }
}

/// Why an amount cannot be brought to the native precision.
#[derive(Clone, Copy, Debug, PartialEq, Eq, Structural)]
pub enum DenominationError {
    /// The amount has more decimal places than the native precision.
    PrecisionDecrease,
    /// The amount at the native precision does not fit.
    Overflow,
}

/// The amount `a` at the native precision, in smallest units; or why there
/// is none.
pub open spec fn denominated(a: DenominatedAmount) -> Result<nat, DenominationError> {
    if a.denom > NATIVE_MAX_DECIMAL_PLACES {
        Err(DenominationError::PrecisionDecrease)
    } else if (a.amount as nat) * pow10((NATIVE_MAX_DECIMAL_PLACES - a.denom) as nat) > u128::MAX {
        Err(DenominationError::Overflow)
    } else {
        Ok((a.amount as nat) * pow10((NATIVE_MAX_DECIMAL_PLACES - a.denom) as nat))
    }
}

proof fn lemma_pow10_positive(k: nat)
    ensures
        pow10(k) >= 1,
    decreases k,
{
    if k > 0 {
        lemma_pow10_positive((k - 1) as nat);
    }
}

/// `v * 10^steps`, or none where that does not fit.
pub fn scale_up(v: u128, steps: u8) -> (r: Option<u128>)
    ensures
        r matches Some(w) ==> w as nat == v * pow10(steps as nat),
        r is None ==> v * pow10(steps as nat) > u128::MAX,
{
    let mut w: u128 = v;
    let mut i: u8 = 0;
    assert(pow10(0) == 1);
    while i < steps
        invariant
            i <= steps,
            w as nat == v * pow10(i as nat),
        decreases steps - i,
    {
        proof {
            lemma_pow10_positive((steps - i - 1) as nat);
            assert(pow10((i + 1) as nat) == 10 * pow10(i as nat));
            assert(pow10(steps as nat) == pow10((i + 1) as nat) * pow10((steps - i - 1) as nat)) by {
                lemma_pow10_add((i + 1) as nat, (steps - i - 1) as nat);
            }
        }
        match w.checked_mul(10) {
            Some(x) => {
                proof {
                    assert(x as nat == v * pow10((i + 1) as nat)) by (nonlinear_arith)
                        requires
                            x as nat == w * 10,
                            w as nat == v * pow10(i as nat),
                            pow10((i + 1) as nat) == 10 * pow10(i as nat),
                    ;
                }
                w = x;
            },
            None => {
                proof {
                    let a = v as nat;
                    let p = pow10((i + 1) as nat);
                    let q = pow10((steps - i - 1) as nat);
                    assert(a * p > u128::MAX) by (nonlinear_arith)
                        requires
                            w * 10 > u128::MAX,
                            w as nat == a * pow10(i as nat),
                            p == 10 * pow10(i as nat),
                    ;
                    assert(a * (p * q) >= a * p) by (nonlinear_arith)
                        requires
                            q >= 1,
                    ;
                    assert(a * (p * q) == a * pow10(steps as nat));
                }
                return None;
            },
        }
        i = i + 1;
    }
    Some(w)
}

impl DenominatedAmount {
    /// This amount at the native precision.
    pub fn increase_precision(&self) -> (r: Result<Amount, DenominationError>)
        ensures
            match r {
                Ok(a) => denominated(*self) == Ok::<nat, DenominationError>(a.raw as nat),
                Err(e) => denominated(*self) == Err::<nat, DenominationError>(e),
            },
    {
        if self.denom > NATIVE_MAX_DECIMAL_PLACES {
            return Err(DenominationError::PrecisionDecrease);
        }
        match scale_up(self.amount, NATIVE_MAX_DECIMAL_PLACES - self.denom) {
            Some(raw) => Ok(Amount { raw }),
            None => Err(DenominationError::Overflow),
        }
    }
}

proof fn lemma_pow10_add(a: nat, b: nat)
    ensures
        pow10(a + b) == pow10(a) * pow10(b),
    decreases a,
{
    if a == 0 {
        assert(a + b == b);
        assert(pow10(a) == 1);
        assert(1 * pow10(b) == pow10(b));
    } else {
        lemma_pow10_add((a - 1) as nat, b);
        assert(pow10(a) == 10 * pow10((a - 1) as nat));
        assert(pow10(a + b) == 10 * pow10((a - 1 + b) as nat));
        assert(10 * (pow10((a - 1) as nat) * pow10(b)) == (10 * pow10((a - 1) as nat)) * pow10(b))
            by (nonlinear_arith);
    }
}

impl BondTx<DenominatedAmount> {
    /// This bond with its amount brought to the native precision.
    pub fn denominate(self) -> (r: Result<BondTx<Amount>, DenominationError>)
        ensures
            match r {
                Ok(b) => {
                    &&& denominated(self.amount) == Ok::<nat, DenominationError>(b.amount.raw as nat)
                    &&& b.source == self.source
                    &&& b.validator == self.validator
                },
                Err(e) => denominated(self.amount) == Err::<nat, DenominationError>(e),
            },
    {
        let BondTx { source, validator, amount } = self;
        match amount.increase_precision() {
            Ok(a) => Ok(BondTx { source, validator, amount: a }),
            Err(e) => Err(e),
        }
    }
}

// ---------------------------------------------------------------------------
// Batches

/// A batch of genesis transactions. `B` is the form of its bonds: signed and
/// unvalidated before validation, denominated after.
#[derive(Debug, PartialEq, Eq)]
pub struct Transactions<B> {
    pub established_account: Option<Vec<EstablishedAccountTx>>,
    pub validator_account: Option<Vec<SignedValidatorAccountTx>>,
    pub bond: Option<Vec<B>>,
}

/// A batch before anything in it is signed.
#[derive(Debug, PartialEq, Eq)]
pub struct UnsignedTransactions {
    pub established_account: Option<Vec<EstablishedAccountTx>>,
    pub validator_account: Option<Vec<UnsignedValidatorAccountTx>>,
    pub bond: Option<Vec<BondTx<DenominatedAmount>>>,
}

/// The items of an optional list.
pub open spec fn opt_seq<T>(o: Option<Vec<T>>) -> Option<Seq<T>> {
    match o {
        Some(v) => Some(v@),
        None => None,
    }
}

/// Two optional lists, one after the other: absent only where both are.
pub open spec fn merged<T>(a: Option<Seq<T>>, b: Option<Seq<T>>) -> Option<Seq<T>> {
    match (a, b) {
        (Some(x), Some(y)) => Some(x + y),
        (Some(x), None) => Some(x),
        (None, y) => y,
    }
}

fn merge_lists<T>(a: Option<Vec<T>>, b: Option<Vec<T>>) -> (r: Option<Vec<T>>)
    ensures
        opt_seq(r) == merged(opt_seq(a), opt_seq(b)),
{
    match a {
        Some(mut x) => {
            match b {
                Some(mut y) => {
                    x.append(&mut y);
                },
                None => {},
            }
            Some(x)
        },
        None => b,
    }
}

impl<B> Transactions<B> {
    /// Take the union of two batches: each list of `other` follows the
    /// same list of `self`.
    pub fn merge(&mut self, other: Self)
        ensures
            opt_seq(final(self).established_account) == merged(
                opt_seq(old(self).established_account),
                opt_seq(other.established_account),
            ),
            opt_seq(final(self).validator_account) == merged(
                opt_seq(old(self).validator_account),
                opt_seq(other.validator_account),
            ),
            opt_seq(final(self).bond) == merged(opt_seq(old(self).bond), opt_seq(other.bond)),
    {
        let Transactions { established_account, validator_account, bond } = other;
        let a = self.established_account.take();
        self.established_account = merge_lists(a, established_account);
        let v = self.validator_account.take();
        self.validator_account = merge_lists(v, validator_account);
        let b = self.bond.take();
        self.bond = merge_lists(b, bond);
    }
}

impl<B> Default for Transactions<B> {
    fn default() -> (r: Self)
        ensures
            r.established_account is None,
            r.validator_account is None,
            r.bond is None,
    {
        Transactions { established_account: None, validator_account: None, bond: None }
    }
}

impl Default for UnsignedTransactions {
    fn default() -> (r: Self)
        ensures
            r.established_account is None,
            r.validator_account is None,
            r.bond is None,
    {
        UnsignedTransactions { established_account: None, validator_account: None, bond: None }
    }
}

/// The sum of the amounts of the bonds of `bonds` to the validator `v`.
pub open spec fn stake_of(bonds: Seq<BondTx<Amount>>, v: Seq<u8>) -> nat
    decreases bonds.len(),
{
    if bonds.len() == 0 {
        0
    } else {
        stake_of(bonds.drop_last(), v) + if bonds.last().validator@ == v {
            bonds.last().amount.raw as nat
        } else {
            0
        }
    }
}

/// The voting power of a stake: `floor(stake * votes_per_token)`.
pub open spec fn voting_power(stake: nat, votes_per_token: Dec) -> nat {
    (stake * (votes_per_token.raw as nat)) / (DEC_ONE as nat)
}

/// Whether some validator that `bonds` bond to has positive voting power.
pub open spec fn some_positive_power(bonds: Seq<BondTx<Amount>>, votes_per_token: Dec) -> bool {
    exists|i: int|
        0 <= i < bonds.len() && voting_power(stake_of(bonds, #[trigger] bonds[i].validator@), votes_per_token)
            > 0
}

/// The sum of the amounts of `bonds` to `v`, or `u128::MAX` where it is larger.
fn saturated_stake(bonds: &Vec<BondTx<Amount>>, v: &EstablishedAddress) -> (r: u128)
    ensures
        r as nat == if stake_of(bonds@, v@) > u128::MAX { u128::MAX as nat } else { stake_of(bonds@, v@) },
{
    let mut s: u128 = 0;
    let mut j: usize = 0;
    while j < bonds.len()
        invariant
            j <= bonds@.len(),
            s as nat == if stake_of(bonds@.take(j as int), v@) > u128::MAX {
                u128::MAX as nat
            } else {
                stake_of(bonds@.take(j as int), v@)
            },
        decreases bonds@.len() - j,
    {
        assert(bonds@.take(j + 1).drop_last() =~= bonds@.take(j as int));
        if bonds[j].validator.same_as(v) {
            s = s.saturating_add(bonds[j].amount.raw);
        }
        j = j + 1;
    }
    assert(bonds@.take(j as int) =~= bonds@);
    s
}

proof fn lemma_power_threshold(s: nat, v: nat)
    requires
        v > 0,
    ensures
        (s * v) / (DEC_ONE as nat) > 0 <==> s >= (DEC_ONE as int + v - 1) / (v as int),
{
    let one = DEC_ONE as int;
    let si = s as int;
    let vi = v as int;
    let c = (one + vi - 1) / vi;
    assert((si * vi) / one > 0 <==> si * vi >= one) by (nonlinear_arith)
        requires
            one > 0,
            si >= 0,
            vi > 0,
    ;
    assert(si * vi >= one <==> si >= c) by (nonlinear_arith)
        requires
            vi > 0,
            one > 0,
            c == (one + vi - 1) / vi,
    ;
}

impl Transactions<BondTx<Amount>> {
    /// Whether the batch has at least one validator.
    pub fn has_at_least_one_validator(&self) -> (r: bool)
        ensures
            r == match self.validator_account {
                Some(v) => v@.len() > 0,
                None => false,
            },
    {
        match &self.validator_account {
            Some(v) => v.len() > 0,
            None => false,
        }
    }

    /// Whether some validator's total bonded stake converts to a positive
    /// voting power at `votes_per_token` votes per token.
    pub fn has_validator_with_positive_voting_power(&self, votes_per_token: Dec) -> (r: bool)
        ensures
            r == match self.bond {
                Some(b) => some_positive_power(b@, votes_per_token),
                None => false,
            },
    {
        match &self.bond {
            None => false,
            Some(bonds) => {
                if votes_per_token.raw == 0 {
                    assert forall|i: int| 0 <= i < bonds@.len() implies !(voting_power(
                        stake_of(bonds@, #[trigger] bonds@[i].validator@),
                        votes_per_token,
                    ) > 0) by {
                        assert(stake_of(bonds@, bonds@[i].validator@) * 0 == 0);
                    }
                    return false;
                }
                let needed: u128 = if votes_per_token.raw >= DEC_ONE {
                    assert((DEC_ONE + votes_per_token.raw - 1) / votes_per_token.raw as int == 1)
                        by (nonlinear_arith)
                        requires
                            votes_per_token.raw >= DEC_ONE,
                    ;
                    1
                } else {
                    (DEC_ONE + votes_per_token.raw - 1) / votes_per_token.raw
                };
                let mut i: usize = 0;
                while i < bonds.len()
                    invariant
                        i <= bonds@.len(),
                        self.bond == Some(*bonds),
                        votes_per_token.raw > 0,
                        needed == (DEC_ONE + votes_per_token.raw - 1) / votes_per_token.raw as int,
                        forall|k: int|
                            0 <= k < i ==> !(voting_power(
                                stake_of(bonds@, #[trigger] bonds@[k].validator@),
                                votes_per_token,
                            ) > 0),
                    decreases bonds@.len() - i,
                {
                    let s = saturated_stake(bonds, &bonds[i].validator);
                    proof {
                        lemma_power_threshold(
                            stake_of(bonds@, bonds@[i as int].validator@),
                            votes_per_token.raw as nat,
                        );
                        assert(needed <= DEC_ONE) by (nonlinear_arith)
                            requires
                                votes_per_token.raw > 0,
                                needed == (DEC_ONE + votes_per_token.raw - 1) / votes_per_token.raw as int,
                        ;
                    }
                    if s >= needed {
                        assert(voting_power(
                            stake_of(bonds@, bonds@[i as int].validator@),
                            votes_per_token,
                        ) > 0);
                        assert(some_positive_power(bonds@, votes_per_token));
                        return true;
                    }
                    i = i + 1;
                }
                false
            },
        }
    }
}

} // verus!
