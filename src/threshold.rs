//! Threshold multisignature verification.

use vstd::prelude::*;

use crate::crypto::{sha256, signature_valid, verify_signature, PublicKey, Signature};
use crate::txs::{bond_payload, key_views, signing_digest, DenominatedAmount, SignedBondTx};

verus! {

broadcast use vstd::seq_lib::group_seq_properties, vstd::set::group_set_axioms, vstd::seq_lib::seq_to_set_is_finite;

/// Why a set of signatures does not authorize a payload.
#[derive(Clone, Copy, Debug, PartialEq, Eq, Structural)]
pub enum VerifySigError {
    /// Fewer distinct keys than the threshold (first) signed; the second is how
    /// many did.
    ThresholdNotMet(u8, u8),
    /// More keys than a key set may hold.
    TooManyKeys,
}

/// The largest number of keys of a key set.
pub const MAX_KEYS: usize = 255;

/// The bytes of each signature of a list.
pub open spec fn sig_views(sigs: Seq<Signature>) -> Seq<Seq<u8>> {
    sigs.map_values(|s: Signature| s@)
}

/// Whether some signature of `sigs` is a valid signature of `msg` under `pk`.
pub open spec fn key_signed(pk: Seq<u8>, sigs: Seq<Seq<u8>>, msg: Seq<u8>) -> bool {
    exists|j: int| 0 <= j < sigs.len() && signature_valid(pk, msg, #[trigger] sigs[j])
}

/// The distinct keys of `keys` that signed `msg`: a key counts once however
/// often it is listed and however many of the signatures it made.
pub open spec fn signed_keys_of(keys: Seq<Seq<u8>>, sigs: Seq<Seq<u8>>, msg: Seq<u8>) -> Set<
    Seq<u8>,
> {
    keys.to_set().filter(|k: Seq<u8>| key_signed(k, sigs, msg))
}

/// How many distinct keys of `keys` signed `msg`.
pub open spec fn signed_count(keys: Seq<Seq<u8>>, sigs: Seq<Seq<u8>>, msg: Seq<u8>) -> nat {
    signed_keys_of(keys, sigs, msg).len()
}

/// The outcome of checking that `threshold` of `keys` signed `msg`.
pub open spec fn threshold_outcome(
    keys: Seq<Seq<u8>>,
    sigs: Seq<Seq<u8>>,
    msg: Seq<u8>,
    threshold: u8,
) -> Result<(), VerifySigError> {
    if keys.len() > MAX_KEYS {
        Err(VerifySigError::TooManyKeys)
    } else if signed_count(keys, sigs, msg) >= threshold {
        Ok(())
    } else {
        Err(VerifySigError::ThresholdNotMet(threshold, signed_count(keys, sigs, msg) as u8))
    }
}

/// Whether some signature of `sigs` is valid for `msg` under `pk`.
fn any_signature_valid(pk: &PublicKey, msg: &[u8], sigs: &Vec<Signature>) -> (r: bool)
    ensures
        r == key_signed(pk@, sig_views(sigs@), msg@),
{
    let mut i: usize = 0;
    while i < sigs.len()
        invariant
            i <= sigs@.len(),
            forall|j: int| 0 <= j < i ==> !signature_valid(pk@, msg@, #[trigger] sig_views(sigs@)[j]),
        decreases sigs@.len() - i,
    {
        if verify_signature(pk, msg, &sigs[i]) {
            assert(signature_valid(pk@, msg@, sig_views(sigs@)[i as int]));
            return true;
        }
        i = i + 1;
    }
    false
}

/// Whether the key at `i` is listed before `i`.
fn listed_before(pks: &[PublicKey], i: usize) -> (r: bool)
    requires
        i < pks@.len(),
    ensures
        r == key_views(pks@).take(i as int).to_set().contains(key_views(pks@)[i as int]),
{
    let ghost keys = key_views(pks@);
    let mut j: usize = 0;
    while j < i
        invariant
            i < pks@.len(),
            keys == key_views(pks@),
            j <= i,
            forall|k: int| 0 <= k < j ==> keys[k] != keys[i as int],
        decreases i - j,
    {
        if pks[j].same_as(&pks[i]) {
            assert(keys.take(i as int)[j as int] == keys[i as int]);
            return true;
        }
        j = j + 1;
    }
    assert forall|k: int| 0 <= k < keys.take(i as int).len() implies keys.take(i as int)[k] != keys[i as int] by {
        assert(keys.take(i as int)[k] == keys[k]);
    }
    false
}

/// Check that at least `threshold` distinct keys of `pks` made a valid
/// signature of `msg` among `signatures`. A key counts once however often it
/// is listed and however many of the signatures it made; a key set of more
/// than [`MAX_KEYS`] keys is refused.
pub fn verify_threshold(
    msg: &[u8],
    signatures: &Vec<Signature>,
    pks: &[PublicKey],
    threshold: u8,
) -> (r: Result<(), VerifySigError>)
    ensures
        r == threshold_outcome(key_views(pks@), sig_views(signatures@), msg@, threshold),
{
    let ghost keys = key_views(pks@);
    let ghost sigs = sig_views(signatures@);
    let ghost p = |k: Seq<u8>| key_signed(k, sigs, msg@);
    if pks.len() > MAX_KEYS {
        return Err(VerifySigError::TooManyKeys);
    }
    let mut valid: u8 = 0;
    let mut i: usize = 0;
    proof {
        assert(keys.take(0).to_set() =~= Set::<Seq<u8>>::empty());
        assert(keys.take(0).to_set().filter(p) =~= Set::<Seq<u8>>::empty());
    }
    while i < pks.len()
        invariant
            pks@.len() <= MAX_KEYS,
            i <= pks@.len(),
            keys == key_views(pks@),
            sigs == sig_views(signatures@),
            p == (|k: Seq<u8>| key_signed(k, sigs, msg@)),
            valid <= i,
            valid as nat == keys.take(i as int).to_set().filter(p).len(),
        ensures
            i == pks@.len() || valid >= threshold,
            i <= pks@.len(),
            valid as nat == keys.take(i as int).to_set().filter(p).len(),
        decreases pks@.len() - i,
    {
        if valid >= threshold {
            break;
        }
        let seen = listed_before(pks, i);
        let ok = if seen {
            false
        } else {
            any_signature_valid(&pks[i], msg, signatures)
        };
        proof {
            let pre = keys.take(i as int);
            let k = keys[i as int];
            assert(keys.take(i + 1) =~= pre.push(k));
            pre.lemma_push_to_set_commute(k);
            pre.to_set().lemma_len_filter(p);
            if pre.to_set().contains(k) {
                assert(pre.to_set().insert(k) =~= pre.to_set());
            } else if p(k) {
                assert(pre.to_set().insert(k).filter(p) =~= pre.to_set().filter(p).insert(k));
                assert(!pre.to_set().filter(p).contains(k));
            } else {
                assert(pre.to_set().insert(k).filter(p) =~= pre.to_set().filter(p));
            }
        }
        if ok {
            valid = valid + 1;
        }
        i = i + 1;
    }
    proof {
        let sub = keys.take(i as int).to_set().filter(p);
        let all = keys.to_set().filter(p);
        assert(sub.subset_of(all)) by {
            assert forall|k: Seq<u8>| sub.contains(k) implies all.contains(k) by {
                let j = choose|j: int| 0 <= j < keys.take(i as int).len() && keys.take(i as int)[j] == k;
                assert(keys[j] == k);
            }
        }
        keys.to_set().lemma_len_filter(p);
        vstd::set_lib::lemma_len_subset(sub, all);
        if i == pks@.len() {
            assert(keys.take(i as int) =~= keys);
        }
    }
    if valid >= threshold {
        Ok(())
    } else {
        Err(VerifySigError::ThresholdNotMet(threshold, valid))
    }
}

impl SignedBondTx<DenominatedAmount> {
    /// Check that at least `threshold` of `pks` signed this bond.
    pub fn verify_sig(&self, pks: &[PublicKey], threshold: u8) -> (r: Result<(), VerifySigError>)
        ensures
            r == threshold_outcome(
                key_views(pks@),
                sig_views(self.signatures@),
                signing_digest(bond_payload(self.data)),
                threshold,
            ),
    {
        let payload = self.data.data_to_sign();
        let digest = sha256(payload.as_slice());
        verify_threshold(digest.as_slice(), &self.signatures, pks, threshold)
    }
}

/// Reordering or repeating keys, or reordering and repeating signatures,
/// never changes the outcome of threshold verification: it depends on the
/// keys as a set (and on whether too many are listed) and on the signatures
/// as a set.
pub proof fn lemma_threshold_order_independent(
    keys1: Seq<Seq<u8>>,
    keys2: Seq<Seq<u8>>,
    sigs1: Seq<Seq<u8>>,
    sigs2: Seq<Seq<u8>>,
    msg: Seq<u8>,
    threshold: u8,
)
    requires
        keys1.to_set() == keys2.to_set(),
        (keys1.len() > MAX_KEYS) == (keys2.len() > MAX_KEYS),
        sigs1.to_set() == sigs2.to_set(),
    ensures
        threshold_outcome(keys1, sigs1, msg, threshold) == threshold_outcome(
            keys2,
            sigs2,
            msg,
            threshold,
        ),
{
    let pred1 = |k: Seq<u8>| key_signed(k, sigs1, msg);
    let pred2 = |k: Seq<u8>| key_signed(k, sigs2, msg);
    assert forall|k: Seq<u8>| #[trigger] pred1(k) == pred2(k) by {
        if key_signed(k, sigs1, msg) {
            let j = choose|j: int| 0 <= j < sigs1.len() && signature_valid(k, msg, #[trigger] sigs1[j]);
            assert(sigs1.to_set().contains(sigs1[j]));
            assert(sigs2.to_set().contains(sigs1[j]));
        }
        if key_signed(k, sigs2, msg) {
            let j = choose|j: int| 0 <= j < sigs2.len() && signature_valid(k, msg, #[trigger] sigs2[j]);
            assert(sigs2.to_set().contains(sigs2[j]));
            assert(sigs1.to_set().contains(sigs2[j]));
        }
    }
    assert(pred1 =~= pred2);
}

} // verus!
