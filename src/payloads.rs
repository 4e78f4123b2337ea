//! What the canonical payloads determine: equal content gives equal
//! payloads, and, while every length fits its prefix, equal payloads come
//! only from equal content. An address or a signature is made over such a
//! payload, so changing a signed field changes what was signed.

use vstd::prelude::*;
use vstd::utf8::encode_utf8;

use crate::encoding::{
    enc_blob, enc_len, enc_opt_str, enc_str, fits_len, le_bytes, lemma_le_bytes_injective,
    lemma_le_bytes_len, lemma_split, lemma_split_blob, lemma_split_opt_str, lemma_split_str, pow256,
};
use crate::txs::{
    account_address, account_payload, account_salt, bond_payload, key_views, keys_body,
    metadata_payload, opt_str, role_keys_payload, validator_head, validator_payload_with,
    BondTx, DenominatedAmount, EstablishedAccountTx, GenesisAddressView, ValidatorAccountTx,
    ValidatorMetaData,
};

verus! {

/// Address derivation is deterministic: transactions with the same validity
/// predicate, threshold and keys derive the same address.
pub proof fn lemma_address_deterministic(a: EstablishedAccountTx, b: EstablishedAccountTx)
    requires
        a.vp@ == b.vp@,
        a.threshold == b.threshold,
        key_views(a.public_keys@) == key_views(b.public_keys@),
    ensures
        account_address(a) == account_address(b),
{
}

proof fn lemma_keys_body_injective(a: Seq<Seq<u8>>, b: Seq<Seq<u8>>, x: Seq<u8>, y: Seq<u8>)
    requires
        a.len() == b.len(),
        forall|i: int| 0 <= i < a.len() ==> fits_len((#[trigger] a[i]).len()),
        forall|i: int| 0 <= i < b.len() ==> fits_len((#[trigger] b[i]).len()),
        keys_body(a) + x == keys_body(b) + y,
    ensures
        a == b,
        x == y,
    decreases a.len(),
{
    if a.len() == 0 {
        assert(keys_body(a) + x =~= x);
        assert(keys_body(b) + y =~= y);
        assert(a =~= b);
    } else {
        let ra = a.drop_first();
        let rb = b.drop_first();
        assert(keys_body(a) + x =~= enc_blob(a[0]) + (keys_body(ra) + x));
        assert(keys_body(b) + y =~= enc_blob(b[0]) + (keys_body(rb) + y));
        lemma_split_blob(a[0], b[0], keys_body(ra) + x, keys_body(rb) + y);
        assert forall|i: int| 0 <= i < ra.len() implies fits_len((#[trigger] ra[i]).len()) by {
            assert(ra[i] == a[i + 1]);
        }
        assert forall|i: int| 0 <= i < rb.len() implies fits_len((#[trigger] rb[i]).len()) by {
            assert(rb[i] == b[i + 1]);
        }
        lemma_keys_body_injective(ra, rb, x, y);
        assert(a =~= seq![a[0]] + ra);
        assert(b =~= seq![b[0]] + rb);
    }
}

/// Every length in the encoding of an established-account transaction fits
/// its prefix.
pub open spec fn account_lengths_fit(tx: EstablishedAccountTx) -> bool {
    &&& fits_len(encode_utf8(tx.vp@).len())
    &&& fits_len(tx.public_keys@.len())
    &&& forall|i: int| 0 <= i < tx.public_keys@.len() ==> fits_len((#[trigger] tx.public_keys@[i])@.len())
}

/// Distinct established-account transactions derive their addresses from
/// distinct digest inputs: the salted encoding determines the validity
/// predicate, the threshold and the keys.
pub proof fn lemma_account_input_injective(a: EstablishedAccountTx, b: EstablishedAccountTx)
    requires
        account_lengths_fit(a),
        account_lengths_fit(b),
        account_salt() + account_payload(a) == account_salt() + account_payload(b),
    ensures
        a.vp@ == b.vp@,
        a.threshold == b.threshold,
        key_views(a.public_keys@) == key_views(b.public_keys@),
{
    let ka = key_views(a.public_keys@);
    let kb = key_views(b.public_keys@);
    lemma_split(account_salt(), account_salt(), account_payload(a), account_payload(b));
    let ra = seq![a.threshold] + (enc_len(ka.len()) + (keys_body(ka) + Seq::<u8>::empty()));
    let rb = seq![b.threshold] + (enc_len(kb.len()) + (keys_body(kb) + Seq::<u8>::empty()));
    assert(account_payload(a) =~= enc_str(a.vp@) + ra);
    assert(account_payload(b) =~= enc_str(b.vp@) + rb);
    lemma_split_str(a.vp@, b.vp@, ra, rb);
    lemma_split(seq![a.threshold], seq![b.threshold], enc_len(ka.len()) + (keys_body(ka) + Seq::<u8>::empty()), enc_len(kb.len()) + (keys_body(kb) + Seq::<u8>::empty()));
    assert(seq![a.threshold][0] == seq![b.threshold][0]);
    lemma_le_bytes_len(ka.len(), 8);
    lemma_le_bytes_len(kb.len(), 8);
    lemma_split(enc_len(ka.len()), enc_len(kb.len()), keys_body(ka) + Seq::<u8>::empty(), keys_body(kb) + Seq::<u8>::empty());
    lemma_le_bytes_injective(ka.len(), kb.len(), 8);
    assert forall|i: int| 0 <= i < ka.len() implies fits_len((#[trigger] ka[i]).len()) by {
        assert(ka[i] == a.public_keys@[i]@);
    }
    assert forall|i: int| 0 <= i < kb.len() implies fits_len((#[trigger] kb[i]).len()) by {
        assert(kb[i] == b.public_keys@[i]@);
    }
    lemma_keys_body_injective(ka, kb, Seq::<u8>::empty(), Seq::<u8>::empty());
}

/// Every length in the encoding of a bond fits its prefix.
pub open spec fn bond_lengths_fit(b: BondTx<DenominatedAmount>) -> bool {
    &&& fits_len(
        match b.source@ {
            GenesisAddressView::Established(h) => h.len(),
            GenesisAddressView::Implicit(k) => k.len(),
        },
    )
    &&& fits_len(b.validator@.len())
}

proof fn lemma_pow256_16()
    ensures
        pow256(16) == 0x1_0000_0000_0000_0000_0000_0000_0000_0000,
{
    reveal_with_fuel(pow256, 17);
}

/// Any change to a signed field of a bond changes the bytes that its
/// signers sign: the payload determines the source, the validator and the
/// amount.
pub proof fn lemma_bond_payload_injective(a: BondTx<DenominatedAmount>, b: BondTx<DenominatedAmount>)
    requires
        bond_lengths_fit(a),
        bond_lengths_fit(b),
        bond_payload(a) == bond_payload(b),
    ensures
        a.source@ == b.source@,
        a.validator@ == b.validator@,
        a.amount == b.amount,
{
    let (ta, ha) = match a.source@ {
        GenesisAddressView::Established(h) => (0u8, h),
        GenesisAddressView::Implicit(k) => (1u8, k),
    };
    let (tb, hb) = match b.source@ {
        GenesisAddressView::Established(h) => (0u8, h),
        GenesisAddressView::Implicit(k) => (1u8, k),
    };
    let tail_a = enc_blob(a.validator@) + (le_bytes(a.amount.amount as nat, 16) + seq![a.amount.denom]);
    let tail_b = enc_blob(b.validator@) + (le_bytes(b.amount.amount as nat, 16) + seq![b.amount.denom]);
    assert(bond_payload(a) =~= seq![ta] + (enc_blob(ha) + tail_a));
    assert(bond_payload(b) =~= seq![tb] + (enc_blob(hb) + tail_b));
    lemma_split(seq![ta], seq![tb], enc_blob(ha) + tail_a, enc_blob(hb) + tail_b);
    assert(seq![ta][0] == seq![tb][0]);
    lemma_split_blob(ha, hb, tail_a, tail_b);
    lemma_split_blob(
        a.validator@,
        b.validator@,
        le_bytes(a.amount.amount as nat, 16) + seq![a.amount.denom],
        le_bytes(b.amount.amount as nat, 16) + seq![b.amount.denom],
    );
    lemma_le_bytes_len(a.amount.amount as nat, 16);
    lemma_le_bytes_len(b.amount.amount as nat, 16);
    lemma_split(
        le_bytes(a.amount.amount as nat, 16),
        le_bytes(b.amount.amount as nat, 16),
        seq![a.amount.denom],
        seq![b.amount.denom],
    );
    assert(seq![a.amount.denom][0] == seq![b.amount.denom][0]);
    lemma_pow256_16();
    lemma_le_bytes_injective(a.amount.amount as nat, b.amount.amount as nat, 16);
}

/// Every length in the encoding of a validator transaction with the role
/// keys `keys` fits its prefix.
pub open spec fn validator_lengths_fit<PK>(tx: ValidatorAccountTx<PK>, keys: Seq<Seq<u8>>) -> bool {
    &&& keys.len() == 5
    &&& forall|i: int| 0 <= i < 5 ==> fits_len((#[trigger] keys[i]).len())
    &&& fits_len(tx.address@.len())
    &&& fits_len(encode_utf8(tx.vp@).len())
    &&& fits_len(tx.net_address.ip@.len())
    &&& fits_len(encode_utf8(tx.metadata.email@).len())
    &&& opt_str(tx.metadata.description) matches Some(t) ==> fits_len(encode_utf8(t).len())
    &&& opt_str(tx.metadata.website) matches Some(t) ==> fits_len(encode_utf8(t).len())
    &&& opt_str(tx.metadata.discord_handle) matches Some(t) ==> fits_len(encode_utf8(t).len())
}

proof fn lemma_pow256_2()
    ensures
        pow256(2) == 0x1_0000,
{
    reveal_with_fuel(pow256, 3);
}

proof fn lemma_head_split<PK>(a: ValidatorAccountTx<PK>, b: ValidatorAccountTx<PK>, x: Seq<u8>, y: Seq<u8>)
    requires
        fits_len(a.address@.len()),
        fits_len(encode_utf8(a.vp@).len()),
        fits_len(a.net_address.ip@.len()),
        fits_len(b.address@.len()),
        fits_len(encode_utf8(b.vp@).len()),
        fits_len(b.net_address.ip@.len()),
        validator_head(a) + x == validator_head(b) + y,
    ensures
        a.address@ == b.address@,
        a.vp@ == b.vp@,
        a.commission_rate == b.commission_rate,
        a.max_commission_rate_change == b.max_commission_rate_change,
        a.net_address.ip@ == b.net_address.ip@,
        a.net_address.port == b.net_address.port,
        x == y,
{
    let a6 = le_bytes(a.net_address.port as nat, 2) + x;
    let a5 = enc_blob(a.net_address.ip@) + a6;
    let a4 = le_bytes(a.max_commission_rate_change.raw as nat, 16) + a5;
    let a3 = le_bytes(a.commission_rate.raw as nat, 16) + a4;
    let a2 = enc_str(a.vp@) + a3;
    let b6 = le_bytes(b.net_address.port as nat, 2) + y;
    let b5 = enc_blob(b.net_address.ip@) + b6;
    let b4 = le_bytes(b.max_commission_rate_change.raw as nat, 16) + b5;
    let b3 = le_bytes(b.commission_rate.raw as nat, 16) + b4;
    let b2 = enc_str(b.vp@) + b3;
    assert(validator_head(a) + x =~= enc_blob(a.address@) + a2);
    assert(validator_head(b) + y =~= enc_blob(b.address@) + b2);
    lemma_split_blob(a.address@, b.address@, a2, b2);
    lemma_split_str(a.vp@, b.vp@, a3, b3);
    lemma_le_bytes_len(a.commission_rate.raw as nat, 16);
    lemma_le_bytes_len(b.commission_rate.raw as nat, 16);
    lemma_split(le_bytes(a.commission_rate.raw as nat, 16), le_bytes(b.commission_rate.raw as nat, 16), a4, b4);
    lemma_le_bytes_len(a.max_commission_rate_change.raw as nat, 16);
    lemma_le_bytes_len(b.max_commission_rate_change.raw as nat, 16);
    lemma_split(
        le_bytes(a.max_commission_rate_change.raw as nat, 16),
        le_bytes(b.max_commission_rate_change.raw as nat, 16),
        a5,
        b5,
    );
    lemma_pow256_16();
    lemma_le_bytes_injective(a.commission_rate.raw as nat, b.commission_rate.raw as nat, 16);
    lemma_le_bytes_injective(
        a.max_commission_rate_change.raw as nat,
        b.max_commission_rate_change.raw as nat,
        16,
    );
    lemma_split_blob(a.net_address.ip@, b.net_address.ip@, a6, b6);
    lemma_le_bytes_len(a.net_address.port as nat, 2);
    lemma_le_bytes_len(b.net_address.port as nat, 2);
    lemma_split(le_bytes(a.net_address.port as nat, 2), le_bytes(b.net_address.port as nat, 2), x, y);
    lemma_pow256_2();
    lemma_le_bytes_injective(a.net_address.port as nat, b.net_address.port as nat, 2);
    assert(a.commission_rate.raw == b.commission_rate.raw);
    assert(a.max_commission_rate_change.raw == b.max_commission_rate_change.raw);
}

proof fn lemma_role_keys_split(ka: Seq<Seq<u8>>, kb: Seq<Seq<u8>>, x: Seq<u8>, y: Seq<u8>)
    requires
        ka.len() == 5,
        kb.len() == 5,
        forall|i: int| 0 <= i < 5 ==> fits_len((#[trigger] ka[i]).len()),
        forall|i: int| 0 <= i < 5 ==> fits_len((#[trigger] kb[i]).len()),
        role_keys_payload(ka) + x == role_keys_payload(kb) + y,
    ensures
        ka == kb,
        x == y,
{
    let a4 = enc_blob(ka[4]) + x;
    let a3 = enc_blob(ka[3]) + a4;
    let a2 = enc_blob(ka[2]) + a3;
    let a1 = enc_blob(ka[1]) + a2;
    let b4 = enc_blob(kb[4]) + y;
    let b3 = enc_blob(kb[3]) + b4;
    let b2 = enc_blob(kb[2]) + b3;
    let b1 = enc_blob(kb[1]) + b2;
    assert(role_keys_payload(ka) + x =~= enc_blob(ka[0]) + a1);
    assert(role_keys_payload(kb) + y =~= enc_blob(kb[0]) + b1);
    assert(fits_len(ka[0].len()) && fits_len(ka[1].len()) && fits_len(ka[2].len()) && fits_len(ka[3].len()) && fits_len(ka[4].len()));
    assert(fits_len(kb[0].len()) && fits_len(kb[1].len()) && fits_len(kb[2].len()) && fits_len(kb[3].len()) && fits_len(kb[4].len()));
    lemma_split_blob(ka[0], kb[0], a1, b1);
    lemma_split_blob(ka[1], kb[1], a2, b2);
    lemma_split_blob(ka[2], kb[2], a3, b3);
    lemma_split_blob(ka[3], kb[3], a4, b4);
    lemma_split_blob(ka[4], kb[4], x, y);
    assert(ka =~= kb);
}

#[verifier::rlimit(40)]
proof fn lemma_metadata_split(a: ValidatorMetaData, b: ValidatorMetaData)
    requires
        fits_len(encode_utf8(a.email@).len()),
        opt_str(a.description) matches Some(t) ==> fits_len(encode_utf8(t).len()),
        opt_str(a.website) matches Some(t) ==> fits_len(encode_utf8(t).len()),
        opt_str(a.discord_handle) matches Some(t) ==> fits_len(encode_utf8(t).len()),
        fits_len(encode_utf8(b.email@).len()),
        opt_str(b.description) matches Some(t) ==> fits_len(encode_utf8(t).len()),
        opt_str(b.website) matches Some(t) ==> fits_len(encode_utf8(t).len()),
        opt_str(b.discord_handle) matches Some(t) ==> fits_len(encode_utf8(t).len()),
        metadata_payload(a) == metadata_payload(b),
    ensures
        a.email@ == b.email@,
        opt_str(a.description) == opt_str(b.description),
        opt_str(a.website) == opt_str(b.website),
        opt_str(a.discord_handle) == opt_str(b.discord_handle),
{
    let e = Seq::<u8>::empty();
    let a3 = enc_opt_str(opt_str(a.discord_handle)) + e;
    let a2 = enc_opt_str(opt_str(a.website)) + a3;
    let a1 = enc_opt_str(opt_str(a.description)) + a2;
    let b3 = enc_opt_str(opt_str(b.discord_handle)) + e;
    let b2 = enc_opt_str(opt_str(b.website)) + b3;
    let b1 = enc_opt_str(opt_str(b.description)) + b2;
    assert(metadata_payload(a) =~= enc_str(a.email@) + a1);
    assert(metadata_payload(b) =~= enc_str(b.email@) + b1);
    lemma_split_str(a.email@, b.email@, a1, b1);
    lemma_split_opt_str(opt_str(a.description), opt_str(b.description), a2, b2);
    lemma_split_opt_str(opt_str(a.website), opt_str(b.website), a3, b3);
    lemma_split_opt_str(opt_str(a.discord_handle), opt_str(b.discord_handle), e, e);
}

/// Any change to a field of a validator transaction, or to one of its role
/// keys, changes the bytes that the role keys sign.
pub proof fn lemma_validator_payload_injective<PK>(
    a: ValidatorAccountTx<PK>,
    ka: Seq<Seq<u8>>,
    b: ValidatorAccountTx<PK>,
    kb: Seq<Seq<u8>>,
)
    requires
        validator_lengths_fit(a, ka),
        validator_lengths_fit(b, kb),
        validator_payload_with(a, ka) == validator_payload_with(b, kb),
    ensures
        a.address@ == b.address@,
        a.vp@ == b.vp@,
        a.commission_rate == b.commission_rate,
        a.max_commission_rate_change == b.max_commission_rate_change,
        a.net_address.ip@ == b.net_address.ip@,
        a.net_address.port == b.net_address.port,
        ka == kb,
        a.metadata.email@ == b.metadata.email@,
        opt_str(a.metadata.description) == opt_str(b.metadata.description),
        opt_str(a.metadata.website) == opt_str(b.metadata.website),
        opt_str(a.metadata.discord_handle) == opt_str(b.metadata.discord_handle),
{
    let xa = role_keys_payload(ka) + metadata_payload(a.metadata);
    let xb = role_keys_payload(kb) + metadata_payload(b.metadata);
    assert(validator_payload_with(a, ka) =~= validator_head(a) + xa);
    assert(validator_payload_with(b, kb) =~= validator_head(b) + xb);
    lemma_head_split(a, b, xa, xb);
    lemma_role_keys_split(ka, kb, metadata_payload(a.metadata), metadata_payload(b.metadata));
    lemma_metadata_split(a.metadata, b.metadata);
}

} // verus!
