//! The canonical byte encoding that addresses are derived from and that
//! signatures are made over.
//!
//! Integers are little-endian and of fixed width; a byte string is its length
//! as eight bytes followed by its bytes; a text is its UTF-8 bytes, encoded as
//! a byte string.

use vstd::prelude::*;
use vstd::utf8::encode_utf8;

verus! {

/// The `k` low-order bytes of `n`, least significant first.
pub open spec fn le_bytes(n: nat, k: nat) -> Seq<u8>
    decreases k,
{
    if k == 0 {
        Seq::empty()
    } else {
        seq![(n % 256) as u8] + le_bytes(n / 256, (k - 1) as nat)
    }
}

/// A length prefix: eight little-endian bytes.
pub open spec fn enc_len(n: nat) -> Seq<u8> {
    le_bytes(n, 8)
}

/// A byte string: its length, then its bytes.
pub open spec fn enc_blob(b: Seq<u8>) -> Seq<u8> {
    enc_len(b.len()) + b
}

/// A text: its UTF-8 bytes as a byte string.
pub open spec fn enc_str(s: Seq<char>) -> Seq<u8> {
    enc_blob(encode_utf8(s))
}

/// An optional text: a tag byte, then the text if there is one.
pub open spec fn enc_opt_str(s: Option<Seq<char>>) -> Seq<u8> {
    match s {
        Some(t) => seq![1u8] + enc_str(t),
        None => seq![0u8],
    }
}

/// Append the `k` low-order bytes of `n`, least significant first.
pub fn push_le(out: &mut Vec<u8>, n: u128, k: usize)
    ensures
        final(out)@ == old(out)@ + le_bytes(n as nat, k as nat),
{
    let mut v: u128 = n;
    let mut i: usize = 0;
    while i < k
        invariant
            i <= k,
            old(out)@ + le_bytes(n as nat, k as nat) == out@ + le_bytes(v as nat, (k - i) as nat),
        decreases k - i,
    {
        let ghost before = out@;
        out.push((v % 256) as u8);
        assert(le_bytes(v as nat, (k - i) as nat) == seq![(v % 256) as u8] + le_bytes(
            (v / 256) as nat,
            (k - i - 1) as nat,
        ));
        assert(out@ == before + seq![(v % 256) as u8]);
        v = v / 256;
        i = i + 1;
        assert(before + (seq![out@.last()] + le_bytes(v as nat, (k - i) as nat)) =~= out@
            + le_bytes(v as nat, (k - i) as nat));
    }
    assert(out@ + le_bytes(v as nat, 0) =~= out@);
}

/// Append the bytes of `b` as they are.
pub fn push_bytes(out: &mut Vec<u8>, b: &[u8])
    ensures
        final(out)@ == old(out)@ + b@,
{
    let mut i: usize = 0;
    while i < b.len()
        invariant
            i <= b@.len(),
            out@ == old(out)@ + b@.take(i as int),
        decreases b@.len() - i,
    {
        out.push(b[i]);
        i = i + 1;
        assert(out@ =~= old(out)@ + b@.take(i as int));
    }
    assert(b@.take(b@.len() as int) =~= b@);
}

/// Append a byte string: its length, then its bytes.
pub fn push_blob(out: &mut Vec<u8>, b: &[u8])
    ensures
        final(out)@ == old(out)@ + enc_blob(b@),
{
    push_le(out, b.len() as u128, 8);
    push_bytes(out, b);
    assert(out@ =~= old(out)@ + enc_blob(b@));
}

/// Append a text as its UTF-8 bytes.
pub fn push_str(out: &mut Vec<u8>, s: &String)
    ensures
        final(out)@ == old(out)@ + enc_str(s@),
{
    push_blob(out, s.as_str().as_bytes());
}

/// Append an optional text.
pub fn push_opt_str(out: &mut Vec<u8>, s: &Option<String>)
    ensures
        final(out)@ == old(out)@ + enc_opt_str(
            match s {
                Some(t) => Some(t@),
                None => None,
            },
        ),
{
    match s {
        Some(t) => {
            out.push(1u8);
            push_str(out, t);
            assert(out@ =~= old(out)@ + (seq![1u8] + enc_str(t@)));
        },
        None => {
            out.push(0u8);
            assert(out@ =~= old(out)@ + seq![0u8]);
        },
    }
}

/// 256 to the power `k`.
pub open spec fn pow256(k: nat) -> nat
    decreases k,
{
    if k == 0 {
        1
    } else {
        256 * pow256((k - 1) as nat)
    }
}

/// A length that a length prefix holds exactly.
pub open spec fn fits_len(n: nat) -> bool {
    n < pow256(8)
}

/// `le_bytes` gives exactly `k` bytes.
pub proof fn lemma_le_bytes_len(n: nat, k: nat)
    ensures
        le_bytes(n, k).len() == k,
    decreases k,
{
    if k > 0 {
        lemma_le_bytes_len(n / 256, (k - 1) as nat);
    }
}

/// Numbers below `256^k` have distinct `k`-byte encodings.
pub proof fn lemma_le_bytes_injective(n: nat, m: nat, k: nat)
    requires
        n < pow256(k),
        m < pow256(k),
        le_bytes(n, k) == le_bytes(m, k),
    ensures
        n == m,
    decreases k,
{
    if k == 0 {
        assert(pow256(0) == 1);
    } else {
        let p = pow256((k - 1) as nat);
        let tn = le_bytes(n / 256, (k - 1) as nat);
        let tm = le_bytes(m / 256, (k - 1) as nat);
        assert(le_bytes(n, k) == seq![(n % 256) as u8] + tn);
        assert(le_bytes(m, k) == seq![(m % 256) as u8] + tm);
        assert(le_bytes(n, k)[0] == (n % 256) as u8);
        assert(le_bytes(m, k)[0] == (m % 256) as u8);
        assert(n % 256 == m % 256);
        assert(tn =~= le_bytes(n, k).drop_first());
        assert(tm =~= le_bytes(m, k).drop_first());
        assert(n / 256 < p && m / 256 < p) by (nonlinear_arith)
            requires
                n < 256 * p,
                m < 256 * p,
        ;
        lemma_le_bytes_injective(n / 256, m / 256, (k - 1) as nat);
        assert(n == 256 * (n / 256) + n % 256 && m == 256 * (m / 256) + m % 256) by (nonlinear_arith);
    }
}

/// Two concatenations with equal-length first parts are equal only part by
/// part.
pub proof fn lemma_split(head1: Seq<u8>, head2: Seq<u8>, x: Seq<u8>, y: Seq<u8>)
    requires
        head1.len() == head2.len(),
        head1 + x == head2 + y,
    ensures
        head1 == head2,
        x == y,
{
    assert(head1 =~= (head1 + x).take(head1.len() as int));
    assert(head2 =~= (head2 + y).take(head2.len() as int));
    assert(x =~= (head1 + x).skip(head1.len() as int));
    assert(y =~= (head2 + y).skip(head2.len() as int));
}

/// A byte string is read back from the front of an encoding.
pub proof fn lemma_split_blob(b1: Seq<u8>, b2: Seq<u8>, x: Seq<u8>, y: Seq<u8>)
    requires
        fits_len(b1.len()),
        fits_len(b2.len()),
        enc_blob(b1) + x == enc_blob(b2) + y,
    ensures
        b1 == b2,
        x == y,
{
    lemma_le_bytes_len(b1.len(), 8);
    lemma_le_bytes_len(b2.len(), 8);
    assert(enc_blob(b1) + x =~= enc_len(b1.len()) + (b1 + x));
    assert(enc_blob(b2) + y =~= enc_len(b2.len()) + (b2 + y));
    lemma_split(enc_len(b1.len()), enc_len(b2.len()), b1 + x, b2 + y);
    lemma_le_bytes_injective(b1.len(), b2.len(), 8);
    lemma_split(b1, b2, x, y);
}

/// A text is read back from the front of an encoding.
pub proof fn lemma_split_str(s1: Seq<char>, s2: Seq<char>, x: Seq<u8>, y: Seq<u8>)
    requires
        fits_len(encode_utf8(s1).len()),
        fits_len(encode_utf8(s2).len()),
        enc_str(s1) + x == enc_str(s2) + y,
    ensures
        s1 == s2,
        x == y,
{
    lemma_split_blob(encode_utf8(s1), encode_utf8(s2), x, y);
    vstd::utf8::encode_utf8_decode_utf8(s1);
    vstd::utf8::encode_utf8_decode_utf8(s2);
}

/// An optional text is read back from the front of an encoding.
pub proof fn lemma_split_opt_str(
    s1: Option<Seq<char>>,
    s2: Option<Seq<char>>,
    x: Seq<u8>,
    y: Seq<u8>,
)
    requires
        s1 matches Some(t) ==> fits_len(encode_utf8(t).len()),
        s2 matches Some(t) ==> fits_len(encode_utf8(t).len()),
        enc_opt_str(s1) + x == enc_opt_str(s2) + y,
    ensures
        s1 == s2,
        x == y,
{
    let r1 = match s1 {
        Some(t) => enc_str(t) + x,
        None => x,
    };
    let r2 = match s2 {
        Some(t) => enc_str(t) + y,
        None => y,
    };
    let g1: u8 = if s1 is Some { 1 } else { 0 };
    let g2: u8 = if s2 is Some { 1 } else { 0 };
    assert(enc_opt_str(s1) + x =~= seq![g1] + r1);
    assert(enc_opt_str(s2) + y =~= seq![g2] + r2);
    lemma_split(seq![g1], seq![g2], r1, r2);
    assert(seq![g1][0] == seq![g2][0]);
    if let (Some(t1), Some(t2)) = (s1, s2) {
        lemma_split_str(t1, t2, x, y);
    }
}

} // verus!
