//! Canonical byte encodings: big-endian 32-bit words, decimal rendering of
//! nonce identifiers, and the canonical (injective) encoding of attestations
//! that serves as their content address.

use vstd::prelude::*;

use crate::entries::Attestation;
use crate::types::EntryHash;
use crate::types::AGENT_KEY_LEN;

verus! {

/// The four big-endian bytes of a 32-bit word.
pub open spec fn spec_u32_be(n: u32) -> Seq<u8> {
    seq![
        (n >> 24) as u8,
        ((n >> 16) & 0xFF) as u8,
        ((n >> 8) & 0xFF) as u8,
        (n & 0xFF) as u8,
    ]
}

/// The 32-bit word read from the first four bytes of `s`, most significant
/// byte first.
pub open spec fn spec_as_u32_be(s: Seq<u8>) -> u32
    recommends
        s.len() >= 4,
{
    ((s[0] as u32) << 24) | ((s[1] as u32) << 16) | ((s[2] as u32) << 8) | (s[3] as u32)
}

/// Emits the four big-endian bytes of `n`.
pub fn u32_be_bytes(n: u32) -> (r: Vec<u8>)
    ensures
        r@ == spec_u32_be(n),
{
    let mut r: Vec<u8> = Vec::new();
    r.push((n >> 24) as u8);
    r.push(((n >> 16) & 0xFF) as u8);
    r.push(((n >> 8) & 0xFF) as u8);
    r.push((n & 0xFF) as u8);
    proof {
        assert(r@ =~= spec_u32_be(n));
    }
    r
}

/// Reads a 32-bit word from the first four bytes of `array`, most
/// significant byte first.
pub fn as_u32_be(array: &Vec<u8>) -> (r: u32)
    requires
        array@.len() >= 4,
    ensures
        r == spec_as_u32_be(array@),
{
    let b0 = array[0];
    let b1 = array[1];
    let b2 = array[2];
    let b3 = array[3];
    ((b0 as u32) << 24) | ((b1 as u32) << 16) | ((b2 as u32) << 8) | (b3 as u32)
}

/// Reading back the four big-endian bytes of a word yields the word.
pub proof fn lemma_u32_be_round_trip(n: u32)
    ensures
        spec_as_u32_be(spec_u32_be(n)) == n,
{
    let b0: u8 = (n >> 24) as u8;
    let b1: u8 = ((n >> 16) & 0xFF) as u8;
    let b2: u8 = ((n >> 8) & 0xFF) as u8;
    let b3: u8 = (n & 0xFF) as u8;
    assert(((b0 as u32) << 24) | ((b1 as u32) << 16) | ((b2 as u32) << 8) | (b3 as u32) == n)
        by (bit_vector)
        requires
            b0 == (n >> 24) as u8,
            b1 == ((n >> 16) & 0xFF) as u8,
            b2 == ((n >> 8) & 0xFF) as u8,
            b3 == (n & 0xFF) as u8,
    ;
}

/// Two words with the same big-endian bytes are the same word.
pub proof fn lemma_u32_be_injective(a: u32, b: u32)
    requires
        spec_u32_be(a) == spec_u32_be(b),
    ensures
        a == b,
{
    lemma_u32_be_round_trip(a);
    lemma_u32_be_round_trip(b);
}

/// The decimal digits of `n`, as ASCII bytes, most significant first.
pub open spec fn spec_decimal(n: nat) -> Seq<u8>
    decreases n,
{
    if n < 10 {
        seq![(48 + n) as u8]
    } else {
        spec_decimal(n / 10).push((48 + n % 10) as u8)
    }
}

/// Renders `n` in decimal, as ASCII bytes.  This is how a nonce identifier
/// becomes attestation content.
pub fn u32_to_decimal(n: u32) -> (r: Vec<u8>)
    ensures
        r@ == spec_decimal(n as nat),
    decreases n,
{
    if n < 10 {
        let mut r: Vec<u8> = Vec::new();
        r.push(48 + (n as u8));
        proof {
            assert(r@ =~= spec_decimal(n as nat));
        }
        r
    } else {
        let mut r = u32_to_decimal(n / 10);
        r.push(48 + ((n % 10) as u8));
        proof {
            assert(r@ =~= spec_decimal(n as nat));
        }
        r
    }
}

/// Ten to the `k`, for digit-count bounds.
spec fn pow10(k: nat) -> nat
    decreases k,
{
    if k == 0 {
        1
    } else {
        10 * pow10((k - 1) as nat)
    }
}

/// A word below `10^k` has at most `k` digits (and at least one).
proof fn lemma_decimal_len_bound(n: nat, k: nat)
    requires
        k >= 1,
        n < pow10(k),
    ensures
        1 <= spec_decimal(n).len() <= k,
    decreases n,
{
    if n >= 10 {
        assert(pow10(k) == 10 * pow10((k - 1) as nat));
        if k == 1 {
            assert(pow10(0nat) == 1);
            assert(false);
        }
        let p = pow10((k - 1) as nat);
        assert(n / 10 < p) by (nonlinear_arith)
            requires
                n < 10 * p,
                p >= 1,
        ;
        lemma_decimal_len_bound(n / 10, (k - 1) as nat);
    }
}

/// A decimal rendering is never empty, and a 32-bit word never needs more
/// than ten digits.
pub proof fn lemma_decimal_len(n: nat)
    ensures
        1 <= spec_decimal(n).len(),
        n <= u32::MAX ==> spec_decimal(n).len() <= 10,
    decreases n,
{
    if n <= u32::MAX {
        assert(pow10(0nat) == 1);
        assert(pow10(1nat) == 10);
        assert(pow10(2nat) == 100);
        assert(pow10(3nat) == 1000);
        assert(pow10(4nat) == 10000);
        assert(pow10(5nat) == 100000);
        assert(pow10(6nat) == 1000000);
        assert(pow10(7nat) == 10000000);
        assert(pow10(8nat) == 100000000);
        assert(pow10(9nat) == 1000000000);
        assert(pow10(10nat) == 10000000000);
        lemma_decimal_len_bound(n, 10);
    } else {
        if n >= 10 {
            lemma_decimal_len(n / 10);
        }
    }
}

/// Whether an attestation's mathematical image can be canonically encoded:
/// the content must fit a 32-bit length prefix and the subject key must have
/// the raw key length.
pub open spec fn wf_attestation_view(content: Seq<u8>, about: Seq<u8>) -> bool {
    &&& content.len() <= u32::MAX
    &&& about.len() == AGENT_KEY_LEN
}

/// The canonical encoding of an attestation: the length-prefixed content
/// followed by the length-prefixed subject key.
pub open spec fn spec_encode_attestation(content: Seq<u8>, about: Seq<u8>) -> Seq<u8>
    recommends
        wf_attestation_view(content, about),
{
    spec_u32_be(content.len() as u32) + content + spec_u32_be(about.len() as u32) + about
}

/// Appends all of `src` to `dst`.
pub fn append_bytes(dst: &mut Vec<u8>, src: &Vec<u8>)
    ensures
        final(dst)@ == old(dst)@ + src@,
{
    let mut i: usize = 0;
    while i < src.len()
        invariant
            i <= src.len(),
            dst@ =~= old(dst)@ + src@.take(i as int),
        decreases src.len() - i,
    {
        dst.push(src[i]);
        i = i + 1;
    }
    proof {
        assert(dst@ =~= old(dst)@ + src@);
    }
}

/// Computes the content address of an attestation: its canonical encoding.
pub fn hash_attestation(a: &Attestation) -> (h: EntryHash)
    requires
        a.wf(),
    ensures
        h@ == spec_encode_attestation(a.content@, a.about@),
{
    let mut bytes = u32_be_bytes(a.content.len() as u32);
    append_bytes(&mut bytes, &a.content);
    let key_len = u32_be_bytes(a.about.bytes.len() as u32);
    append_bytes(&mut bytes, &key_len);
    append_bytes(&mut bytes, &a.about.bytes);
    proof {
        assert(bytes@ =~= spec_encode_attestation(a.content@, a.about@));
    }
    EntryHash { bytes }
}

/// Canonical encodings are injective: two well-formed attestations with the
/// same encoding have the same content and the same subject.
pub proof fn lemma_encode_attestation_injective(
    c1: Seq<u8>,
    k1: Seq<u8>,
    c2: Seq<u8>,
    k2: Seq<u8>,
)
    requires
        wf_attestation_view(c1, k1),
        wf_attestation_view(c2, k2),
        spec_encode_attestation(c1, k1) == spec_encode_attestation(c2, k2),
    ensures
        c1 == c2,
        k1 == k2,
{
    let e1 = spec_encode_attestation(c1, k1);
    let e2 = spec_encode_attestation(c2, k2);
    assert(spec_u32_be(c1.len() as u32) =~= e1.subrange(0, 4));
    assert(spec_u32_be(c2.len() as u32) =~= e2.subrange(0, 4));
    lemma_u32_be_injective(c1.len() as u32, c2.len() as u32);
    let n = c1.len() as int;
    assert(c1 =~= e1.subrange(4, 4 + n));
    assert(c2 =~= e2.subrange(4, 4 + n));
    assert(k1 =~= e1.subrange(8 + n, e1.len() as int));
    assert(k2 =~= e2.subrange(8 + n, e2.len() as int));
}

} // verus!
