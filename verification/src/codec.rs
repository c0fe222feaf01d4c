//! Canonical binary encoding of the protocol's structures.
//!
//! Every structure is framed as the concatenation of its fields: group
//! elements and scalars in their compressed canonical form, lengths as
//! 64-bit little-endian integers, vectors as a length followed by their
//! elements. The leaf encodings are the curve library's; the framing here is
//! verified against them, field by field.

use vstd::prelude::*;
use vstd::bytes::{spec_u64_to_le_bytes, spec_u64_from_le_bytes, u64_to_le_bytes, u64_from_le_bytes};
use crate::curve::{
    Scalar, G1Elem, G2Elem, GtElem, fr_bytes, fr_of_bytes, fr_to_bytes, g1_bytes, g1_of_bytes,
    g1_to_bytes, g1_from_bytes, g2_bytes, g2_of_bytes, g2_to_bytes, g2_from_bytes, gt_bytes,
    gt_of_bytes, gt_to_bytes, gt_from_bytes,
};
use crate::commitment::{Key, Output};
use crate::srs::VerifierSRS;

verus! {

/// Appends all of `src` to `dst`, in order.
pub fn push_bytes(dst: &mut Vec<u8>, src: &Vec<u8>)
    ensures
        final(dst)@ == old(dst)@ + src@,
{
    let n: usize = src.len();
    let mut i: usize = 0;
    while i < n
        invariant
            i <= n,
            n == src@.len(),
            dst@ == old(dst)@ + src@.subrange(0, i as int),
        decreases n - i,
    {
        dst.push(src[i]);
        i = i + 1;
        assert(old(dst)@ + src@.subrange(0, i - 1) + seq![src@[i - 1]] =~= old(dst)@
            + src@.subrange(0, i as int));
    }
    assert(src@.subrange(0, n as int) =~= src@);
}

/// Copies `len` bytes of `b` starting at `start`.
pub fn take_chunk(b: &Vec<u8>, start: usize, len: usize) -> (r: Vec<u8>)
    requires
        start + len <= b@.len(),
    ensures
        r@ == b@.subrange(start as int, start + len),
{
    let total: usize = b.len();
    let mut out: Vec<u8> = Vec::new();
    let mut i: usize = 0;
    while i < len
        invariant
            i <= len,
            total == b@.len(),
            start + len <= total,
            out@ == b@.subrange(start as int, start + i),
        decreases len - i,
    {
        out.push(b[start + i]);
        i = i + 1;
        assert(b@.subrange(start as int, start + i - 1) + seq![b@[start + i - 1]] =~= b@.subrange(
            start as int,
            start + i,
        ));
    }
    out
}

// ---------------------------------------------------------------------------
// Scalar vectors
// ---------------------------------------------------------------------------

/// The concatenated canonical encodings of the first `i` scalars.
pub open spec fn spec_scalars_bytes(s: Seq<Scalar>, i: int) -> Seq<u8>
    decreases i,
{
    if i <= 0 {
        Seq::empty()
    } else {
        spec_scalars_bytes(s, i - 1) + fr_bytes(s[i - 1])
    }
}

/// The canonical encoding of a scalar vector: its length, then its elements.
pub open spec fn spec_encode_scalar_vec(s: Seq<Scalar>) -> Seq<u8> {
    spec_u64_to_le_bytes(s.len() as u64) + spec_scalars_bytes(s, s.len() as int)
}

/// Encodes a scalar vector canonically.
pub fn encode_scalar_vec(v: &Vec<Scalar>) -> (r: Vec<u8>)
    ensures
        r@ == spec_encode_scalar_vec(v@),
{
    let mut out: Vec<u8> = u64_to_le_bytes(v.len() as u64);
    let n: usize = v.len();
    let mut i: usize = 0;
    while i < n
        invariant
            i <= n,
            n == v@.len(),
            out@ == spec_u64_to_le_bytes(n as u64) + spec_scalars_bytes(v@, i as int),
        decreases n - i,
    {
        let eb = fr_to_bytes(&v[i]);
        push_bytes(&mut out, &eb);
        i = i + 1;
        assert(spec_u64_to_le_bytes(n as u64) + spec_scalars_bytes(v@, i - 1) + fr_bytes(
            v@[i - 1],
        ) =~= spec_u64_to_le_bytes(n as u64) + spec_scalars_bytes(v@, i as int));
    }
    out
}

/// The concatenated canonical encodings of the first `i` scalar vectors.
pub open spec fn spec_rows_bytes(m: Seq<Vec<Scalar>>, i: int) -> Seq<u8>
    decreases i,
{
    if i <= 0 {
        Seq::empty()
    } else {
        spec_rows_bytes(m, i - 1) + spec_encode_scalar_vec(m[i - 1]@)
    }
}

/// The canonical encoding of a vector of scalar vectors: its length, then
/// its rows, each encoded as a scalar vector.
pub open spec fn spec_encode_scalar_matrix(m: Seq<Vec<Scalar>>) -> Seq<u8> {
    spec_u64_to_le_bytes(m.len() as u64) + spec_rows_bytes(m, m.len() as int)
}

/// Encodes a vector of scalar vectors canonically; this is the form under
/// which the batch of public inputs is fed to the transcript.
pub fn encode_scalar_matrix(m: &Vec<Vec<Scalar>>) -> (r: Vec<u8>)
    ensures
        r@ == spec_encode_scalar_matrix(m@),
{
    let mut out: Vec<u8> = u64_to_le_bytes(m.len() as u64);
    let n: usize = m.len();
    let mut i: usize = 0;
    while i < n
        invariant
            i <= n,
            n == m@.len(),
            out@ == spec_u64_to_le_bytes(n as u64) + spec_rows_bytes(m@, i as int),
        decreases n - i,
    {
        let rb = encode_scalar_vec(&m[i]);
        push_bytes(&mut out, &rb);
        i = i + 1;
        assert(spec_u64_to_le_bytes(n as u64) + spec_rows_bytes(m@, i - 1) + spec_encode_scalar_vec(
            m@[i - 1]@,
        ) =~= spec_u64_to_le_bytes(n as u64) + spec_rows_bytes(m@, i as int));
    }
    out
}

// ---------------------------------------------------------------------------
// Commitment outputs
// ---------------------------------------------------------------------------

/// The canonical encoding of a commitment output: its two target-field
/// elements, in order.
pub open spec fn spec_encode_output(o: Output) -> Seq<u8> {
    gt_bytes(o.0) + gt_bytes(o.1)
}

/// The result of decoding a commitment output from 1152 canonical bytes.
pub open spec fn spec_decode_output(b: Seq<u8>) -> Option<Output> {
    if b.len() != 1152 {
        None
    } else {
        match (gt_of_bytes(b.subrange(0, 576)), gt_of_bytes(b.subrange(576, 1152))) {
            (Some(x), Some(y)) => Some(Output(x, y)),
            _ => None,
        }
    }
}

/// Encodes a commitment output canonically; decoding the bytes returns the
/// output unchanged.
pub fn encode_output(o: &Output) -> (r: Vec<u8>)
    ensures
        r@ == spec_encode_output(*o),
        r@.len() == 1152,
        spec_decode_output(r@) == Some(*o),
{
    let mut out = gt_to_bytes(&o.0);
    let second = gt_to_bytes(&o.1);
    push_bytes(&mut out, &second);
    assert(out@.subrange(0, 576) =~= gt_bytes(o.0));
    assert(out@.subrange(576, 1152) =~= gt_bytes(o.1));
    out
}

/// Decodes a commitment output from exactly 1152 canonical bytes.
pub fn decode_output(b: &Vec<u8>) -> (r: Option<Output>)
    ensures
        r == spec_decode_output(b@),
{
    if b.len() != 1152 {
        return None;
    }
    let first = take_chunk(b, 0, 576);
    let second = take_chunk(b, 576, 576);
    match (gt_from_bytes(&first), gt_from_bytes(&second)) {
        (Some(x), Some(y)) => Some(Output(x, y)),
        _ => None,
    }
}

// ---------------------------------------------------------------------------
// Verifier SRS
// ---------------------------------------------------------------------------

/// The canonical encoding of a verifier SRS: the aggregation size, then the
/// six group elements, in declaration order.
pub open spec fn spec_encode_verifier_srs(s: VerifierSRS) -> Seq<u8> {
    spec_u64_to_le_bytes(s.n as u64) + g1_bytes(s.g) + g2_bytes(s.h) + g1_bytes(s.g_alpha)
        + g1_bytes(s.g_beta) + g2_bytes(s.h_alpha) + g2_bytes(s.h_beta)
}

/// The result of decoding a verifier SRS from 440 canonical bytes.
pub open spec fn spec_decode_verifier_srs(b: Seq<u8>) -> Option<VerifierSRS> {
    if b.len() != 440 {
        None
    } else {
        let n = spec_u64_from_le_bytes(b.subrange(0, 8));
        if n > usize::MAX as u64 {
            None
        } else {
            match (
                g1_of_bytes(b.subrange(8, 56)),
                g2_of_bytes(b.subrange(56, 152)),
                g1_of_bytes(b.subrange(152, 200)),
                g1_of_bytes(b.subrange(200, 248)),
                g2_of_bytes(b.subrange(248, 344)),
                g2_of_bytes(b.subrange(344, 440)),
            ) {
                (Some(g), Some(h), Some(g_alpha), Some(g_beta), Some(h_alpha), Some(h_beta)) => Some(
                    VerifierSRS { n: n as usize, g, h, g_alpha, g_beta, h_alpha, h_beta },
                ),
                _ => None,
            }
        }
    }
}

/// Encodes a verifier SRS canonically; decoding the bytes returns the SRS
/// unchanged, field for field.
pub fn encode_verifier_srs(s: &VerifierSRS) -> (r: Vec<u8>)
    ensures
        r@ == spec_encode_verifier_srs(*s),
        r@.len() == 440,
        spec_decode_verifier_srs(r@) == Some(*s),
{
    let mut out: Vec<u8> = u64_to_le_bytes(s.n as u64);
    let b1 = g1_to_bytes(&s.g);
    push_bytes(&mut out, &b1);
    let b2 = g2_to_bytes(&s.h);
    push_bytes(&mut out, &b2);
    let b3 = g1_to_bytes(&s.g_alpha);
    push_bytes(&mut out, &b3);
    let b4 = g1_to_bytes(&s.g_beta);
    push_bytes(&mut out, &b4);
    let b5 = g2_to_bytes(&s.h_alpha);
    push_bytes(&mut out, &b5);
    let b6 = g2_to_bytes(&s.h_beta);
    push_bytes(&mut out, &b6);
    proof {
        vstd::bytes::lemma_auto_spec_u64_to_from_le_bytes();
        assert(out@.subrange(0, 8) =~= spec_u64_to_le_bytes(s.n as u64));
        assert(out@.subrange(8, 56) =~= g1_bytes(s.g));
        assert(out@.subrange(56, 152) =~= g2_bytes(s.h));
        assert(out@.subrange(152, 200) =~= g1_bytes(s.g_alpha));
        assert(out@.subrange(200, 248) =~= g1_bytes(s.g_beta));
        assert(out@.subrange(248, 344) =~= g2_bytes(s.h_alpha));
        assert(out@.subrange(344, 440) =~= g2_bytes(s.h_beta));
    }
    out
}

/// Decodes a verifier SRS from exactly 440 canonical bytes.
pub fn decode_verifier_srs(b: &Vec<u8>) -> (r: Option<VerifierSRS>)
    ensures
        r == spec_decode_verifier_srs(b@),
{
    if b.len() != 440 {
        return None;
    }
    let nb = take_chunk(b, 0, 8);
    let n64 = u64_from_le_bytes(nb.as_slice());
    if n64 > usize::MAX as u64 {
        return None;
    }
    let gb = take_chunk(b, 8, 48);
    let hb = take_chunk(b, 56, 96);
    let gab = take_chunk(b, 152, 48);
    let gbb = take_chunk(b, 200, 48);
    let hab = take_chunk(b, 248, 96);
    let hbb = take_chunk(b, 344, 96);
    match (
        g1_from_bytes(&gb),
        g2_from_bytes(&hb),
        g1_from_bytes(&gab),
        g1_from_bytes(&gbb),
        g2_from_bytes(&hab),
        g2_from_bytes(&hbb),
    ) {
        (Some(g), Some(h), Some(g_alpha), Some(g_beta), Some(h_alpha), Some(h_beta)) => Some(
            VerifierSRS { n: n64 as usize, g, h, g_alpha, g_beta, h_alpha, h_beta },
        ),
        _ => None,
    }
}

// ---------------------------------------------------------------------------
// Commitment keys
// ---------------------------------------------------------------------------

/// The first `count` second-group points decoded from `b` starting at
/// `base`, or `None` if any is malformed.
pub open spec fn spec_decode_g2s(b: Seq<u8>, base: int, count: int) -> Option<Seq<G2Elem>>
    decreases count,
{
    if count <= 0 {
        Some(Seq::empty())
    } else {
        match spec_decode_g2s(b, base, count - 1) {
            None => None,
            Some(s) => match g2_of_bytes(b.subrange(base + (count - 1) * 96, base + count * 96)) {
                Some(pt) => Some(s.push(pt)),
                None => None,
            },
        }
    }
}

/// A failure among the first points fails every longer decode.
proof fn lemma_g2s_none_propagates(b: Seq<u8>, base: int, i: int, k: int)
    requires
        0 <= i <= k,
        spec_decode_g2s(b, base, i) is None,
    ensures
        spec_decode_g2s(b, base, k) is None,
    decreases k,
{
    if k > i {
        lemma_g2s_none_propagates(b, base, i, k - 1);
    }
}

/// The vector length a second-group key image claims.
pub open spec fn spec_vkey_len(b: Seq<u8>) -> int {
    spec_u64_from_le_bytes(b.subrange(0, 8)) as int
}

/// Whether a byte image is a decodable second-group commitment key: two
/// equal-length vectors, a length matching the byte count, and every point
/// well-formed.
pub open spec fn spec_vkey_decodable(b: Seq<u8>) -> bool {
    &&& b.len() >= 16
    &&& spec_vkey_len(b) <= (b.len() - 16) / 96
    &&& spec_u64_from_le_bytes(
        b.subrange(8 + spec_vkey_len(b) * 96, 16 + spec_vkey_len(b) * 96),
    ) == spec_u64_from_le_bytes(b.subrange(0, 8))
    &&& b.len() == 16 + 2 * spec_vkey_len(b) * 96
    &&& spec_decode_g2s(b, 8, spec_vkey_len(b)) is Some
    &&& spec_decode_g2s(b, 16 + spec_vkey_len(b) * 96, spec_vkey_len(b)) is Some
}

/// A byte image decodes to exactly this second-group key.
pub open spec fn spec_vkey_decodes_to(b: Seq<u8>, k: Key<G2Elem>) -> bool {
    &&& spec_vkey_decodable(b)
    &&& Some(k.a@) == spec_decode_g2s(b, 8, spec_vkey_len(b))
    &&& Some(k.b@) == spec_decode_g2s(b, 16 + spec_vkey_len(b) * 96, spec_vkey_len(b))
}

/// The first `count` first-group points decoded from `b` starting at
/// `base`, or `None` if any is malformed.
pub open spec fn spec_decode_g1s(b: Seq<u8>, base: int, count: int) -> Option<Seq<G1Elem>>
    decreases count,
{
    if count <= 0 {
        Some(Seq::empty())
    } else {
        match spec_decode_g1s(b, base, count - 1) {
            None => None,
            Some(s) => match g1_of_bytes(b.subrange(base + (count - 1) * 48, base + count * 48)) {
                Some(pt) => Some(s.push(pt)),
                None => None,
            },
        }
    }
}

/// A failure among the first points fails every longer decode.
proof fn lemma_g1s_none_propagates(b: Seq<u8>, base: int, i: int, k: int)
    requires
        0 <= i <= k,
        spec_decode_g1s(b, base, i) is None,
    ensures
        spec_decode_g1s(b, base, k) is None,
    decreases k,
{
    if k > i {
        lemma_g1s_none_propagates(b, base, i, k - 1);
    }
}

/// The vector length a first-group key image claims.
pub open spec fn spec_wkey_len(b: Seq<u8>) -> int {
    spec_u64_from_le_bytes(b.subrange(0, 8)) as int
}

/// Whether a byte image is a decodable first-group commitment key: two
/// equal-length vectors, a length matching the byte count, and every point
/// well-formed.
pub open spec fn spec_wkey_decodable(b: Seq<u8>) -> bool {
    &&& b.len() >= 16
    &&& spec_wkey_len(b) <= (b.len() - 16) / 48
    &&& spec_u64_from_le_bytes(
        b.subrange(8 + spec_wkey_len(b) * 48, 16 + spec_wkey_len(b) * 48),
    ) == spec_u64_from_le_bytes(b.subrange(0, 8))
    &&& b.len() == 16 + 2 * spec_wkey_len(b) * 48
    &&& spec_decode_g1s(b, 8, spec_wkey_len(b)) is Some
    &&& spec_decode_g1s(b, 16 + spec_wkey_len(b) * 48, spec_wkey_len(b)) is Some
}

/// A byte image decodes to exactly this first-group key.
pub open spec fn spec_wkey_decodes_to(b: Seq<u8>, k: Key<G1Elem>) -> bool {
    &&& spec_wkey_decodable(b)
    &&& Some(k.a@) == spec_decode_g1s(b, 8, spec_wkey_len(b))
    &&& Some(k.b@) == spec_decode_g1s(b, 16 + spec_wkey_len(b) * 48, spec_wkey_len(b))
}

/// The concatenated canonical encodings of the first `i` second-group points.
pub open spec fn spec_g2s_bytes(s: Seq<G2Elem>, i: int) -> Seq<u8>
    decreases i,
{
    if i <= 0 {
        Seq::empty()
    } else {
        spec_g2s_bytes(s, i - 1) + g2_bytes(s[i - 1])
    }
}

/// The canonical encoding of a second-group commitment key: each of its two
/// vectors as a length followed by its elements.
pub open spec fn spec_encode_vkey(k: Key<G2Elem>) -> Seq<u8> {
    spec_u64_to_le_bytes(k.a@.len() as u64) + spec_g2s_bytes(k.a@, k.a@.len() as int)
        + spec_u64_to_le_bytes(k.b@.len() as u64) + spec_g2s_bytes(k.b@, k.b@.len() as int)
}


/// The encodings of the first `i` points occupy exactly `i` slots.
proof fn lemma_g2s_layout(s: Seq<G2Elem>, i: int)
    requires
        0 <= i,
        forall|j: int| 0 <= j < i ==> (#[trigger] g2_bytes(s[j])).len() == 96,
    ensures
        spec_g2s_bytes(s, i).len() == i * 96,
    decreases i,
{
    if i > 0 {
        lemma_g2s_layout(s, i - 1);
        assert(spec_g2s_bytes(s, i) == spec_g2s_bytes(s, i - 1) + g2_bytes(s[i - 1]));
        assert(g2_bytes(s[i - 1]).len() == 96);
    } else {
        assert(spec_g2s_bytes(s, i).len() == 0);
    }
}

/// Slot `j` of the concatenated encodings holds point `j`'s encoding.
proof fn lemma_g2s_index(s: Seq<G2Elem>, i: int, j: int)
    requires
        0 <= j < i,
        forall|jj: int| 0 <= jj < i ==> (#[trigger] g2_bytes(s[jj])).len() == 96,
    ensures
        spec_g2s_bytes(s, i).subrange(j * 96, (j + 1) * 96) == g2_bytes(s[j]),
    decreases i,
{
    lemma_g2s_layout(s, i - 1);
    if j == i - 1 {
        assert(spec_g2s_bytes(s, i).subrange(j * 96, (j + 1) * 96) =~= g2_bytes(s[j]));
    } else {
        lemma_g2s_index(s, i - 1, j);
        assert(spec_g2s_bytes(s, i).subrange(j * 96, (j + 1) * 96) =~= spec_g2s_bytes(
            s,
            i - 1,
        ).subrange(j * 96, (j + 1) * 96));
    }
}

/// Points laid out slot for slot in a byte image decode back to themselves.
proof fn lemma_g2s_roundtrip(b: Seq<u8>, base: int, s: Seq<G2Elem>, i: int)
    requires
        0 <= i <= s.len(),
        forall|j: int| 0 <= j < s.len() ==> g2_of_bytes(#[trigger] g2_bytes(s[j])) == Some(s[j]),
        forall|j: int| 0 <= j < s.len() ==> #[trigger] b.subrange(
            base + j * 96,
            base + (j + 1) * 96,
        ) == g2_bytes(s[j]),
    ensures
        spec_decode_g2s(b, base, i) == Some(s.subrange(0, i)),
    decreases i,
{
    if i > 0 {
        lemma_g2s_roundtrip(b, base, s, i - 1);
        assert(s.subrange(0, i - 1).push(s[i - 1]) =~= s.subrange(0, i));
    } else {
        assert(s.subrange(0, 0) =~= Seq::<G2Elem>::empty());
    }
}

/// The encodings of the first `i` points occupy exactly `i` slots.
proof fn lemma_g1s_layout(s: Seq<G1Elem>, i: int)
    requires
        0 <= i,
        forall|j: int| 0 <= j < i ==> (#[trigger] g1_bytes(s[j])).len() == 48,
    ensures
        spec_g1s_bytes(s, i).len() == i * 48,
    decreases i,
{
    if i > 0 {
        lemma_g1s_layout(s, i - 1);
        assert(spec_g1s_bytes(s, i) == spec_g1s_bytes(s, i - 1) + g1_bytes(s[i - 1]));
        assert(g1_bytes(s[i - 1]).len() == 48);
    } else {
        assert(spec_g1s_bytes(s, i).len() == 0);
    }
}

/// Slot `j` of the concatenated encodings holds point `j`'s encoding.
proof fn lemma_g1s_index(s: Seq<G1Elem>, i: int, j: int)
    requires
        0 <= j < i,
        forall|jj: int| 0 <= jj < i ==> (#[trigger] g1_bytes(s[jj])).len() == 48,
    ensures
        spec_g1s_bytes(s, i).subrange(j * 48, (j + 1) * 48) == g1_bytes(s[j]),
    decreases i,
{
    lemma_g1s_layout(s, i - 1);
    if j == i - 1 {
        assert(spec_g1s_bytes(s, i).subrange(j * 48, (j + 1) * 48) =~= g1_bytes(s[j]));
    } else {
        lemma_g1s_index(s, i - 1, j);
        assert(spec_g1s_bytes(s, i).subrange(j * 48, (j + 1) * 48) =~= spec_g1s_bytes(
            s,
            i - 1,
        ).subrange(j * 48, (j + 1) * 48));
    }
}

/// Points laid out slot for slot in a byte image decode back to themselves.
proof fn lemma_g1s_roundtrip(b: Seq<u8>, base: int, s: Seq<G1Elem>, i: int)
    requires
        0 <= i <= s.len(),
        forall|j: int| 0 <= j < s.len() ==> g1_of_bytes(#[trigger] g1_bytes(s[j])) == Some(s[j]),
        forall|j: int| 0 <= j < s.len() ==> #[trigger] b.subrange(
            base + j * 48,
            base + (j + 1) * 48,
        ) == g1_bytes(s[j]),
    ensures
        spec_decode_g1s(b, base, i) == Some(s.subrange(0, i)),
    decreases i,
{
    if i > 0 {
        lemma_g1s_roundtrip(b, base, s, i - 1);
        assert(s.subrange(0, i - 1).push(s[i - 1]) =~= s.subrange(0, i));
    } else {
        assert(s.subrange(0, 0) =~= Seq::<G1Elem>::empty());
    }
}

/// Encodes a second-group commitment key canonically; for a well-formed
/// key, decoding the bytes returns the key unchanged, vector for vector.
#[verifier::loop_isolation(false)]
pub fn encode_vkey(k: &Key<G2Elem>) -> (r: Vec<u8>)
    ensures
        r@ == spec_encode_vkey(*k),
        k.well_formed() ==> spec_vkey_decodes_to(r@, *k),
{
    let mut out: Vec<u8> = u64_to_le_bytes(k.a.len() as u64);
    let na: usize = k.a.len();
    let mut i: usize = 0;
    while i < na
        invariant
            i <= na,
            na == k.a@.len(),
            out@ == spec_u64_to_le_bytes(na as u64) + spec_g2s_bytes(k.a@, i as int),
            forall|j: int| 0 <= j < i ==> (#[trigger] g2_bytes(k.a@[j])).len() == 96,
            forall|j: int| 0 <= j < i ==> g2_of_bytes(#[trigger] g2_bytes(k.a@[j])) == Some(
                k.a@[j],
            ),
        decreases na - i,
    {
        let eb = g2_to_bytes(&k.a[i]);
        push_bytes(&mut out, &eb);
        i = i + 1;
        assert(spec_u64_to_le_bytes(na as u64) + spec_g2s_bytes(k.a@, i - 1) + g2_bytes(
            k.a@[i - 1],
        ) =~= spec_u64_to_le_bytes(na as u64) + spec_g2s_bytes(k.a@, i as int));
    }
    let ghost first_half = out@;
    let lb = u64_to_le_bytes(k.b.len() as u64);
    push_bytes(&mut out, &lb);
    let nb: usize = k.b.len();
    let mut j: usize = 0;
    while j < nb
        invariant
            j <= nb,
            nb == k.b@.len(),
            out@ == first_half + spec_u64_to_le_bytes(nb as u64) + spec_g2s_bytes(
                k.b@,
                j as int,
            ),
            forall|jj: int| 0 <= jj < j ==> (#[trigger] g2_bytes(k.b@[jj])).len() == 96,
            forall|jj: int| 0 <= jj < j ==> g2_of_bytes(#[trigger] g2_bytes(k.b@[jj])) == Some(
                k.b@[jj],
            ),
        decreases nb - j,
    {
        let eb = g2_to_bytes(&k.b[j]);
        push_bytes(&mut out, &eb);
        j = j + 1;
        assert(first_half + spec_u64_to_le_bytes(nb as u64) + spec_g2s_bytes(k.b@, j - 1)
            + g2_bytes(k.b@[j - 1]) =~= first_half + spec_u64_to_le_bytes(nb as u64)
            + spec_g2s_bytes(k.b@, j as int));
    }
    assert(out@ =~= spec_encode_vkey(*k));
    proof {
        if k.well_formed() {
            let n = k.a@.len() as int;
            vstd::bytes::lemma_auto_spec_u64_to_from_le_bytes();
            lemma_g2s_layout(k.a@, n);
            lemma_g2s_layout(k.b@, n);
            assert(out@.len() == 16 + 2 * n * 96);
            assert(out@.subrange(0, 8) =~= spec_u64_to_le_bytes(na as u64));
            assert(spec_vkey_len(out@) == n);
            assert(out@.subrange(8 + n * 96, 16 + n * 96) =~= spec_u64_to_le_bytes(nb as u64));
            assert forall|j2: int| 0 <= j2 < n implies #[trigger] out@.subrange(
                8 + j2 * 96,
                8 + (j2 + 1) * 96,
            ) == g2_bytes(k.a@[j2]) by {
                lemma_g2s_index(k.a@, n, j2);
                assert(out@.subrange(8 + j2 * 96, 8 + (j2 + 1) * 96) =~= spec_g2s_bytes(
                    k.a@,
                    n,
                ).subrange(j2 * 96, (j2 + 1) * 96));
            }
            assert forall|j2: int| 0 <= j2 < n implies #[trigger] out@.subrange(
                16 + n * 96 + j2 * 96,
                16 + n * 96 + (j2 + 1) * 96,
            ) == g2_bytes(k.b@[j2]) by {
                lemma_g2s_index(k.b@, n, j2);
                assert(out@.subrange(16 + n * 96 + j2 * 96, 16 + n * 96 + (j2 + 1) * 96)
                    =~= spec_g2s_bytes(k.b@, n).subrange(j2 * 96, (j2 + 1) * 96));
            }
            lemma_g2s_roundtrip(out@, 8, k.a@, n);
            assert(k.a@.subrange(0, n) =~= k.a@);
            lemma_g2s_roundtrip(out@, 16 + n * 96, k.b@, n);
            assert(k.b@.subrange(0, n) =~= k.b@);
            assert(spec_vkey_decodable(out@));
            assert(spec_vkey_decodes_to(out@, *k));
        }
    }
    out
}

/// Decodes a second-group commitment key from canonical bytes: two vectors
/// of equal length. The result is exactly what the byte image decodes to:
/// `Some` iff the image is decodable, with both vectors pinned.
#[verifier::loop_isolation(false)]
pub fn decode_vkey(b: &Vec<u8>) -> (r: Option<Key<G2Elem>>)
    ensures
        match r {
            Some(k) => spec_vkey_decodes_to(b@, k) && k.well_formed(),
            None => !spec_vkey_decodable(b@),
        },
        b@.len() < 16 ==> r is None,
{
    let total: usize = b.len();
    if total < 16 {
        return None;
    }
    let cap: usize = (total - 16) / 96;
    let hb = take_chunk(b, 0, 8);
    let alen64 = u64_from_le_bytes(hb.as_slice());
    if alen64 > cap as u64 {
        return None;
    }
    let alen: usize = alen64 as usize;
    proof {
        assert(alen * 96 <= total - 16) by (nonlinear_arith)
            requires
                alen <= (total - 16) / 96,
                total >= 16,
        ;
    }
    let boff: usize = 8 + alen * 96;
    let hb2 = take_chunk(b, boff, 8);
    let blen64 = u64_from_le_bytes(hb2.as_slice());
    if blen64 != alen64 {
        return None;
    }
    assert(boff + 8 <= total);
    if (total - boff) - 8 != alen * 96 {
        return None;
    }
    let mut a: Vec<G2Elem> = Vec::new();
    let mut i: usize = 0;
    while i < alen
        invariant
            i <= alen,
            spec_decode_g2s(b@, 8, i as int) == Some(a@),
            a@.len() == i,
        decreases alen - i,
    {
        proof {
            assert(8 + i * 96 + 96 <= 8 + alen * 96) by (nonlinear_arith)
                requires
                    i < alen,
            ;
        }
        let eb = take_chunk(b, 8 + i * 96, 96);
        match g2_from_bytes(&eb) {
            Some(p) => {
                a.push(p);
            },
            None => {
                proof {
                    assert(spec_decode_g2s(b@, 8, i + 1) is None);
                    lemma_g2s_none_propagates(b@, 8, i + 1, alen as int);
                    assert(spec_vkey_len(b@) == alen as int);
                }
                return None;
            },
        }
        i = i + 1;
    }
    let mut bv: Vec<G2Elem> = Vec::new();
    let mut j: usize = 0;
    while j < alen
        invariant
            j <= alen,
            spec_decode_g2s(b@, boff + 8, j as int) == Some(bv@),
            bv@.len() == j,
        decreases alen - j,
    {
        proof {
            assert(8 + alen * 96 + 8 + j * 96 + 96 <= total) by (nonlinear_arith)
                requires
                    j < alen,
                    8 + alen * 96 + 8 + alen * 96 == total,
            ;
        }
        let eb = take_chunk(b, boff + 8 + j * 96, 96);
        match g2_from_bytes(&eb) {
            Some(p) => {
                bv.push(p);
            },
            None => {
                proof {
                    assert(spec_decode_g2s(b@, boff + 8, j + 1) is None);
                    lemma_g2s_none_propagates(b@, boff + 8, j + 1, alen as int);
                    assert(spec_vkey_len(b@) == alen as int);
                }
                return None;
            },
        }
        j = j + 1;
    }
    Some(Key { a, b: bv })
}

/// The concatenated canonical encodings of the first `i` first-group points.
pub open spec fn spec_g1s_bytes(s: Seq<G1Elem>, i: int) -> Seq<u8>
    decreases i,
{
    if i <= 0 {
        Seq::empty()
    } else {
        spec_g1s_bytes(s, i - 1) + g1_bytes(s[i - 1])
    }
}

/// The canonical encoding of a first-group commitment key: each of its two
/// vectors as a length followed by its elements.
pub open spec fn spec_encode_wkey(k: Key<G1Elem>) -> Seq<u8> {
    spec_u64_to_le_bytes(k.a@.len() as u64) + spec_g1s_bytes(k.a@, k.a@.len() as int)
        + spec_u64_to_le_bytes(k.b@.len() as u64) + spec_g1s_bytes(k.b@, k.b@.len() as int)
}

/// Encodes a first-group commitment key canonically; for a well-formed
/// key, decoding the bytes returns the key unchanged, vector for vector.
#[verifier::loop_isolation(false)]
pub fn encode_wkey(k: &Key<G1Elem>) -> (r: Vec<u8>)
    ensures
        r@ == spec_encode_wkey(*k),
        k.well_formed() ==> spec_wkey_decodes_to(r@, *k),
{
    let mut out: Vec<u8> = u64_to_le_bytes(k.a.len() as u64);
    let na: usize = k.a.len();
    let mut i: usize = 0;
    while i < na
        invariant
            i <= na,
            na == k.a@.len(),
            out@ == spec_u64_to_le_bytes(na as u64) + spec_g1s_bytes(k.a@, i as int),
            forall|j: int| 0 <= j < i ==> (#[trigger] g1_bytes(k.a@[j])).len() == 48,
            forall|j: int| 0 <= j < i ==> g1_of_bytes(#[trigger] g1_bytes(k.a@[j])) == Some(
                k.a@[j],
            ),
        decreases na - i,
    {
        let eb = g1_to_bytes(&k.a[i]);
        push_bytes(&mut out, &eb);
        i = i + 1;
        assert(spec_u64_to_le_bytes(na as u64) + spec_g1s_bytes(k.a@, i - 1) + g1_bytes(
            k.a@[i - 1],
        ) =~= spec_u64_to_le_bytes(na as u64) + spec_g1s_bytes(k.a@, i as int));
    }
    let ghost first_half = out@;
    let lb = u64_to_le_bytes(k.b.len() as u64);
    push_bytes(&mut out, &lb);
    let nb: usize = k.b.len();
    let mut j: usize = 0;
    while j < nb
        invariant
            j <= nb,
            nb == k.b@.len(),
            out@ == first_half + spec_u64_to_le_bytes(nb as u64) + spec_g1s_bytes(
                k.b@,
                j as int,
            ),
            forall|jj: int| 0 <= jj < j ==> (#[trigger] g1_bytes(k.b@[jj])).len() == 48,
            forall|jj: int| 0 <= jj < j ==> g1_of_bytes(#[trigger] g1_bytes(k.b@[jj])) == Some(
                k.b@[jj],
            ),
        decreases nb - j,
    {
        let eb = g1_to_bytes(&k.b[j]);
        push_bytes(&mut out, &eb);
        j = j + 1;
        assert(first_half + spec_u64_to_le_bytes(nb as u64) + spec_g1s_bytes(k.b@, j - 1)
            + g1_bytes(k.b@[j - 1]) =~= first_half + spec_u64_to_le_bytes(nb as u64)
            + spec_g1s_bytes(k.b@, j as int));
    }
    assert(out@ =~= spec_encode_wkey(*k));
    proof {
        if k.well_formed() {
            let n = k.a@.len() as int;
            vstd::bytes::lemma_auto_spec_u64_to_from_le_bytes();
            lemma_g1s_layout(k.a@, n);
            lemma_g1s_layout(k.b@, n);
            assert(out@.len() == 16 + 2 * n * 48);
            assert(out@.subrange(0, 8) =~= spec_u64_to_le_bytes(na as u64));
            assert(spec_wkey_len(out@) == n);
            assert(out@.subrange(8 + n * 48, 16 + n * 48) =~= spec_u64_to_le_bytes(nb as u64));
            assert forall|j2: int| 0 <= j2 < n implies #[trigger] out@.subrange(
                8 + j2 * 48,
                8 + (j2 + 1) * 48,
            ) == g1_bytes(k.a@[j2]) by {
                lemma_g1s_index(k.a@, n, j2);
                assert(out@.subrange(8 + j2 * 48, 8 + (j2 + 1) * 48) =~= spec_g1s_bytes(
                    k.a@,
                    n,
                ).subrange(j2 * 48, (j2 + 1) * 48));
            }
            assert forall|j2: int| 0 <= j2 < n implies #[trigger] out@.subrange(
                16 + n * 48 + j2 * 48,
                16 + n * 48 + (j2 + 1) * 48,
            ) == g1_bytes(k.b@[j2]) by {
                lemma_g1s_index(k.b@, n, j2);
                assert(out@.subrange(16 + n * 48 + j2 * 48, 16 + n * 48 + (j2 + 1) * 48)
                    =~= spec_g1s_bytes(k.b@, n).subrange(j2 * 48, (j2 + 1) * 48));
            }
            lemma_g1s_roundtrip(out@, 8, k.a@, n);
            assert(k.a@.subrange(0, n) =~= k.a@);
            lemma_g1s_roundtrip(out@, 16 + n * 48, k.b@, n);
            assert(k.b@.subrange(0, n) =~= k.b@);
            assert(spec_wkey_decodable(out@));
            assert(spec_wkey_decodes_to(out@, *k));
        }
    }
    out
}

/// Decodes a first-group commitment key from canonical bytes: two vectors
/// of equal length. The result is exactly what the byte image decodes to:
/// `Some` iff the image is decodable, with both vectors pinned.
#[verifier::loop_isolation(false)]
pub fn decode_wkey(b: &Vec<u8>) -> (r: Option<Key<G1Elem>>)
    ensures
        match r {
            Some(k) => spec_wkey_decodes_to(b@, k) && k.well_formed(),
            None => !spec_wkey_decodable(b@),
        },
        b@.len() < 16 ==> r is None,
{
    let total: usize = b.len();
    if total < 16 {
        return None;
    }
    let cap: usize = (total - 16) / 48;
    let hb = take_chunk(b, 0, 8);
    let alen64 = u64_from_le_bytes(hb.as_slice());
    if alen64 > cap as u64 {
        return None;
    }
    let alen: usize = alen64 as usize;
    proof {
        assert(alen * 48 <= total - 16) by (nonlinear_arith)
            requires
                alen <= (total - 16) / 48,
                total >= 16,
        ;
    }
    let boff: usize = 8 + alen * 48;
    let hb2 = take_chunk(b, boff, 8);
    let blen64 = u64_from_le_bytes(hb2.as_slice());
    if blen64 != alen64 {
        return None;
    }
    assert(boff + 8 <= total);
    if (total - boff) - 8 != alen * 48 {
        return None;
    }
    let mut a: Vec<G1Elem> = Vec::new();
    let mut i: usize = 0;
    while i < alen
        invariant
            i <= alen,
            spec_decode_g1s(b@, 8, i as int) == Some(a@),
            a@.len() == i,
        decreases alen - i,
    {
        proof {
            assert(8 + i * 48 + 48 <= 8 + alen * 48) by (nonlinear_arith)
                requires
                    i < alen,
            ;
        }
        let eb = take_chunk(b, 8 + i * 48, 48);
        match g1_from_bytes(&eb) {
            Some(p) => {
                a.push(p);
            },
            None => {
                proof {
                    assert(spec_decode_g1s(b@, 8, i + 1) is None);
                    lemma_g1s_none_propagates(b@, 8, i + 1, alen as int);
                    assert(spec_wkey_len(b@) == alen as int);
                }
                return None;
            },
        }
        i = i + 1;
    }
    let mut bv: Vec<G1Elem> = Vec::new();
    let mut j: usize = 0;
    while j < alen
        invariant
            j <= alen,
            spec_decode_g1s(b@, boff + 8, j as int) == Some(bv@),
            bv@.len() == j,
        decreases alen - j,
    {
        proof {
            assert(8 + alen * 48 + 8 + j * 48 + 48 <= total) by (nonlinear_arith)
                requires
                    j < alen,
                    8 + alen * 48 + 8 + alen * 48 == total,
            ;
        }
        let eb = take_chunk(b, boff + 8 + j * 48, 48);
        match g1_from_bytes(&eb) {
            Some(p) => {
                bv.push(p);
            },
            None => {
                proof {
                    assert(spec_decode_g1s(b@, boff + 8, j + 1) is None);
                    lemma_g1s_none_propagates(b@, boff + 8, j + 1, alen as int);
                    assert(spec_wkey_len(b@) == alen as int);
                }
                return None;
            },
        }
        j = j + 1;
    }
    Some(Key { a, b: bv })
}

} // verus!
