//! The aggregate proof object and its canonical encoding.
//!
//! An aggregate proof carries the two batch commitments, the claimed inner
//! pairing product and aggregated third component, the left/right
//! commitments and claimed values of every fold round, and the final values
//! the recursion leaves behind: one element pair per commitment key, the
//! folded data elements, and one opening pair per key for the
//! polynomial-commitment check.

use vstd::prelude::*;
use vstd::bytes::{spec_u64_to_le_bytes, spec_u64_from_le_bytes, u64_to_le_bytes, u64_from_le_bytes};
use crate::curve::{
    Scalar, G1Elem, G2Elem, GtElem, g1_bytes, g1_of_bytes, g1_to_bytes, g1_from_bytes, g2_bytes,
    g2_of_bytes, g2_to_bytes, g2_from_bytes, gt_bytes, gt_of_bytes, gt_to_bytes, gt_from_bytes,
};
use crate::commitment::Output;
use crate::codec::{push_bytes, take_chunk, spec_encode_output, spec_decode_output, encode_output, decode_output};

verus! {

/// An aggregate proof: what the prover's recursive folding protocol emits
/// and the verifier replays.
pub struct AggregateProof {
    /// Commitment to the two committed vectors of the double-sided argument.
    pub com_ab: Output,
    /// Commitment to the vector of the single-sided argument.
    pub com_c: Output,
    /// The claimed inner pairing product of the randomized batch.
    pub ip_ab: GtElem,
    /// The claimed aggregated third component.
    pub agg_c: G1Elem,
    /// Per round: left and right double-sided commitments.
    pub comms_ab: Vec<(Output, Output)>,
    /// Per round: left and right single-sided commitments.
    pub comms_c: Vec<(Output, Output)>,
    /// Per round: left and right claimed pairing products.
    pub z_ab: Vec<(GtElem, GtElem)>,
    /// Per round: left and right claimed aggregated components.
    pub z_c: Vec<(G1Elem, G1Elem)>,
    /// The folded first-group data element.
    pub final_a: G1Elem,
    /// The folded second-group data element.
    pub final_b: G2Elem,
    /// The folded third component.
    pub final_c: G1Elem,
    /// The claimed fold of the second-group commitment key.
    pub final_vkey: (G2Elem, G2Elem),
    /// The claimed fold of the first-group commitment key.
    pub final_wkey: (G1Elem, G1Elem),
    /// Openings for the two halves of the folded second-group key.
    pub vkey_opening: (G2Elem, G2Elem),
    /// Openings for the two halves of the folded first-group key.
    pub wkey_opening: (G1Elem, G1Elem),
}

impl AggregateProof {
    /// All four per-round vectors describe the same rounds.
    pub open spec fn well_formed(self) -> bool {
        self.comms_ab@.len() == self.comms_c@.len() && self.comms_ab@.len() == self.z_ab@.len()
            && self.comms_ab@.len() == self.z_c@.len()
    }
}

/// The canonical encoding of one fold round.
pub open spec fn spec_round_bytes(p: AggregateProof, i: int) -> Seq<u8> {
    spec_encode_output(p.comms_ab@[i].0) + spec_encode_output(p.comms_ab@[i].1)
        + spec_encode_output(p.comms_c@[i].0) + spec_encode_output(p.comms_c@[i].1) + gt_bytes(
        p.z_ab@[i].0,
    ) + gt_bytes(p.z_ab@[i].1) + g1_bytes(p.z_c@[i].0) + g1_bytes(p.z_c@[i].1)
}

/// The concatenated encodings of the first `i` fold rounds.
pub open spec fn spec_rounds_bytes(p: AggregateProof, i: int) -> Seq<u8>
    decreases i,
{
    if i <= 0 {
        Seq::empty()
    } else {
        spec_rounds_bytes(p, i - 1) + spec_round_bytes(p, i - 1)
    }
}

/// The canonical encoding of the proof's fixed tail: the folded elements,
/// key folds and openings.
pub open spec fn spec_tail_bytes(p: AggregateProof) -> Seq<u8> {
    g1_bytes(p.final_a) + g2_bytes(p.final_b) + g1_bytes(p.final_c) + g2_bytes(p.final_vkey.0)
        + g2_bytes(p.final_vkey.1) + g1_bytes(p.final_wkey.0) + g1_bytes(p.final_wkey.1)
        + g2_bytes(p.vkey_opening.0) + g2_bytes(p.vkey_opening.1) + g1_bytes(p.wkey_opening.0)
        + g1_bytes(p.wkey_opening.1)
}

/// The canonical encoding of an aggregate proof: the batch commitments and
/// claims, the round count, the rounds, then the tail.
pub open spec fn spec_encode_proof(p: AggregateProof) -> Seq<u8> {
    spec_encode_output(p.com_ab) + spec_encode_output(p.com_c) + gt_bytes(p.ip_ab) + g1_bytes(
        p.agg_c,
    ) + spec_u64_to_le_bytes(p.comms_ab@.len() as u64) + spec_rounds_bytes(
        p,
        p.comms_ab@.len() as int,
    ) + spec_tail_bytes(p)
}

/// The round vectors decoded from the first `i` rounds of the byte image,
/// or `None` if any element there is malformed.
pub open spec fn spec_decode_rounds(b: Seq<u8>, i: int) -> Option<
    (Seq<(Output, Output)>, Seq<(Output, Output)>, Seq<(GtElem, GtElem)>, Seq<(G1Elem, G1Elem)>),
>
    decreases i,
{
    if i <= 0 {
        Some((Seq::empty(), Seq::empty(), Seq::empty(), Seq::empty()))
    } else {
        match spec_decode_rounds(b, i - 1) {
            None => None,
            Some(acc) => {
                let at = 2936 + (i - 1) * 5856;
                match (
                    spec_decode_output(b.subrange(at, at + 1152)),
                    spec_decode_output(b.subrange(at + 1152, at + 2304)),
                    spec_decode_output(b.subrange(at + 2304, at + 3456)),
                    spec_decode_output(b.subrange(at + 3456, at + 4608)),
                    gt_of_bytes(b.subrange(at + 4608, at + 5184)),
                    gt_of_bytes(b.subrange(at + 5184, at + 5760)),
                    g1_of_bytes(b.subrange(at + 5760, at + 5808)),
                    g1_of_bytes(b.subrange(at + 5808, at + 5856)),
                ) {
                    (
                        Some(c1),
                        Some(c2),
                        Some(c3),
                        Some(c4),
                        Some(z1),
                        Some(z2),
                        Some(w1),
                        Some(w2),
                    ) => Some(
                        (
                            acc.0.push((c1, c2)),
                            acc.1.push((c3, c4)),
                            acc.2.push((z1, z2)),
                            acc.3.push((w1, w2)),
                        ),
                    ),
                    _ => None,
                }
            },
        }
    }
}

/// The round count a byte image claims.
pub open spec fn spec_proof_rounds(b: Seq<u8>) -> int {
    spec_u64_from_le_bytes(b.subrange(2928, 2936)) as int
}

/// The byte offset of the fixed tail of a byte image.
pub open spec fn spec_proof_tail(b: Seq<u8>) -> int {
    2936 + spec_proof_rounds(b) * 5856
}

/// Whether a byte image is a decodable aggregate proof: correct overall
/// length for its round count, and every element well-formed.
pub open spec fn spec_proof_decodable(b: Seq<u8>) -> bool {
    &&& b.len() >= 3704
    &&& spec_proof_rounds(b) <= 63
    &&& b.len() == 3704 + spec_proof_rounds(b) * 5856
    &&& spec_decode_output(b.subrange(0, 1152)) is Some
    &&& spec_decode_output(b.subrange(1152, 2304)) is Some
    &&& gt_of_bytes(b.subrange(2304, 2880)) is Some
    &&& g1_of_bytes(b.subrange(2880, 2928)) is Some
    &&& spec_decode_rounds(b, spec_proof_rounds(b)) is Some
    &&& g1_of_bytes(b.subrange(spec_proof_tail(b), spec_proof_tail(b) + 48)) is Some
    &&& g2_of_bytes(b.subrange(spec_proof_tail(b) + 48, spec_proof_tail(b) + 144)) is Some
    &&& g1_of_bytes(b.subrange(spec_proof_tail(b) + 144, spec_proof_tail(b) + 192)) is Some
    &&& g2_of_bytes(b.subrange(spec_proof_tail(b) + 192, spec_proof_tail(b) + 288)) is Some
    &&& g2_of_bytes(b.subrange(spec_proof_tail(b) + 288, spec_proof_tail(b) + 384)) is Some
    &&& g1_of_bytes(b.subrange(spec_proof_tail(b) + 384, spec_proof_tail(b) + 432)) is Some
    &&& g1_of_bytes(b.subrange(spec_proof_tail(b) + 432, spec_proof_tail(b) + 480)) is Some
    &&& g2_of_bytes(b.subrange(spec_proof_tail(b) + 480, spec_proof_tail(b) + 576)) is Some
    &&& g2_of_bytes(b.subrange(spec_proof_tail(b) + 576, spec_proof_tail(b) + 672)) is Some
    &&& g1_of_bytes(b.subrange(spec_proof_tail(b) + 672, spec_proof_tail(b) + 720)) is Some
    &&& g1_of_bytes(b.subrange(spec_proof_tail(b) + 720, spec_proof_tail(b) + 768)) is Some
}

/// A byte image decodes to exactly this proof: it is decodable, and every
/// field of the proof equals the matching decoded element.
pub open spec fn spec_decodes_to(b: Seq<u8>, p: AggregateProof) -> bool {
    &&& spec_proof_decodable(b)
    &&& p.comms_ab@.len() == spec_proof_rounds(b)
    &&& Some(p.com_ab) == spec_decode_output(b.subrange(0, 1152))
    &&& Some(p.com_c) == spec_decode_output(b.subrange(1152, 2304))
    &&& Some(p.ip_ab) == gt_of_bytes(b.subrange(2304, 2880))
    &&& Some(p.agg_c) == g1_of_bytes(b.subrange(2880, 2928))
    &&& spec_decode_rounds(b, spec_proof_rounds(b)) == Some(
        (p.comms_ab@, p.comms_c@, p.z_ab@, p.z_c@),
    )
    &&& Some(p.final_a) == g1_of_bytes(b.subrange(spec_proof_tail(b), spec_proof_tail(b) + 48))
    &&& Some(p.final_b) == g2_of_bytes(
        b.subrange(spec_proof_tail(b) + 48, spec_proof_tail(b) + 144),
    )
    &&& Some(p.final_c) == g1_of_bytes(
        b.subrange(spec_proof_tail(b) + 144, spec_proof_tail(b) + 192),
    )
    &&& Some(p.final_vkey.0) == g2_of_bytes(
        b.subrange(spec_proof_tail(b) + 192, spec_proof_tail(b) + 288),
    )
    &&& Some(p.final_vkey.1) == g2_of_bytes(
        b.subrange(spec_proof_tail(b) + 288, spec_proof_tail(b) + 384),
    )
    &&& Some(p.final_wkey.0) == g1_of_bytes(
        b.subrange(spec_proof_tail(b) + 384, spec_proof_tail(b) + 432),
    )
    &&& Some(p.final_wkey.1) == g1_of_bytes(
        b.subrange(spec_proof_tail(b) + 432, spec_proof_tail(b) + 480),
    )
    &&& Some(p.vkey_opening.0) == g2_of_bytes(
        b.subrange(spec_proof_tail(b) + 480, spec_proof_tail(b) + 576),
    )
    &&& Some(p.vkey_opening.1) == g2_of_bytes(
        b.subrange(spec_proof_tail(b) + 576, spec_proof_tail(b) + 672),
    )
    &&& Some(p.wkey_opening.0) == g1_of_bytes(
        b.subrange(spec_proof_tail(b) + 672, spec_proof_tail(b) + 720),
    )
    &&& Some(p.wkey_opening.1) == g1_of_bytes(
        b.subrange(spec_proof_tail(b) + 720, spec_proof_tail(b) + 768),
    )
}

/// A failure among the first rounds fails every longer decode.
proof fn lemma_rounds_none_propagates(b: Seq<u8>, i: int, k: int)
    requires
        0 <= i <= k,
        spec_decode_rounds(b, i) is None,
    ensures
        spec_decode_rounds(b, k) is None,
    decreases k,
{
    if k > i {
        lemma_rounds_none_propagates(b, i, k - 1);
    }
}

/// The elements of round `j` re-decode from their own encodings, which have
/// the fixed slot widths.
pub open spec fn spec_round_roundtrips(p: AggregateProof, j: int) -> bool {
    &&& spec_encode_output(p.comms_ab@[j].0).len() == 1152
    &&& spec_encode_output(p.comms_ab@[j].1).len() == 1152
    &&& spec_encode_output(p.comms_c@[j].0).len() == 1152
    &&& spec_encode_output(p.comms_c@[j].1).len() == 1152
    &&& gt_bytes(p.z_ab@[j].0).len() == 576
    &&& gt_bytes(p.z_ab@[j].1).len() == 576
    &&& g1_bytes(p.z_c@[j].0).len() == 48
    &&& g1_bytes(p.z_c@[j].1).len() == 48
    &&& spec_decode_output(spec_encode_output(p.comms_ab@[j].0)) == Some(p.comms_ab@[j].0)
    &&& spec_decode_output(spec_encode_output(p.comms_ab@[j].1)) == Some(p.comms_ab@[j].1)
    &&& spec_decode_output(spec_encode_output(p.comms_c@[j].0)) == Some(p.comms_c@[j].0)
    &&& spec_decode_output(spec_encode_output(p.comms_c@[j].1)) == Some(p.comms_c@[j].1)
    &&& gt_of_bytes(gt_bytes(p.z_ab@[j].0)) == Some(p.z_ab@[j].0)
    &&& gt_of_bytes(gt_bytes(p.z_ab@[j].1)) == Some(p.z_ab@[j].1)
    &&& g1_of_bytes(g1_bytes(p.z_c@[j].0)) == Some(p.z_c@[j].0)
    &&& g1_of_bytes(g1_bytes(p.z_c@[j].1)) == Some(p.z_c@[j].1)
}

/// The encodings of the first `i` rounds occupy exactly `i` slots.
proof fn lemma_rounds_bytes_layout(p: AggregateProof, i: int)
    requires
        0 <= i,
        forall|j: int| 0 <= j < i ==> #[trigger] spec_round_roundtrips(p, j),
    ensures
        spec_rounds_bytes(p, i).len() == i * 5856,
    decreases i,
{
    if i > 0 {
        lemma_rounds_bytes_layout(p, i - 1);
        assert(spec_rounds_bytes(p, i) == spec_rounds_bytes(p, i - 1) + spec_round_bytes(
            p,
            i - 1,
        ));
        assert(spec_round_roundtrips(p, i - 1));
        assert(spec_round_bytes(p, i - 1).len() == 5856);
    } else {
        assert(spec_rounds_bytes(p, i).len() == 0);
    }
}

/// Slot `j` of the concatenated round encodings holds round `j`'s encoding.
proof fn lemma_rounds_bytes_index(p: AggregateProof, i: int, j: int)
    requires
        0 <= j < i,
        forall|jj: int| 0 <= jj < i ==> #[trigger] spec_round_roundtrips(p, jj),
    ensures
        spec_rounds_bytes(p, i).subrange(j * 5856, (j + 1) * 5856) == spec_round_bytes(p, j),
    decreases i,
{
    lemma_rounds_bytes_layout(p, i - 1);
    assert(spec_round_roundtrips(p, j));
    assert(spec_round_bytes(p, j).len() == 5856);
    if j == i - 1 {
        assert(spec_rounds_bytes(p, i).subrange(j * 5856, (j + 1) * 5856) =~= spec_round_bytes(
            p,
            j,
        ));
    } else {
        lemma_rounds_bytes_index(p, i - 1, j);
        assert(spec_rounds_bytes(p, i).subrange(j * 5856, (j + 1) * 5856) =~= spec_rounds_bytes(
            p,
            i - 1,
        ).subrange(j * 5856, (j + 1) * 5856));
    }
}

/// A round window of a byte image splits into its eight element chunks.
proof fn lemma_round_window_split(b: Seq<u8>, p: AggregateProof, j: int)
    requires
        0 <= j,
        spec_round_roundtrips(p, j),
        2936 + (j + 1) * 5856 <= b.len(),
        b.subrange(2936 + j * 5856, 2936 + (j + 1) * 5856) == spec_round_bytes(p, j),
    ensures
        ({
            let at = 2936 + j * 5856;
            &&& b.subrange(at, at + 1152) == spec_encode_output(p.comms_ab@[j].0)
            &&& b.subrange(at + 1152, at + 2304) == spec_encode_output(p.comms_ab@[j].1)
            &&& b.subrange(at + 2304, at + 3456) == spec_encode_output(p.comms_c@[j].0)
            &&& b.subrange(at + 3456, at + 4608) == spec_encode_output(p.comms_c@[j].1)
            &&& b.subrange(at + 4608, at + 5184) == gt_bytes(p.z_ab@[j].0)
            &&& b.subrange(at + 5184, at + 5760) == gt_bytes(p.z_ab@[j].1)
            &&& b.subrange(at + 5760, at + 5808) == g1_bytes(p.z_c@[j].0)
            &&& b.subrange(at + 5808, at + 5856) == g1_bytes(p.z_c@[j].1)
        }),
{
    let at = 2936 + j * 5856;
    let e1 = spec_encode_output(p.comms_ab@[j].0);
    let e2 = spec_encode_output(p.comms_ab@[j].1);
    let e3 = spec_encode_output(p.comms_c@[j].0);
    let e4 = spec_encode_output(p.comms_c@[j].1);
    let e5 = gt_bytes(p.z_ab@[j].0);
    let e6 = gt_bytes(p.z_ab@[j].1);
    let e7 = g1_bytes(p.z_c@[j].0);
    let e8 = g1_bytes(p.z_c@[j].1);
    assert(spec_round_bytes(p, j) == e1 + e2 + e3 + e4 + e5 + e6 + e7 + e8);
    assert((e1 + e2).len() == 2304);
    assert((e1 + e2 + e3).len() == 3456);
    assert((e1 + e2 + e3 + e4).len() == 4608);
    assert((e1 + e2 + e3 + e4 + e5).len() == 5184);
    assert((e1 + e2 + e3 + e4 + e5 + e6).len() == 5760);
    assert((e1 + e2 + e3 + e4 + e5 + e6 + e7).len() == 5808);
    assert forall|m: int| 0 <= m < 5856 implies b[at + m] == spec_round_bytes(p, j)[m] by {
        assert(b.subrange(at, at + 5856)[m] == b[at + m]);
    }
    assert(b.subrange(at + 0, at + 1152) =~= e1) by {
        assert forall|m: int| 0 <= m < 1152 implies b.subrange(at + 0, at + 1152)[m] == e1[m] by {
            assert(b[at + 0 + m] == spec_round_bytes(p, j)[0 + m]);
            assert(spec_round_bytes(p, j)[0 + m] == e1[m]);
        }
    }
    assert(b.subrange(at + 1152, at + 2304) =~= e2) by {
        assert forall|m: int| 0 <= m < 1152 implies b.subrange(at + 1152, at + 2304)[m] == e2[m] by {
            assert(b[at + 1152 + m] == spec_round_bytes(p, j)[1152 + m]);
            assert(spec_round_bytes(p, j)[1152 + m] == e2[m]);
        }
    }
    assert(b.subrange(at + 2304, at + 3456) =~= e3) by {
        assert forall|m: int| 0 <= m < 1152 implies b.subrange(at + 2304, at + 3456)[m] == e3[m] by {
            assert(b[at + 2304 + m] == spec_round_bytes(p, j)[2304 + m]);
            assert(spec_round_bytes(p, j)[2304 + m] == e3[m]);
        }
    }
    assert(b.subrange(at + 3456, at + 4608) =~= e4) by {
        assert forall|m: int| 0 <= m < 1152 implies b.subrange(at + 3456, at + 4608)[m] == e4[m] by {
            assert(b[at + 3456 + m] == spec_round_bytes(p, j)[3456 + m]);
            assert(spec_round_bytes(p, j)[3456 + m] == e4[m]);
        }
    }
    assert(b.subrange(at + 4608, at + 5184) =~= e5) by {
        assert forall|m: int| 0 <= m < 576 implies b.subrange(at + 4608, at + 5184)[m] == e5[m] by {
            assert(b[at + 4608 + m] == spec_round_bytes(p, j)[4608 + m]);
            assert(spec_round_bytes(p, j)[4608 + m] == e5[m]);
        }
    }
    assert(b.subrange(at + 5184, at + 5760) =~= e6) by {
        assert forall|m: int| 0 <= m < 576 implies b.subrange(at + 5184, at + 5760)[m] == e6[m] by {
            assert(b[at + 5184 + m] == spec_round_bytes(p, j)[5184 + m]);
            assert(spec_round_bytes(p, j)[5184 + m] == e6[m]);
        }
    }
    assert(b.subrange(at + 5760, at + 5808) =~= e7) by {
        assert forall|m: int| 0 <= m < 48 implies b.subrange(at + 5760, at + 5808)[m] == e7[m] by {
            assert(b[at + 5760 + m] == spec_round_bytes(p, j)[5760 + m]);
            assert(spec_round_bytes(p, j)[5760 + m] == e7[m]);
        }
    }
    assert(b.subrange(at + 5808, at + 5856) =~= e8) by {
        assert forall|m: int| 0 <= m < 48 implies b.subrange(at + 5808, at + 5856)[m] == e8[m] by {
            assert(b[at + 5808 + m] == spec_round_bytes(p, j)[5808 + m]);
            assert(spec_round_bytes(p, j)[5808 + m] == e8[m]);
        }
    }
}

/// Rounds laid out slot for slot in a byte image decode back to the proof's
/// round vectors.
proof fn lemma_rounds_decode_roundtrip(b: Seq<u8>, p: AggregateProof, i: int)
    requires
        p.well_formed(),
        0 <= i <= p.comms_ab@.len(),
        2936 + p.comms_ab@.len() * 5856 <= b.len(),
        forall|j: int| 0 <= j < p.comms_ab@.len() ==> #[trigger] spec_round_roundtrips(p, j),
        forall|j: int| 0 <= j < p.comms_ab@.len() ==> #[trigger] b.subrange(
            2936 + j * 5856,
            2936 + (j + 1) * 5856,
        ) == spec_round_bytes(p, j),
    ensures
        spec_decode_rounds(b, i) == Some(
            (
                p.comms_ab@.subrange(0, i),
                p.comms_c@.subrange(0, i),
                p.z_ab@.subrange(0, i),
                p.z_c@.subrange(0, i),
            ),
        ),
    decreases i,
{
    if i > 0 {
        lemma_rounds_decode_roundtrip(b, p, i - 1);
        assert(2936 + i * 5856 <= b.len()) by (nonlinear_arith)
            requires
                i <= p.comms_ab@.len(),
                2936 + p.comms_ab@.len() * 5856 <= b.len(),
        ;
        lemma_round_window_split(b, p, i - 1);
        let at = 2936 + (i - 1) * 5856;
        assert(spec_round_roundtrips(p, i - 1));
        assert(spec_decode_output(b.subrange(at, at + 1152)) == Some(p.comms_ab@[i - 1].0));
        assert(spec_decode_output(b.subrange(at + 1152, at + 2304)) == Some(p.comms_ab@[i - 1].1));
        assert(spec_decode_output(b.subrange(at + 2304, at + 3456)) == Some(p.comms_c@[i - 1].0));
        assert(spec_decode_output(b.subrange(at + 3456, at + 4608)) == Some(p.comms_c@[i - 1].1));
        assert(gt_of_bytes(b.subrange(at + 4608, at + 5184)) == Some(p.z_ab@[i - 1].0));
        assert(gt_of_bytes(b.subrange(at + 5184, at + 5760)) == Some(p.z_ab@[i - 1].1));
        assert(g1_of_bytes(b.subrange(at + 5760, at + 5808)) == Some(p.z_c@[i - 1].0));
        assert(g1_of_bytes(b.subrange(at + 5808, at + 5856)) == Some(p.z_c@[i - 1].1));
        assert(p.comms_ab@.subrange(0, i - 1).push(p.comms_ab@[i - 1]) =~= p.comms_ab@.subrange(
            0,
            i,
        ));
        assert(p.comms_c@.subrange(0, i - 1).push(p.comms_c@[i - 1]) =~= p.comms_c@.subrange(
            0,
            i,
        ));
        assert(p.z_ab@.subrange(0, i - 1).push(p.z_ab@[i - 1]) =~= p.z_ab@.subrange(0, i));
        assert(p.z_c@.subrange(0, i - 1).push(p.z_c@[i - 1]) =~= p.z_c@.subrange(0, i));
    } else {
        assert(p.comms_ab@.subrange(0, 0) =~= Seq::<(Output, Output)>::empty());
        assert(p.comms_c@.subrange(0, 0) =~= Seq::<(Output, Output)>::empty());
        assert(p.z_ab@.subrange(0, 0) =~= Seq::<(GtElem, GtElem)>::empty());
        assert(p.z_c@.subrange(0, 0) =~= Seq::<(G1Elem, G1Elem)>::empty());
    }
}

/// Encodes one fold round.
fn encode_round(p: &AggregateProof, i: usize) -> (r: Vec<u8>)
    requires
        p.well_formed(),
        i < p.comms_ab@.len(),
    ensures
        r@ == spec_round_bytes(*p, i as int),
        r@.len() == 5856,
        spec_round_roundtrips(*p, i as int),
{
    let mut out = encode_output(&p.comms_ab[i].0);
    let b1 = encode_output(&p.comms_ab[i].1);
    push_bytes(&mut out, &b1);
    let b2 = encode_output(&p.comms_c[i].0);
    push_bytes(&mut out, &b2);
    let b3 = encode_output(&p.comms_c[i].1);
    push_bytes(&mut out, &b3);
    let b4 = gt_to_bytes(&p.z_ab[i].0);
    push_bytes(&mut out, &b4);
    let b5 = gt_to_bytes(&p.z_ab[i].1);
    push_bytes(&mut out, &b5);
    let b6 = g1_to_bytes(&p.z_c[i].0);
    push_bytes(&mut out, &b6);
    let b7 = g1_to_bytes(&p.z_c[i].1);
    push_bytes(&mut out, &b7);
    out
}

/// Encodes an aggregate proof canonically; within the supported round
/// bound, decoding the bytes returns the proof unchanged, field for field.
#[verifier::loop_isolation(false)]
pub fn encode_aggregate_proof(p: &AggregateProof) -> (r: Vec<u8>)
    requires
        p.well_formed(),
    ensures
        r@ == spec_encode_proof(*p),
        p.comms_ab@.len() <= 63 ==> spec_decodes_to(r@, *p),
{
    let mut out = encode_output(&p.com_ab);
    let b1 = encode_output(&p.com_c);
    push_bytes(&mut out, &b1);
    let b2 = gt_to_bytes(&p.ip_ab);
    push_bytes(&mut out, &b2);
    let b3 = g1_to_bytes(&p.agg_c);
    push_bytes(&mut out, &b3);
    let rounds: usize = p.comms_ab.len();
    let b4 = u64_to_le_bytes(rounds as u64);
    push_bytes(&mut out, &b4);
    let ghost header = spec_encode_output(p.com_ab) + spec_encode_output(p.com_c) + gt_bytes(
        p.ip_ab,
    ) + g1_bytes(p.agg_c) + spec_u64_to_le_bytes(rounds as u64);
    assert(out@ =~= header);
    let mut i: usize = 0;
    while i < rounds
        invariant
            i <= rounds,
            out@ == header + spec_rounds_bytes(*p, i as int),
            forall|j: int| 0 <= j < i ==> #[trigger] spec_round_roundtrips(*p, j),
        decreases rounds - i,
    {
        let rb = encode_round(p, i);
        push_bytes(&mut out, &rb);
        i = i + 1;
        assert(header + spec_rounds_bytes(*p, i - 1) + spec_round_bytes(*p, i - 1) =~= header
            + spec_rounds_bytes(*p, i as int));
    }
    let t1 = g1_to_bytes(&p.final_a);
    push_bytes(&mut out, &t1);
    let t2 = g2_to_bytes(&p.final_b);
    push_bytes(&mut out, &t2);
    let t3 = g1_to_bytes(&p.final_c);
    push_bytes(&mut out, &t3);
    let t4 = g2_to_bytes(&p.final_vkey.0);
    push_bytes(&mut out, &t4);
    let t5 = g2_to_bytes(&p.final_vkey.1);
    push_bytes(&mut out, &t5);
    let t6 = g1_to_bytes(&p.final_wkey.0);
    push_bytes(&mut out, &t6);
    let t7 = g1_to_bytes(&p.final_wkey.1);
    push_bytes(&mut out, &t7);
    let t8 = g2_to_bytes(&p.vkey_opening.0);
    push_bytes(&mut out, &t8);
    let t9 = g2_to_bytes(&p.vkey_opening.1);
    push_bytes(&mut out, &t9);
    let t10 = g1_to_bytes(&p.wkey_opening.0);
    push_bytes(&mut out, &t10);
    let t11 = g1_to_bytes(&p.wkey_opening.1);
    push_bytes(&mut out, &t11);
    assert(out@ =~= spec_encode_proof(*p));
    proof {
        if p.comms_ab@.len() <= 63 {
            let n = p.comms_ab@.len() as int;
            vstd::bytes::lemma_auto_spec_u64_to_from_le_bytes();
            lemma_rounds_bytes_layout(*p, n);
            assert(out@.len() == 3704 + n * 5856);
            assert(out@.subrange(2928, 2936) =~= spec_u64_to_le_bytes(rounds as u64));
            assert(spec_proof_rounds(out@) == n);
            assert(out@.subrange(0, 1152) =~= spec_encode_output(p.com_ab));
            assert(out@.subrange(1152, 2304) =~= spec_encode_output(p.com_c));
            assert(out@.subrange(2304, 2880) =~= gt_bytes(p.ip_ab));
            assert(out@.subrange(2880, 2928) =~= g1_bytes(p.agg_c));
            assert forall|j: int|
                0 <= j < n implies #[trigger] out@.subrange(
                2936 + j * 5856,
                2936 + (j + 1) * 5856,
            ) == spec_round_bytes(*p, j) by {
                lemma_rounds_bytes_index(*p, n, j);
                assert(out@.subrange(2936 + j * 5856, 2936 + (j + 1) * 5856)
                    =~= spec_rounds_bytes(*p, n).subrange(j * 5856, (j + 1) * 5856));
            }
            lemma_rounds_decode_roundtrip(out@, *p, n);
            assert(p.comms_ab@.subrange(0, n) =~= p.comms_ab@);
            assert(p.comms_c@.subrange(0, n) =~= p.comms_c@);
            assert(p.z_ab@.subrange(0, n) =~= p.z_ab@);
            assert(p.z_c@.subrange(0, n) =~= p.z_c@);
            let tl = 2936 + n * 5856;
            assert(spec_proof_tail(out@) == tl);
            assert(out@.subrange(tl + 0, tl + 48) =~= g1_bytes(p.final_a));
            assert(out@.subrange(tl + 48, tl + 144) =~= g2_bytes(p.final_b));
            assert(out@.subrange(tl + 144, tl + 192) =~= g1_bytes(p.final_c));
            assert(out@.subrange(tl + 192, tl + 288) =~= g2_bytes(p.final_vkey.0));
            assert(out@.subrange(tl + 288, tl + 384) =~= g2_bytes(p.final_vkey.1));
            assert(out@.subrange(tl + 384, tl + 432) =~= g1_bytes(p.final_wkey.0));
            assert(out@.subrange(tl + 432, tl + 480) =~= g1_bytes(p.final_wkey.1));
            assert(out@.subrange(tl + 480, tl + 576) =~= g2_bytes(p.vkey_opening.0));
            assert(out@.subrange(tl + 576, tl + 672) =~= g2_bytes(p.vkey_opening.1));
            assert(out@.subrange(tl + 672, tl + 720) =~= g1_bytes(p.wkey_opening.0));
            assert(out@.subrange(tl + 720, tl + 768) =~= g1_bytes(p.wkey_opening.1));
            assert(spec_proof_decodable(out@));
            assert(spec_decodes_to(out@, *p));
        }
    }
    out
}

/// Decodes one fold round at byte offset `at`, pushing its four element
/// pairs onto the four round vectors.
fn decode_round(
    b: &Vec<u8>,
    at: usize,
    comms_ab: &mut Vec<(Output, Output)>,
    comms_c: &mut Vec<(Output, Output)>,
    z_ab: &mut Vec<(GtElem, GtElem)>,
    z_c: &mut Vec<(G1Elem, G1Elem)>,
) -> (ok: bool)
    requires
        at + 5856 <= b@.len(),
    ensures
        ({
            let c1 = spec_decode_output(b@.subrange(at as int, at + 1152));
            let c2 = spec_decode_output(b@.subrange(at + 1152, at + 2304));
            let c3 = spec_decode_output(b@.subrange(at + 2304, at + 3456));
            let c4 = spec_decode_output(b@.subrange(at + 3456, at + 4608));
            let z1 = gt_of_bytes(b@.subrange(at + 4608, at + 5184));
            let z2 = gt_of_bytes(b@.subrange(at + 5184, at + 5760));
            let w1 = g1_of_bytes(b@.subrange(at + 5760, at + 5808));
            let w2 = g1_of_bytes(b@.subrange(at + 5808, at + 5856));
            if ok {
                &&& c1 is Some && c2 is Some && c3 is Some && c4 is Some
                &&& z1 is Some && z2 is Some && w1 is Some && w2 is Some
                &&& final(comms_ab)@ == old(comms_ab)@.push((c1->Some_0, c2->Some_0))
                &&& final(comms_c)@ == old(comms_c)@.push((c3->Some_0, c4->Some_0))
                &&& final(z_ab)@ == old(z_ab)@.push((z1->Some_0, z2->Some_0))
                &&& final(z_c)@ == old(z_c)@.push((w1->Some_0, w2->Some_0))
            } else {
                &&& (c1 is None || c2 is None || c3 is None || c4 is None || z1 is None || z2
                    is None || w1 is None || w2 is None)
                &&& final(comms_ab)@ == old(comms_ab)@
                &&& final(comms_c)@ == old(comms_c)@
                &&& final(z_ab)@ == old(z_ab)@
                &&& final(z_c)@ == old(z_c)@
            }
        }),
{
    let total: usize = b.len();
    assert(at + 5856 <= total);
    let c1 = take_chunk(b, at, 1152);
    let c2 = take_chunk(b, at + 1152, 1152);
    let c3 = take_chunk(b, at + 2304, 1152);
    let c4 = take_chunk(b, at + 3456, 1152);
    let c5 = take_chunk(b, at + 4608, 576);
    let c6 = take_chunk(b, at + 5184, 576);
    let c7 = take_chunk(b, at + 5760, 48);
    let c8 = take_chunk(b, at + 5808, 48);
    match (decode_output(&c1), decode_output(&c2), decode_output(&c3), decode_output(&c4)) {
        (Some(cab_l), Some(cab_r), Some(cc_l), Some(cc_r)) => {
            match (gt_from_bytes(&c5), gt_from_bytes(&c6), g1_from_bytes(&c7), g1_from_bytes(
                &c8,
            )) {
                (Some(zab_l), Some(zab_r), Some(zc_l), Some(zc_r)) => {
                    comms_ab.push((cab_l, cab_r));
                    comms_c.push((cc_l, cc_r));
                    z_ab.push((zab_l, zab_r));
                    z_c.push((zc_l, zc_r));
                    true
                },
                _ => false,
            }
        },
        _ => false,
    }
}

/// Decodes an aggregate proof from canonical bytes: the batch commitments
/// and claims, the round count, that many rounds, then the tail, with
/// nothing left over. The result is exactly what the byte image decodes to:
/// `Some` iff the image is decodable, with every field pinned.
#[verifier::loop_isolation(false)]
pub fn decode_aggregate_proof(b: &Vec<u8>) -> (r: Option<AggregateProof>)
    ensures
        match r {
            Some(p) => spec_decodes_to(b@, p) && p.well_formed(),
            None => !spec_proof_decodable(b@),
        },
        b@.len() < 3704 ==> r is None,
{
    if b.len() < 3704 {
        return None;
    }
    let c_com_ab = take_chunk(b, 0, 1152);
    let c_com_c = take_chunk(b, 1152, 1152);
    let c_ip = take_chunk(b, 2304, 576);
    let c_agg = take_chunk(b, 2880, 48);
    let c_rounds = take_chunk(b, 2928, 8);
    let rounds64 = u64_from_le_bytes(c_rounds.as_slice());
    if rounds64 > 63 {
        return None;
    }
    let rounds: usize = rounds64 as usize;
    let expected: usize = 3704 + rounds * 5856;
    if b.len() != expected {
        return None;
    }
    let com_ab = match decode_output(&c_com_ab) {
        Some(v) => v,
        None => { return None; },
    };
    let com_c = match decode_output(&c_com_c) {
        Some(v) => v,
        None => { return None; },
    };
    let ip_ab = match gt_from_bytes(&c_ip) {
        Some(v) => v,
        None => { return None; },
    };
    let agg_c = match g1_from_bytes(&c_agg) {
        Some(v) => v,
        None => { return None; },
    };
    let mut comms_ab: Vec<(Output, Output)> = Vec::new();
    let mut comms_c: Vec<(Output, Output)> = Vec::new();
    let mut z_ab: Vec<(GtElem, GtElem)> = Vec::new();
    let mut z_c: Vec<(G1Elem, G1Elem)> = Vec::new();
    let mut i: usize = 0;
    while i < rounds
        invariant
            i <= rounds,
            spec_decode_rounds(b@, i as int) == Some((comms_ab@, comms_c@, z_ab@, z_c@)),
            comms_ab@.len() == i,
            comms_c@.len() == i,
            z_ab@.len() == i,
            z_c@.len() == i,
        decreases rounds - i,
    {
        assert(2936 + i * 5856 + 5856 <= b@.len()) by (nonlinear_arith)
            requires
                i < rounds,
                rounds <= 63,
                b@.len() == 3704 + rounds * 5856,
        ;
        let at: usize = 2936 + i * 5856;
        let ok = decode_round(b, at, &mut comms_ab, &mut comms_c, &mut z_ab, &mut z_c);
        if !ok {
            proof {
                assert(spec_decode_rounds(b@, i + 1) is None);
                lemma_rounds_none_propagates(b@, i + 1, rounds as int);
                assert(spec_proof_rounds(b@) == rounds as int);
            }
            return None;
        }
        i = i + 1;
    }
    let tail: usize = 2936 + rounds * 5856;
    let t1 = take_chunk(b, tail, 48);
    let t2 = take_chunk(b, tail + 48, 96);
    let t3 = take_chunk(b, tail + 144, 48);
    let t4 = take_chunk(b, tail + 192, 96);
    let t5 = take_chunk(b, tail + 288, 96);
    let t6 = take_chunk(b, tail + 384, 48);
    let t7 = take_chunk(b, tail + 432, 48);
    let t8 = take_chunk(b, tail + 480, 96);
    let t9 = take_chunk(b, tail + 576, 96);
    let t10 = take_chunk(b, tail + 672, 48);
    let t11 = take_chunk(b, tail + 720, 48);
    match (g1_from_bytes(&t1), g2_from_bytes(&t2), g1_from_bytes(&t3)) {
        (Some(final_a), Some(final_b), Some(final_c)) => {
            match (g2_from_bytes(&t4), g2_from_bytes(&t5), g1_from_bytes(&t6), g1_from_bytes(
                &t7,
            )) {
                (Some(fv0), Some(fv1), Some(fw0), Some(fw1)) => {
                    match (g2_from_bytes(&t8), g2_from_bytes(&t9), g1_from_bytes(&t10),
                    g1_from_bytes(&t11)) {
                        (Some(vo0), Some(vo1), Some(wo0), Some(wo1)) => Some(AggregateProof {
                            com_ab,
                            com_c,
                            ip_ab,
                            agg_c,
                            comms_ab,
                            comms_c,
                            z_ab,
                            z_c,
                            final_a,
                            final_b,
                            final_c,
                            final_vkey: (fv0, fv1),
                            final_wkey: (fw0, fw1),
                            vkey_opening: (vo0, vo1),
                            wkey_opening: (wo0, wo1),
                        }),
                        _ => None,
                    }
                },
                _ => None,
            }
        },
        _ => None,
    }
}

} // verus!
