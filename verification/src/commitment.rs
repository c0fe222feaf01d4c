//! Commitment-key algebra and pairing commitments.
//!
//! A commitment key is a pair of equal-length vectors of points of one source
//! group. Folding a key (`split` then `compress`) is the recursive step of the
//! inner-pairing-product argument; the pairing commitment functions commit
//! data vectors against such keys.

use vstd::prelude::*;
use crate::Error;
use crate::curve::{
    Scalar, G1Elem, G2Elem, GtElem, g1_mul, g1_add, g2_mul, g2_add, g1_scale_point, g2_scale_point,
    g1_fold_point, g2_fold_point, pairing_of, gt_mul, compute_pairing, fq12_mul, fq12_eq,
};

verus! {

/// A commitment key: two equal-length vectors of points of one source group.
#[derive(Clone)]
pub struct Key<G> {
    /// Points whose hidden exponent is the first setup secret.
    pub a: Vec<G>,
    /// Points whose hidden exponent is the second setup secret.
    pub b: Vec<G>,
}

/// Commitment key in the second source group, used to commit vectors of
/// first-group points.
pub type VKey = Key<G2Elem>;

/// Commitment key in the first source group, used to commit vectors of
/// second-group points.
pub type WKey = Key<G1Elem>;

impl<G: Copy> Key<G> {
    /// Both vectors of a key always have the same length.
    pub open spec fn well_formed(self) -> bool {
        self.a@.len() == self.b@.len()
    }

    /// True iff both vectors have length exactly `n`.
    pub fn has_correct_len(&self, n: usize) -> (r: bool)
        ensures
            r == (self.a@.len() == n && self.b@.len() == n),
    {
        self.a.len() == n && self.b.len() == n
    }

    /// Partitions both vectors at `at` into a left key (indices `[0, at)`)
    /// and a right key (indices `[at, len)`), consuming the original.
    pub fn split(self, at: usize) -> (r: (Key<G>, Key<G>))
        requires
            self.well_formed(),
            at <= self.a@.len(),
        ensures
            r.0.a@ == self.a@.subrange(0, at as int),
            r.0.b@ == self.b@.subrange(0, at as int),
            r.1.a@ == self.a@.subrange(at as int, self.a@.len() as int),
            r.1.b@ == self.b@.subrange(at as int, self.b@.len() as int),
            r.0.well_formed() && r.1.well_formed(),
    {
        let n: usize = self.a.len();
        let mut left_a: Vec<G> = Vec::new();
        let mut left_b: Vec<G> = Vec::new();
        let mut right_a: Vec<G> = Vec::new();
        let mut right_b: Vec<G> = Vec::new();
        let mut i: usize = 0;
        while i < at
            invariant
                i <= at <= n,
                n == self.a@.len() == self.b@.len(),
                left_a@ == self.a@.subrange(0, i as int),
                left_b@ == self.b@.subrange(0, i as int),
            decreases at - i,
        {
            left_a.push(self.a[i]);
            left_b.push(self.b[i]);
            i = i + 1;
            assert(left_a@ == self.a@.subrange(0, i as int));
            assert(left_b@ == self.b@.subrange(0, i as int));
        }
        let mut j: usize = at;
        while j < n
            invariant
                at <= j <= n,
                n == self.a@.len() == self.b@.len(),
                right_a@ == self.a@.subrange(at as int, j as int),
                right_b@ == self.b@.subrange(at as int, j as int),
            decreases n - j,
        {
            right_a.push(self.a[j]);
            right_b.push(self.b[j]);
            j = j + 1;
            assert(right_a@ == self.a@.subrange(at as int, j as int));
            assert(right_b@ == self.b@.subrange(at as int, j as int));
        }
        (Key { a: left_a, b: left_b }, Key { a: right_a, b: right_b })
    }

    /// Returns the element pair at index 0, the base case once a key has been
    /// folded down to length 1.
    pub fn first(&self) -> (r: (G, G))
        requires
            self.well_formed(),
            self.a@.len() >= 1,
        ensures
            r.0 == self.a@[0],
            r.1 == self.b@[0],
    {
        (self.a[0], self.b[0])
    }
}

impl Key<G2Elem> {
    /// Scales both vectors element-wise: each output point is the matching
    /// input point multiplied by the matching scalar. Fails with
    /// `InvalidKeyLength` iff the scalar vector's length differs from the
    /// key's.
    pub fn scale(&self, s_vec: &Vec<Scalar>) -> (r: Result<Key<G2Elem>, Error>)
        requires
            self.well_formed(),
        ensures
            match r {
                Ok(k) => {
                    &&& s_vec@.len() == self.a@.len()
                    &&& k.a@.len() == self.a@.len()
                    &&& k.b@.len() == self.b@.len()
                    &&& forall|i: int|
                        0 <= i < k.a@.len() ==> k.a@[i] == g2_mul(self.a@[i], s_vec@[i])
                    &&& forall|i: int|
                        0 <= i < k.b@.len() ==> k.b@[i] == g2_mul(self.b@[i], s_vec@[i])
                },
                Err(e) => e == Error::InvalidKeyLength && s_vec@.len() != self.a@.len(),
            },
    {
        if self.a.len() != s_vec.len() {
            return Err(Error::InvalidKeyLength);
        }
        let n: usize = self.a.len();
        let mut out_a: Vec<G2Elem> = Vec::new();
        let mut out_b: Vec<G2Elem> = Vec::new();
        let mut i: usize = 0;
        while i < n
            invariant
                i <= n,
                n == self.a@.len() == self.b@.len() == s_vec@.len(),
                out_a@.len() == i,
                out_b@.len() == i,
                forall|k: int| 0 <= k < i ==> out_a@[k] == g2_mul(self.a@[k], s_vec@[k]),
                forall|k: int| 0 <= k < i ==> out_b@[k] == g2_mul(self.b@[k], s_vec@[k]),
            decreases n - i,
        {
            out_a.push(g2_scale_point(&self.a[i], &s_vec[i]));
            out_b.push(g2_scale_point(&self.b[i], &s_vec[i]));
            i = i + 1;
        }
        Ok(Key { a: out_a, b: out_b })
    }

    /// Combines this key (the left half) with `right` element-wise: each
    /// output point is `left[i] + scale * right[i]`. This is the recursive
    /// fold step. Fails with `InvalidKeyLength` iff the two keys differ in
    /// length.
    pub fn compress(&self, right: &Key<G2Elem>, scale: &Scalar) -> (r: Result<
        Key<G2Elem>,
        Error,
    >)
        requires
            self.well_formed(),
            right.well_formed(),
        ensures
            match r {
                Ok(k) => {
                    &&& right.a@.len() == self.a@.len()
                    &&& k.a@.len() == self.a@.len()
                    &&& k.b@.len() == self.b@.len()
                    &&& forall|i: int|
                        0 <= i < k.a@.len() ==> k.a@[i] == g2_add(
                            self.a@[i],
                            g2_mul(right.a@[i], *scale),
                        )
                    &&& forall|i: int|
                        0 <= i < k.b@.len() ==> k.b@[i] == g2_add(
                            self.b@[i],
                            g2_mul(right.b@[i], *scale),
                        )
                },
                Err(e) => e == Error::InvalidKeyLength && right.a@.len() != self.a@.len(),
            },
    {
        if self.a.len() != right.a.len() {
            return Err(Error::InvalidKeyLength);
        }
        let n: usize = self.a.len();
        let mut out_a: Vec<G2Elem> = Vec::new();
        let mut out_b: Vec<G2Elem> = Vec::new();
        let mut i: usize = 0;
        while i < n
            invariant
                i <= n,
                n == self.a@.len() == self.b@.len() == right.a@.len() == right.b@.len(),
                out_a@.len() == i,
                out_b@.len() == i,
                forall|k: int|
                    0 <= k < i ==> out_a@[k] == g2_add(self.a@[k], g2_mul(right.a@[k], *scale)),
                forall|k: int|
                    0 <= k < i ==> out_b@[k] == g2_add(self.b@[k], g2_mul(right.b@[k], *scale)),
            decreases n - i,
        {
            out_a.push(g2_fold_point(&self.a[i], &right.a[i], scale));
            out_b.push(g2_fold_point(&self.b[i], &right.b[i], scale));
            i = i + 1;
        }
        Ok(Key { a: out_a, b: out_b })
    }
}

impl Key<G1Elem> {
    /// Scales both vectors element-wise: each output point is the matching
    /// input point multiplied by the matching scalar. Fails with
    /// `InvalidKeyLength` iff the scalar vector's length differs from the
    /// key's.
    pub fn scale(&self, s_vec: &Vec<Scalar>) -> (r: Result<Key<G1Elem>, Error>)
        requires
            self.well_formed(),
        ensures
            match r {
                Ok(k) => {
                    &&& s_vec@.len() == self.a@.len()
                    &&& k.a@.len() == self.a@.len()
                    &&& k.b@.len() == self.b@.len()
                    &&& forall|i: int|
                        0 <= i < k.a@.len() ==> k.a@[i] == g1_mul(self.a@[i], s_vec@[i])
                    &&& forall|i: int|
                        0 <= i < k.b@.len() ==> k.b@[i] == g1_mul(self.b@[i], s_vec@[i])
                },
                Err(e) => e == Error::InvalidKeyLength && s_vec@.len() != self.a@.len(),
            },
    {
        if self.a.len() != s_vec.len() {
            return Err(Error::InvalidKeyLength);
        }
        let n: usize = self.a.len();
        let mut out_a: Vec<G1Elem> = Vec::new();
        let mut out_b: Vec<G1Elem> = Vec::new();
        let mut i: usize = 0;
        while i < n
            invariant
                i <= n,
                n == self.a@.len() == self.b@.len() == s_vec@.len(),
                out_a@.len() == i,
                out_b@.len() == i,
                forall|k: int| 0 <= k < i ==> out_a@[k] == g1_mul(self.a@[k], s_vec@[k]),
                forall|k: int| 0 <= k < i ==> out_b@[k] == g1_mul(self.b@[k], s_vec@[k]),
            decreases n - i,
        {
            out_a.push(g1_scale_point(&self.a[i], &s_vec[i]));
            out_b.push(g1_scale_point(&self.b[i], &s_vec[i]));
            i = i + 1;
        }
        Ok(Key { a: out_a, b: out_b })
    }

    /// Combines this key (the left half) with `right` element-wise: each
    /// output point is `left[i] + scale * right[i]`. This is the recursive
    /// fold step. Fails with `InvalidKeyLength` iff the two keys differ in
    /// length.
    pub fn compress(&self, right: &Key<G1Elem>, scale: &Scalar) -> (r: Result<
        Key<G1Elem>,
        Error,
    >)
        requires
            self.well_formed(),
            right.well_formed(),
        ensures
            match r {
                Ok(k) => {
                    &&& right.a@.len() == self.a@.len()
                    &&& k.a@.len() == self.a@.len()
                    &&& k.b@.len() == self.b@.len()
                    &&& forall|i: int|
                        0 <= i < k.a@.len() ==> k.a@[i] == g1_add(
                            self.a@[i],
                            g1_mul(right.a@[i], *scale),
                        )
                    &&& forall|i: int|
                        0 <= i < k.b@.len() ==> k.b@[i] == g1_add(
                            self.b@[i],
                            g1_mul(right.b@[i], *scale),
                        )
                },
                Err(e) => e == Error::InvalidKeyLength && right.a@.len() != self.a@.len(),
            },
    {
        if self.a.len() != right.a.len() {
            return Err(Error::InvalidKeyLength);
        }
        let n: usize = self.a.len();
        let mut out_a: Vec<G1Elem> = Vec::new();
        let mut out_b: Vec<G1Elem> = Vec::new();
        let mut i: usize = 0;
        while i < n
            invariant
                i <= n,
                n == self.a@.len() == self.b@.len() == right.a@.len() == right.b@.len(),
                out_a@.len() == i,
                out_b@.len() == i,
                forall|k: int|
                    0 <= k < i ==> out_a@[k] == g1_add(self.a@[k], g1_mul(right.a@[k], *scale)),
                forall|k: int|
                    0 <= k < i ==> out_b@[k] == g1_add(self.b@[k], g1_mul(right.b@[k], *scale)),
            decreases n - i,
        {
            out_a.push(g1_fold_point(&self.a[i], &right.a[i], scale));
            out_b.push(g1_fold_point(&self.b[i], &right.b[i], scale));
            i = i + 1;
        }
        Ok(Key { a: out_a, b: out_b })
    }
}

/// Splitting a key at its midpoint and re-joining the halves with `compress`
/// reproduces, at every index, the left element plus the challenge multiple
/// of the matching right element of the original key: the linear relation the
/// fold implements.
pub proof fn lemma_split_compress_consistency(
    orig: Key<G2Elem>,
    at: int,
    x: Scalar,
    left: Key<G2Elem>,
    right: Key<G2Elem>,
    joined: Key<G2Elem>,
)
    requires
        orig.well_formed(),
        0 <= at,
        2 * at == orig.a@.len(),
        left.a@ == orig.a@.subrange(0, at),
        left.b@ == orig.b@.subrange(0, at),
        right.a@ == orig.a@.subrange(at, orig.a@.len() as int),
        right.b@ == orig.b@.subrange(at, orig.b@.len() as int),
        joined.a@.len() == at,
        joined.b@.len() == at,
        forall|i: int| 0 <= i < at ==> joined.a@[i] == g2_add(left.a@[i], g2_mul(right.a@[i], x)),
        forall|i: int| 0 <= i < at ==> joined.b@[i] == g2_add(left.b@[i], g2_mul(right.b@[i], x)),
    ensures
        forall|i: int| 0 <= i < at ==> joined.a@[i] == g2_add(orig.a@[i], g2_mul(orig.a@[i + at], x)),
        forall|i: int| 0 <= i < at ==> joined.b@[i] == g2_add(orig.b@[i], g2_mul(orig.b@[i + at], x)),
{
}

/// One half-fold of a vector of second-group points: element `i` of the
/// result is `s[i] + x * s[i + half]`.
pub open spec fn spec_half_fold(s: Seq<G2Elem>, x: Scalar) -> Seq<G2Elem> {
    Seq::new(s.len() / 2, |i: int| g2_add(s[i], g2_mul(s[i + s.len() / 2], x)))
}

/// Repeated half-folds, one per challenge, applied in order.
pub open spec fn spec_fold_all(s: Seq<G2Elem>, xs: Seq<Scalar>) -> Seq<G2Elem>
    decreases xs.len(),
{
    if xs.len() == 0 {
        s
    } else {
        spec_fold_all(spec_half_fold(s, xs[0]), xs.subrange(1, xs.len() as int))
    }
}

/// Folding a vector of length `2^k` down with `k` successive half-folds (the
/// relation each `split`-then-`compress` round implements, by
/// `lemma_split_compress_consistency`) reaches the base case of the
/// recursion: a single element. Equating that element to the closed-form
/// combination of the original elements weighted by challenge products
/// rests on group laws the curve boundary does not state, and is checked at
/// run time instead.
pub proof fn lemma_repeated_fold_reaches_base(s: Seq<G2Elem>, xs: Seq<Scalar>)
    requires
        s.len() == vstd::arithmetic::power2::pow2(xs.len()),
    ensures
        spec_fold_all(s, xs).len() == 1,
    decreases xs.len(),
{
    vstd::arithmetic::power2::lemma_pow2_pos(xs.len());
    if xs.len() == 0 {
        assert(s.len() == 1) by {
            vstd::arithmetic::power2::lemma2_to64();
        }
    } else {
        let folded = spec_half_fold(s, xs[0]);
        assert(vstd::arithmetic::power2::pow2(xs.len()) == 2 * vstd::arithmetic::power2::pow2(
            (xs.len() - 1) as nat,
        )) by {
            vstd::arithmetic::power2::lemma_pow2_unfold(xs.len());
        }
        assert(folded.len() == vstd::arithmetic::power2::pow2((xs.len() - 1) as nat));
        lemma_repeated_fold_reaches_base(folded, xs.subrange(1, xs.len() as int));
    }
}

/// A commitment output: a pair of target-field elements, the two halves of a
/// bilinear commitment. A pure value compared by equality.
pub struct Output(pub GtElem, pub GtElem);

impl PartialEq for Output {
    fn eq(&self, other: &Output) -> (r: bool) {
        fq12_eq(&self.0, &other.0) && fq12_eq(&self.1, &other.1)
    }
}

impl vstd::std_specs::cmp::PartialEqSpecImpl for Output {
    open spec fn obeys_eq_spec() -> bool {
        true
    }

    open spec fn eq_spec(&self, other: &Output) -> bool {
        self.0 == other.0 && self.1 == other.1
    }
}

/// The inner pairing product of two equal-length, non-empty vectors: the
/// product over all indices of the pairing of the matching elements.
pub open spec fn spec_ip(a: Seq<G1Elem>, b: Seq<G2Elem>) -> GtElem
    decreases a.len(),
{
    if a.len() <= 1 {
        pairing_of(a[0], b[0])
    } else {
        gt_mul(
            spec_ip(a.drop_last(), b.drop_last()),
            pairing_of(a[a.len() - 1], b[b.len() - 1]),
        )
    }
}

/// Computes the inner pairing product of `a` and `b`.
pub fn ip_pairing(a: &Vec<G1Elem>, b: &Vec<G2Elem>) -> (r: GtElem)
    requires
        a@.len() == b@.len(),
        a@.len() >= 1,
    ensures
        r == spec_ip(a@, b@),
{
    let n: usize = a.len();
    let mut acc: GtElem = compute_pairing(&a[0], &b[0]);
    assert(a@.subrange(0, 1).len() == 1);
    assert(a@.subrange(0, 1)[0] == a@[0]);
    assert(acc == spec_ip(a@.subrange(0, 1), b@.subrange(0, 1)));
    let mut i: usize = 1;
    while i < n
        invariant
            1 <= i <= n,
            n == a@.len() == b@.len(),
            acc == spec_ip(a@.subrange(0, i as int), b@.subrange(0, i as int)),
        decreases n - i,
    {
        let term = compute_pairing(&a[i], &b[i]);
        acc = fq12_mul(&acc, &term);
        i = i + 1;
        assert(a@.subrange(0, i as int).drop_last() == a@.subrange(0, i - 1));
        assert(b@.subrange(0, i as int).drop_last() == b@.subrange(0, i - 1));
        assert(a@.subrange(0, i as int).len() == i);
        assert(a@.subrange(0, i as int)[i - 1] == a@[i - 1]);
        assert(b@.subrange(0, i as int)[i - 1] == b@[i - 1]);
    }
    assert(a@.subrange(0, n as int) == a@);
    assert(b@.subrange(0, n as int) == b@);
    acc
}

/// Commits a vector of first-group points against a commitment key in the
/// second group: two independent pairing inner products, one against each
/// vector of the key. Used when only one side of the relation has committed
/// data. A key's length equals the number of proofs aggregated when used
/// operationally, so the committed vectors are never empty.
pub fn single_g1(vkey: &VKey, a_vec: &Vec<G1Elem>) -> (r: Result<Output, Error>)
    requires
        vkey.well_formed(),
        a_vec@.len() == vkey.a@.len(),
        a_vec@.len() >= 1,
    ensures
        r is Ok,
        r->Ok_0.0 == spec_ip(a_vec@, vkey.a@),
        r->Ok_0.1 == spec_ip(a_vec@, vkey.b@),
{
    let t = ip_pairing(a_vec, &vkey.a);
    let u = ip_pairing(a_vec, &vkey.b);
    Ok(Output(t, u))
}

/// Commits a pair of vectors (first group, second group) against both
/// commitment keys: four independent pairing inner products, combined as
/// `(⟨a,v_a⟩·⟨w_a,b⟩, ⟨a,v_b⟩·⟨w_b,b⟩)` in the target field. A key's length
/// equals the number of proofs aggregated when used operationally, so the
/// committed vectors are never empty.
pub fn pair(vkey: &VKey, wkey: &WKey, a: &Vec<G1Elem>, b: &Vec<G2Elem>) -> (r: Result<
    Output,
    Error,
>)
    requires
        vkey.well_formed(),
        wkey.well_formed(),
        a@.len() == vkey.a@.len(),
        b@.len() == wkey.a@.len(),
        a@.len() == b@.len(),
        a@.len() >= 1,
    ensures
        r is Ok,
        r->Ok_0.0 == gt_mul(spec_ip(a@, vkey.a@), spec_ip(wkey.a@, b@)),
        r->Ok_0.1 == gt_mul(spec_ip(a@, vkey.b@), spec_ip(wkey.b@, b@)),
{
    let t1 = ip_pairing(a, &vkey.a);
    let t2 = ip_pairing(&wkey.a, b);
    let u1 = ip_pairing(a, &vkey.b);
    let u2 = ip_pairing(&wkey.b, b);
    let t = fq12_mul(&t1, &t2);
    let u = fq12_mul(&u1, &u2);
    Ok(Output(t, u))
}

} // verus!
