//! Vectors of polynomials in the NTT domain, and their arithmetic.

use crate::params::{Q, VECTOR_LEN};
use vstd::prelude::*;

verus! {

/// Whether `s` lists the coefficients of a vector, each of them reduced.
pub open spec fn is_vector(s: Seq<u16>) -> bool {
    &&& s.len() == VECTOR_LEN
    &&& forall|i: int| 0 <= i < s.len() ==> #[trigger] s[i] < Q
}

/// The sum of two vectors, coefficient by coefficient.
pub open spec fn vector_sum(a: Seq<u16>, b: Seq<u16>) -> Seq<u16> {
    Seq::new(a.len(), |i: int| ((a[i] + b[i]) % (Q as int)) as u16)
}

/// The difference of two vectors, coefficient by coefficient.
pub open spec fn vector_difference(a: Seq<u16>, b: Seq<u16>) -> Seq<u16> {
    Seq::new(a.len(), |i: int| ((a[i] - b[i]) % (Q as int)) as u16)
}

/// A vector of `K` polynomials in the NTT domain.
///
/// Its view lists the coefficients of the first polynomial, then those of the
/// second, and so on.
#[derive(Debug)]
pub struct NttVector {
    coeffs: Vec<u16>,
}

impl View for NttVector {
    type V = Seq<u16>;

    closed spec fn view(&self) -> Seq<u16> {
        self.coeffs@
    }
}

/// What a vector that may be missing stands for.
pub open spec fn vector_view(v: Option<NttVector>) -> Option<Seq<u16>> {
    match v {
        Some(v) => Some(v@),
        None => None,
    }
}

/// Reduces a value below `2 * Q`, without a branch on the value.
fn small_reduce(x: u16) -> (r: u16)
    requires
        x < 2 * Q,
    ensures
        r == x % Q,
{
    let less: u16 = x.wrapping_sub(Q);
    let borrow: u16 = less >> 15;
    assert(borrow == (if less >= 0x8000 {
        1u16
    } else {
        0u16
    })) by (bit_vector)
        requires
            borrow == less >> 15u16,
    ;
    less.wrapping_add(borrow * Q)
}

impl NttVector {
    /// Every vector has `VECTOR_LEN` reduced coefficients.
    #[verifier::type_invariant]
    spec fn well_formed(self) -> bool {
        is_vector(self@)
    }

    /// The vector with the given coefficients, if there are `VECTOR_LEN` of them
    /// and all of them are reduced.
    pub fn new(coeffs: Vec<u16>) -> (r: Option<NttVector>)
        ensures
            r is Some <==> is_vector(coeffs@),
            r is Some ==> r->0@ == coeffs@,
    {
        if coeffs.len() != VECTOR_LEN {
            return None;
        }
        let mut i: usize = 0;
        while i < VECTOR_LEN
            invariant
                coeffs.len() == VECTOR_LEN,
                i <= VECTOR_LEN,
                forall|k: int| 0 <= k < i ==> #[trigger] coeffs@[k] < Q,
            decreases VECTOR_LEN - i,
        {
            if coeffs[i] >= Q {
                return None;
            }
            i = i + 1;
        }
        Some(NttVector { coeffs })
    }

    /// The coefficients, polynomial after polynomial.
    pub fn coeffs(&self) -> (r: &Vec<u16>)
        ensures
            r@ == self@,
            is_vector(r@),
    {
        proof {
            use_type_invariant(self);
        }
        &self.coeffs
    }

    /// The sum of two vectors.
    pub fn plus(&self, other: &NttVector) -> (r: NttVector)
        ensures
            r@ == vector_sum(self@, other@),
    {
        proof {
            use_type_invariant(self);
            use_type_invariant(other);
        }
        let mut coeffs: Vec<u16> = Vec::with_capacity(VECTOR_LEN);
        let mut i: usize = 0;
        while i < VECTOR_LEN
            invariant
                is_vector(self@),
                is_vector(other@),
                i <= VECTOR_LEN,
                coeffs@ == vector_sum(self@, other@).take(i as int),
            decreases VECTOR_LEN - i,
        {
            let sum: u16 = self.coeffs[i] + other.coeffs[i];
            coeffs.push(small_reduce(sum));
            i = i + 1;
            assert(coeffs@ =~= vector_sum(self@, other@).take(i as int));
        }
        assert(coeffs@ =~= vector_sum(self@, other@));
        NttVector { coeffs }
    }

    /// The difference of two vectors.
    pub fn minus(&self, other: &NttVector) -> (r: NttVector)
        ensures
            r@ == vector_difference(self@, other@),
    {
        proof {
            use_type_invariant(self);
            use_type_invariant(other);
        }
        let mut coeffs: Vec<u16> = Vec::with_capacity(VECTOR_LEN);
        let mut i: usize = 0;
        while i < VECTOR_LEN
            invariant
                is_vector(self@),
                is_vector(other@),
                i <= VECTOR_LEN,
                coeffs@ == vector_difference(self@, other@).take(i as int),
            decreases VECTOR_LEN - i,
        {
            let raised: u16 = self.coeffs[i] + Q - other.coeffs[i];
            coeffs.push(small_reduce(raised));
            i = i + 1;
            assert(coeffs@ =~= vector_difference(self@, other@).take(i as int));
        }
        assert(coeffs@ =~= vector_difference(self@, other@));
        NttVector { coeffs }
    }
}

/// Adding a vector takes back what subtracting it did, and the other way round.
pub proof fn sum_undoes_difference(a: Seq<u16>, b: Seq<u16>)
    requires
        is_vector(a),
        is_vector(b),
    ensures
        vector_sum(vector_difference(a, b), b) == a,
        vector_difference(vector_sum(a, b), b) == a,
{
    assert(vector_sum(vector_difference(a, b), b) =~= a);
    assert(vector_difference(vector_sum(a, b), b) =~= a);
}

/// Sums and differences of vectors are vectors.
pub proof fn arithmetic_keeps_vectors(a: Seq<u16>, b: Seq<u16>)
    requires
        is_vector(a),
        is_vector(b),
    ensures
        is_vector(vector_sum(a, b)),
        is_vector(vector_difference(a, b)),
{
}

/// A vector is any list of 1024 integers below 3329.
pub proof fn vectors_are_lists_of_residues(s: Seq<u16>)
    ensures
        is_vector(s) <==> s.len() == 1024 && forall|i: int|
            0 <= i < 1024 ==> #[trigger] s[i] < 3329,
{
}

/// Coefficients are added and subtracted modulo 3329: coefficient `i` of a sum is the
/// residue that is congruent to the sum of the two coefficients, and coefficient `i` of
/// a difference is the residue to which the second must be added to get the first.
pub proof fn coefficients_are_congruent(a: Seq<u16>, b: Seq<u16>, i: int)
    requires
        is_vector(a),
        is_vector(b),
        0 <= i < 1024,
    ensures
        vector_sum(a, b).len() == 1024,
        vector_difference(a, b).len() == 1024,
        vector_sum(a, b)[i] < 3329,
        vector_difference(a, b)[i] < 3329,
        (vector_sum(a, b)[i] - (a[i] + b[i])) % 3329 == 0,
        (vector_difference(a, b)[i] + b[i] - a[i]) % 3329 == 0,
{
}

/// Addition is commutative and associative.
pub proof fn sums_can_be_reordered(a: Seq<u16>, b: Seq<u16>, c: Seq<u16>)
    requires
        is_vector(a),
        is_vector(b),
        is_vector(c),
    ensures
        vector_sum(a, b) == vector_sum(b, a),
        vector_sum(vector_sum(a, b), c) == vector_sum(a, vector_sum(b, c)),
{
    assert(vector_sum(a, b) =~= vector_sum(b, a));
    assert(vector_sum(vector_sum(a, b), c) =~= vector_sum(a, vector_sum(b, c)));
}

/// Only the zero vector leaves a vector as it is, when it is added or subtracted.
pub proof fn only_zero_changes_nothing(a: Seq<u16>, b: Seq<u16>)
    requires
        is_vector(a),
        is_vector(b),
    ensures
        vector_sum(a, b) == a <==> forall|i: int| 0 <= i < 1024 ==> #[trigger] b[i] == 0,
        vector_difference(a, b) == a <==> forall|i: int| 0 <= i < 1024 ==> #[trigger] b[i] == 0,
{
    let zero = forall|i: int| 0 <= i < 1024 ==> #[trigger] b[i] == 0;
    if zero {
        assert(vector_sum(a, b) =~= a);
        assert(vector_difference(a, b) =~= a);
    } else {
        let i = choose|i: int| 0 <= i < 1024 && #[trigger] b[i] != 0;
        assert(vector_sum(a, b)[i] != a[i]);
        assert(vector_difference(a, b)[i] != a[i]);
    }
}

/// A vector that may be missing stands for its coefficients, or for nothing.
pub proof fn views_keep_coefficients(v: NttVector)
    ensures
        vector_view(Some(v)) == Some(v@),
        vector_view(None) is None,
{
}

} // verus!
