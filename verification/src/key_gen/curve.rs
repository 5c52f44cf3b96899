//! The polynomials and commitments of the curve, as the session uses them.
//!
//! The session holds what it receives and keeps, commitments, rows and values, in their
//! encoded form, as bytes. Everything that is computed on the curve is computed by the
//! `threshold_crypto` crate on the decoded values, and encoded again by `bincode`. What these
//! computations return is not proved here: each has a name, and the functions of this module
//! are believed to return what the names stand for.

use vstd::prelude::*;
use rand::RngCore;
use crate::key_gen::bytes::rows_of;
use threshold_crypto::group::CurveAffine;
use threshold_crypto::group::CurveProjective;
use threshold_crypto::ff::Field;
use threshold_crypto::poly::BivarCommitment;
use threshold_crypto::poly::BivarPoly;
use threshold_crypto::poly::Commitment;
use threshold_crypto::poly::Poly;
use threshold_crypto::serde_impl::FieldWrap;
use threshold_crypto::Fr;
use threshold_crypto::G1Affine;

verus! {

/// A symmetric polynomial in two variables over the curve's field. It is secret: the session
/// samples one, sends out its rows and its commitment, and forgets it.
#[verifier::external_type_specification]
#[verifier::external_body]
pub struct ExBivarPoly(BivarPoly);

/// Why `bincode` could not encode or decode a value.
#[verifier::external_type_specification]
#[verifier::external_body]
pub struct ExErrorKind(bincode::ErrorKind);

/// The degree of the encoded commitment to a polynomial in two variables.
pub uninterp spec fn commitment_degree_of(commitment: Seq<u8>) -> Option<usize>;

/// The encoded row `x` of the encoded commitment to a polynomial in two variables.
pub uninterp spec fn commitment_row_of(commitment: Seq<u8>, x: u64) -> Option<Seq<u8>>;

/// The compressed form of the value at `(x, y)` of the encoded commitment to a polynomial in
/// two variables.
pub uninterp spec fn commitment_value_of(commitment: Seq<u8>, x: u64, y: u64) -> Option<Seq<u8>>;

/// The encoded commitment to the encoded polynomial `row`.
pub uninterp spec fn row_commitment_of(row: Seq<u8>) -> Option<Seq<u8>>;

/// The encoded value at `x` of the encoded polynomial `row`.
pub uninterp spec fn row_value_of(row: Seq<u8>, x: u64) -> Option<Seq<u8>>;

/// The compressed form of the curve's generator multiplied by the encoded field element
/// `value`.
pub uninterp spec fn value_commitment_of(value: Seq<u8>) -> Option<Seq<u8>>;

/// The encoded sum of two encoded commitments to polynomials in one variable.
pub uninterp spec fn commitment_sum_of(a: Seq<u8>, b: Seq<u8>) -> Option<Seq<u8>>;

/// The encoded sum of two encoded field elements.
pub uninterp spec fn value_sum_of(a: Seq<u8>, b: Seq<u8>) -> Option<Seq<u8>>;

/// The encoded polynomial of least degree that has at each point of `xs` the encoded value
/// that `ys` holds at the same position.
pub uninterp spec fn interpolation_of(xs: Seq<u64>, ys: Seq<Seq<u8>>) -> Option<Seq<u8>>;

/// The encoding of the commitment to the polynomial that is zero: a vector of no
/// coefficients, which `bincode` writes as its length in eight bytes.
pub open spec fn zero_commitment_bytes() -> Seq<u8> {
    seq![0u8, 0u8, 0u8, 0u8, 0u8, 0u8, 0u8, 0u8]
}

/// The encoding of the field's zero: four words of eight bytes, all zero.
pub open spec fn zero_value_bytes() -> Seq<u8> {
    Seq::new(32, |i: int| 0u8)
}

/// What a call that decodes its arguments gave: the bytes that the name stands for, or an
/// error where the name stands for nothing.
pub open spec fn gave(result: Result<Vec<u8>, Box<bincode::ErrorKind>>, named: Option<Seq<u8>>)
    -> bool {
    match result {
        Ok(bytes) => named == Some(bytes@),
        Err(_) => named.is_none(),
    }
}

/// Whether the coefficients of a polynomial of this degree in two variables fit a vector:
/// they are fewer than the square of the degree and two, and each takes 32 bytes.
pub open spec fn degree_fits(degree: usize) -> bool {
    (degree + 2) * (degree + 2) * 32 <= isize::MAX
}

/// `BivarPoly::try_random`: a random polynomial of the degree given, or nothing if the degree
/// is too high for its coefficients to be counted. The outside function stops the program
/// if the coefficients do not fit a vector, so they have to. Nothing is claimed of the
/// polynomial.
#[verifier::external_body]
pub(crate) fn sample_poly<R: RngCore>(rng: &mut R, degree: usize) -> (poly: Option<BivarPoly>)
    requires
        degree_fits(degree),
{
    BivarPoly::try_random(degree, rng).ok()
}

/// `BivarPoly::commitment`, encoded by `bincode::serialize`. Nothing is claimed of the bytes.
#[verifier::external_body]
pub(crate) fn poly_commitment(poly: &BivarPoly) -> (bytes: Result<
    Vec<u8>,
    Box<bincode::ErrorKind>,
>) {
    bincode::serialize(&poly.commitment())
}

/// `BivarPoly::row`, encoded by `bincode::serialize`. Nothing is claimed of the bytes.
#[verifier::external_body]
pub(crate) fn poly_row(poly: &BivarPoly, x: u64) -> (bytes: Result<
    Vec<u8>,
    Box<bincode::ErrorKind>,
>) {
    bincode::serialize(&poly.row(x))
}

/// `BivarCommitment::degree` on the decoded commitment. The result depends on the bytes
/// alone; it is an error exactly if they do not decode.
#[verifier::external_body]
pub(crate) fn commitment_degree(commitment: &Vec<u8>) -> (degree: Result<
    usize,
    Box<bincode::ErrorKind>,
>)
    ensures
        match degree {
            Ok(degree) => commitment_degree_of(commitment@) == Some(degree),
            Err(_) => commitment_degree_of(commitment@).is_none(),
        },
{
    let commitment: BivarCommitment = bincode::deserialize(commitment)?;
    Ok(commitment.degree())
}

/// `BivarCommitment::row` on the decoded commitment, encoded. The result depends on the
/// arguments alone.
#[verifier::external_body]
pub(crate) fn commitment_row(commitment: &Vec<u8>, x: u64) -> (row: Result<
    Vec<u8>,
    Box<bincode::ErrorKind>,
>)
    ensures
        gave(row, commitment_row_of(commitment@, x)),
{
    let commitment: BivarCommitment = bincode::deserialize(commitment)?;
    bincode::serialize(&commitment.row(x))
}

/// `BivarCommitment::evaluate` on the decoded commitment, in the compressed form of the
/// curve's points. The result depends on the arguments alone.
#[verifier::external_body]
pub(crate) fn commitment_value(commitment: &Vec<u8>, x: u64, y: u64) -> (point: Result<
    Vec<u8>,
    Box<bincode::ErrorKind>,
>)
    ensures
        gave(point, commitment_value_of(commitment@, x, y)),
{
    let commitment: BivarCommitment = bincode::deserialize(commitment)?;
    Ok(commitment.evaluate(x, y).into_affine().into_compressed().as_ref().to_vec())
}

/// `Poly::commitment` on the decoded polynomial, encoded. The result depends on the bytes
/// alone; it is an error exactly if they do not decode.
#[verifier::external_body]
pub(crate) fn row_commitment(row: &Vec<u8>) -> (commitment: Result<
    Vec<u8>,
    Box<bincode::ErrorKind>,
>)
    ensures
        gave(commitment, row_commitment_of(row@)),
{
    let row: Poly = bincode::deserialize(row)?;
    bincode::serialize(&row.commitment())
}

/// `Poly::evaluate` on the decoded polynomial, encoded. The result depends on the arguments
/// alone.
#[verifier::external_body]
pub(crate) fn row_value(row: &Vec<u8>, x: u64) -> (value: Result<Vec<u8>, Box<bincode::ErrorKind>>)
    ensures
        gave(value, row_value_of(row@, x)),
{
    let row: Poly = bincode::deserialize(row)?;
    bincode::serialize(&FieldWrap(row.evaluate(x)))
}

/// `CurveAffine::mul` of the curve's generator, `G1Affine::one`, by the decoded field
/// element, in the compressed form of the curve's points. The result depends on the bytes
/// alone; it is an error exactly if they do not decode.
#[verifier::external_body]
pub(crate) fn value_commitment(value: &Vec<u8>) -> (point: Result<
    Vec<u8>,
    Box<bincode::ErrorKind>,
>)
    ensures
        gave(point, value_commitment_of(value@)),
{
    let value = bincode::deserialize::<FieldWrap<Fr>>(value)?.into_inner();
    Ok(G1Affine::one().mul(value).into_affine().into_compressed().as_ref().to_vec())
}

/// The `+=` of `Commitment` on the two decoded commitments, encoded. The result depends on
/// the arguments alone.
#[verifier::external_body]
pub(crate) fn commitment_sum(a: &Vec<u8>, b: &Vec<u8>) -> (sum: Result<
    Vec<u8>,
    Box<bincode::ErrorKind>,
>)
    ensures
        gave(sum, commitment_sum_of(a@, b@)),
{
    let mut sum: Commitment = bincode::deserialize(a)?;
    sum += bincode::deserialize::<Commitment>(b)?;
    bincode::serialize(&sum)
}

/// `Field::add_assign` on the two decoded field elements, encoded. The result depends on the
/// arguments alone.
#[verifier::external_body]
pub(crate) fn value_sum(a: &Vec<u8>, b: &Vec<u8>) -> (sum: Result<Vec<u8>, Box<bincode::ErrorKind>>)
    ensures
        gave(sum, value_sum_of(a@, b@)),
{
    let mut sum = bincode::deserialize::<FieldWrap<Fr>>(a)?.into_inner();
    sum.add_assign(&bincode::deserialize::<FieldWrap<Fr>>(b)?.into_inner());
    bincode::serialize(&FieldWrap(sum))
}

/// `Poly::interpolate` on the points `xs` with the decoded values `ys`, encoded. The outside
/// function stops the program if two points are the same, so they have to differ. The result
/// depends on the arguments alone.
#[verifier::external_body]
pub(crate) fn interpolate(xs: &Vec<u64>, ys: &Vec<Vec<u8>>) -> (poly: Result<
    Vec<u8>,
    Box<bincode::ErrorKind>,
>)
    requires
        xs@.no_duplicates(),
        xs.len() == ys.len(),
    ensures
        gave(poly, interpolation_of(xs@, rows_of(ys@))),
{
    let mut samples: Vec<(u64, Fr)> = Vec::new();
    for (x, y) in xs.iter().zip(ys.iter()) {
        samples.push((*x, bincode::deserialize::<FieldWrap<Fr>>(y)?.into_inner()));
    }
    bincode::serialize(&Poly::interpolate(samples))
}

/// The words in which `bincode` describes an error.
#[verifier::external_body]
pub(crate) fn describe(error: Box<bincode::ErrorKind>) -> (text: String) {
    format!("{:?}", error)
}

} // verus!
