//! Complex samples.
//!
//! A sample is a `num_complex::Complex32`. This library builds, adds and
//! stores samples but never looks inside one: the arithmetic is that of
//! `num_complex`. Nothing in this module is proved: each function below hands
//! one call to that crate, and its contract gives the call's result a name
//! that the generator's and the engine's contracts are stated over.
//!
//! The arithmetic fixes whether a sum is a number, and which number, but not
//! which bit pattern stands for a sum that is none. The contracts therefore do
//! not tell apart two samples that each have a part that is not a number, and
//! what is said of a sample's bit patterns is said of the other samples only.

use num_complex::Complex32;
use vstd::prelude::*;

verus! {

#[verifier::external_type_specification]
#[verifier::external_body]
#[verifier::reject_recursive_types(T)]
pub struct ExComplex<T>(num_complex::Complex<T>);

/// The sample with real part `value` and imaginary part zero.
pub uninterp spec fn sample_of(value: i8) -> Complex32;

/// The sum `a + b` of two samples.
pub uninterp spec fn sample_sum(a: Complex32, b: Complex32) -> Complex32;

/// Whether the real or the imaginary part of `sample` is not a number.
pub uninterp spec fn sample_is_nan(sample: Complex32) -> bool;

/// The binary32 bit patterns of the real and the imaginary part of `sample`.
pub uninterp spec fn sample_words(sample: Complex32) -> (u32, u32);

/// The sum of the samples of `column`: each is added in turn, in the order
/// in which they stand, to what has been added up so far, starting from zero.
pub open spec fn sample_total(column: Seq<Complex32>) -> Complex32
    decreases column.len(),
{
    if column.len() == 0 {
        sample_of(0)
    } else {
        sample_sum(sample_total(column.drop_last()), column.last())
    }
}

/// `num_complex::c32` on `value` and zero: the sample whose real part is
/// `value`. The result is the one that `sample_of` names.
#[verifier::external_body]
pub(crate) fn real_sample(value: i8) -> (r: Complex32)
    ensures
        r == sample_of(value),
{
    num_complex::c32(value, 0i8)
}

/// The `+` of `num_complex` on two samples. The result is the one that
/// `sample_sum` names.
#[verifier::external_body]
pub(crate) fn add_samples(a: Complex32, b: Complex32) -> (r: Complex32)
    ensures
        r == sample_sum(a, b),
{
    a + b
}

/// The `Sum` of `num_complex` over the samples of `column`: a fold of `+`
/// from zero, in order. The result is the total of the column.
#[verifier::external_body]
pub(crate) fn sum_samples(column: &Vec<Complex32>) -> (r: Complex32)
    ensures
        r == sample_total(column@),
{
    column.iter().sum()
}

/// `Complex::is_nan` of `num_complex`. The result is the one that
/// `sample_is_nan` names.
#[verifier::external_body]
pub(crate) fn has_nan(sample: &Complex32) -> (r: bool)
    ensures
        r == sample_is_nan(*sample),
{
    sample.is_nan()
}

/// The two parts of a sample, each as its bit pattern. For a sample whose
/// parts are numbers the result is the pair that `sample_words` names; of
/// another sample's patterns nothing is claimed.
#[verifier::external_body]
pub(crate) fn words_of(sample: &Complex32) -> (r: (u32, u32))
    ensures
        !sample_is_nan(*sample) ==> r == sample_words(*sample),
{
    (sample.re.to_bits(), sample.im.to_bits())
}

} // verus!
