use vstd::prelude::*;

verus! {

use crate::errors::AllanError;
use vstd::arithmetic::div_mod::lemma_div_is_ordered_by_denominator;
use vstd::math::min;

/// Number of samples read from a series of length `len` when taking every
/// `stride`-th element starting at `offset`.
pub open spec fn strided_count(len: int, offset: int, stride: int) -> int
    recommends
        1 <= stride,
{
    if offset >= len {
        0
    } else {
        (len - offset - 1) / stride + 1
    }
}

/// Number of aligned second-difference windows available in a phase series of
/// length `len` at averaging factor `m`: the three strided subsequences start
/// at offsets `0`, `m` and `2*m`, and are truncated to the shortest.
pub open spec fn overlap_window_count(len: int, m: int, stride: int) -> int {
    min(
        min(strided_count(len, 0, stride), strided_count(len, m, stride)),
        strided_count(len, 2 * m, stride),
    )
}

fn strided_len(len: usize, offset: usize, stride: usize) -> (r: usize)
    requires
        1 <= stride,
    ensures
        r == strided_count(len as int, offset as int, stride as int),
{
    if offset >= len {
        0
    } else {
        proof {
            lemma_div_is_ordered_by_denominator((len - offset - 1) as int, 1, stride as int);
        }
        (len - offset - 1) / stride + 1
    }
}

/// Feasibility check and window count for one deviation estimate: reports
/// `InsufficientData` when the phase series cannot form even one
/// non-overlapping second difference at factor `mj` (`phase_len < 2 * mj`) or
/// when the strided windows come up empty; otherwise returns how many
/// second-difference windows the estimate will average over.
pub fn calc_adev_windows(phase_len: usize, mj: usize, stride: usize) -> (r: Result<
    usize,
    AllanError,
>)
    requires
        1 <= mj,
        1 <= stride,
    ensures
        (r is Err) <==> (phase_len < 2 * mj || overlap_window_count(
            phase_len as int,
            mj as int,
            stride as int,
        ) == 0),
        r is Err ==> r == Err::<usize, AllanError>(AllanError::InsufficientData),
        r matches Ok(n) ==> n == overlap_window_count(
            phase_len as int,
            mj as int,
            stride as int,
        ) && n > 0,
{
    if phase_len / 2 < mj {
        return Err(AllanError::InsufficientData);
    }
    let c0 = strided_len(phase_len, 0, stride);
    let c1 = strided_len(phase_len, mj, stride);
    let c2 = strided_len(phase_len, 2 * mj, stride);
    let mut n = c0;
    if c1 < n {
        n = c1;
    }
    if c2 < n {
        n = c2;
    }
    if n == 0 {
        Err(AllanError::InsufficientData)
    } else {
        Ok(n)
    }
}

/// Law (the counting part of the uncertainty comparison between estimators):
/// at a given averaging factor, the overlapped estimator (stride one) never
/// has fewer second-difference windows than any strided estimator over the
/// same series.
pub proof fn lemma_overlapped_count_dominates(len: int, m: int, stride: int)
    requires
        1 <= stride,
        0 <= m,
    ensures
        overlap_window_count(len, m, stride) <= overlap_window_count(len, m, 1),
{
    lemma_strided_count_antitone_in_stride(len, 0, stride);
    lemma_strided_count_antitone_in_stride(len, m, stride);
    lemma_strided_count_antitone_in_stride(len, 2 * m, stride);
}

proof fn lemma_strided_count_antitone_in_stride(len: int, offset: int, stride: int)
    requires
        1 <= stride,
    ensures
        strided_count(len, offset, stride) <= strided_count(len, offset, 1),
{
    if offset < len {
        lemma_div_is_ordered_by_denominator(len - offset - 1, 1, stride);
    }
}

} // verus!
