//! Partition planning: how large each part of a split must be.

use vstd::prelude::*;

verus! {

/// The smallest part size, in bytes, that a split may produce.
pub const MIN_PART_SIZE: u64 = 1024;

/// Why a split cannot be planned.
#[derive(Clone, Copy, Debug, PartialEq, Eq, Structural)]
pub enum PlanError {
    /// The requested number of parts is below two.
    InvalidCount,
    /// The parts would be smaller than `MIN_PART_SIZE`; holds the size they would have.
    PartTooSmall { part_size: u64 },
}

/// The quotient of `n` by `d`, rounded up.
pub open spec fn ceil_div(n: nat, d: nat) -> nat
    recommends
        d > 0,
{
    if n % d == 0 {
        n / d
    } else {
        n / d + 1
    }
}

/// What planning a split of `file_size` bytes into `count` parts gives.
pub open spec fn plan_spec(file_size: nat, count: nat) -> Result<nat, PlanError> {
    if count <= 1 {
        Err(PlanError::InvalidCount)
    } else if ceil_div(file_size, count) < MIN_PART_SIZE {
        Err(PlanError::PartTooSmall { part_size: ceil_div(file_size, count) as u64 })
    } else {
        Ok(ceil_div(file_size, count))
    }
}

/// `ceil_div(n, d)` blocks of `d` cover `n`, with less than one block to spare.
pub proof fn lemma_ceil_div_covers(n: nat, d: nat)
    requires
        d > 0,
    ensures
        ceil_div(n, d) * d >= n,
        ceil_div(n, d) * d < n + d,
{
    let c = ceil_div(n, d);
    assert(n == d * (n / d) + n % d && 0 <= n % d < d) by (nonlinear_arith)
        requires
            d > 0,
    ;
    assert(c * d >= n && c * d < n + d) by (nonlinear_arith)
        requires
            d > 0,
            n == d * (n / d) + n % d,
            0 <= n % d < d,
            c == if n % d == 0 { n / d } else { n / d + 1 },
    ;
}

/// No number of blocks below `ceil_div(n, d)` covers `n`: the rounded-up
/// quotient is the least `q` with `q * d >= n`.
pub proof fn lemma_ceil_div_is_least(n: nat, d: nat, q: nat)
    requires
        d > 0,
        q * d >= n,
    ensures
        q >= ceil_div(n, d),
{
    let c = ceil_div(n, d);
    lemma_ceil_div_covers(n, d);
    assert(q >= c) by (nonlinear_arith)
        requires
            d > 0,
            q * d >= n,
            c * d < n + d,
    ;
}

/// The rounded-up quotient never exceeds the dividend when the divisor is at
/// least one, so it fits wherever the dividend fits.
pub proof fn lemma_ceil_div_bounded(n: nat, d: nat)
    requires
        d > 0,
    ensures
        ceil_div(n, d) <= n,
{
    assert(n * d >= n) by (nonlinear_arith)
        requires
            d > 0,
    ;
    lemma_ceil_div_is_least(n, d, n);
}

/// Computes `ceil_div` without overflow.
pub fn div_ceil(n: u64, d: u64) -> (q: u64)
    requires
        d > 0,
    ensures
        q == ceil_div(n as nat, d as nat),
{
    proof {
        lemma_ceil_div_bounded(n as nat, d as nat);
    }
    if n % d == 0 {
        n / d
    } else {
        n / d + 1
    }
}

/// Plans a split of a file of `file_size` bytes into `count` parts: the size
/// of a part, which is the least that lets `count` parts hold the file.
///
/// A count below two is refused first; then a part size below `MIN_PART_SIZE`.
pub fn plan_part_size(file_size: u64, count: u64) -> (planned: Result<u64, PlanError>)
    ensures
        match planned {
            Ok(part_size) => plan_spec(file_size as nat, count as nat) == Ok::<nat, PlanError>(
                part_size as nat,
            ),
            Err(e) => plan_spec(file_size as nat, count as nat) == Err::<nat, PlanError>(e),
        },
{
    if count <= 1 {
        return Err(PlanError::InvalidCount);
    }
    let part_size = div_ceil(file_size, count);
    if part_size < MIN_PART_SIZE {
        Err(PlanError::PartTooSmall { part_size })
    } else {
        Ok(part_size)
    }
}

/// Every plan that succeeds gives the rounded-up quotient, and it succeeds
/// exactly for a count above one whose rounded-up quotient reaches
/// `MIN_PART_SIZE`.
pub proof fn lemma_plan_ok_iff(file_size: nat, count: nat)
    ensures
        plan_spec(file_size, count) is Ok <==> count > 1 && ceil_div(file_size, count)
            >= MIN_PART_SIZE,
        plan_spec(file_size, count) is Ok ==> plan_spec(file_size, count)->Ok_0 == ceil_div(
            file_size,
            count,
        ),
{
}

/// A count that would make the parts smaller than `MIN_PART_SIZE` is refused,
/// whatever the size of the file.
pub proof fn lemma_small_parts_refused(file_size: nat, count: nat)
    requires
        ceil_div(file_size, count) < MIN_PART_SIZE,
    ensures
        plan_spec(file_size, count) is Err,
{
}

} // verus!
