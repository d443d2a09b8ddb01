//! Finite sums of integer terms, the common ground of every statistic here.

use vstd::prelude::*;

verus! {

/// The sum of `term(0)`, ..., `term(count - 1)`; zero where `count` is not positive.
pub open spec fn sum_of(term: spec_fn(int) -> int, count: int) -> int
    decreases count,
{
    if count <= 0 {
        0
    } else {
        sum_of(term, count - 1) + term(count - 1)
    }
}

/// A sum of `count` terms that all lie between `low` and `high` lies between
/// `count * low` and `count * high`.
pub proof fn lemma_sum_of_bounds(term: spec_fn(int) -> int, count: int, low: int, high: int)
    requires
        0 <= count,
        forall|i: int| 0 <= i < count ==> low <= #[trigger] term(i) <= high,
    ensures
        count * low <= sum_of(term, count) <= count * high,
    decreases count,
{
    if count > 0 {
        lemma_sum_of_bounds(term, count - 1, low, high);
        assert(low <= term(count - 1) <= high);
        assert(count * low == (count - 1) * low + low) by (nonlinear_arith);
        assert(count * high == (count - 1) * high + high) by (nonlinear_arith);
    } else {
        assert(count * low == 0 && count * high == 0) by (nonlinear_arith)
            requires
                count == 0,
        ;
    }
}

/// The sum of the squares of the first `count` terms.
pub open spec fn sum_of_squares(term: spec_fn(int) -> int, count: int) -> int {
    sum_of(|i: int| term(i) * term(i), count)
}

/// The sum of the squared distances of the first `count` terms from `center`,
/// written out: it is never negative.
proof fn lemma_squared_distances(term: spec_fn(int) -> int, count: int, center: int)
    requires
        0 <= count,
    ensures
        sum_of_squares(term, count) - 2 * center * sum_of(term, count) + count * center * center
            >= 0,
    decreases count,
{
    if count > 0 {
        lemma_squared_distances(term, count - 1, center);
        let last = term(count - 1);
        let squares = sum_of_squares(term, count - 1);
        let total = sum_of(term, count - 1);
        assert(sum_of_squares(term, count) == squares + last * last);
        assert(sum_of(term, count) == total + last);
        assert((squares + last * last) - 2 * center * (total + last) + count * center * center
            == (squares - 2 * center * total + (count - 1) * center * center) + (last - center) * (
        last - center)) by (nonlinear_arith);
        assert((last - center) * (last - center) >= 0) by (nonlinear_arith);
    } else {
        assert(sum_of_squares(term, count) == 0);
        assert(count * center * center == 0) by (nonlinear_arith)
            requires
                count == 0,
        ;
        assert(2 * center * sum_of(term, count) == 0) by (nonlinear_arith)
            requires
                sum_of(term, count) == 0,
        ;
    }
}

/// `count` times the sum of squares is never below the square of the sum: the
/// variance of any finite series is not negative.
pub proof fn lemma_spread_not_negative(term: spec_fn(int) -> int, count: int)
    requires
        0 <= count,
    ensures
        count * sum_of_squares(term, count) - sum_of(term, count) * sum_of(term, count) >= 0,
    decreases count,
{
    if count > 0 {
        lemma_spread_not_negative(term, count - 1);
        lemma_squared_distances(term, count - 1, term(count - 1));
        let last = term(count - 1);
        let squares = sum_of_squares(term, count - 1);
        let total = sum_of(term, count - 1);
        assert(sum_of_squares(term, count) == squares + last * last);
        assert(sum_of(term, count) == total + last);
        assert(count * (squares + last * last) - (total + last) * (total + last) == ((count - 1)
            * squares - total * total) + (squares - 2 * last * total + (count - 1) * last * last))
            by (nonlinear_arith);
    } else {
        assert(count * sum_of_squares(term, count) == 0) by (nonlinear_arith)
            requires
                count == 0,
        ;
        assert(sum_of(term, count) * sum_of(term, count) == 0) by (nonlinear_arith)
            requires
                sum_of(term, count) == 0,
        ;
    }
}

} // verus!
