use vstd::prelude::*;

verus! {

/// The arithmetic the solver computes with.
///
/// Nothing is promised about the result of any operation: rounding, overflow to
/// infinity and not-a-number all depend on the number type. Contracts in this
/// crate therefore speak of a result only as one that the operation may give
/// for its operands, and every proof holds for whatever the operations return.
pub trait Scalar: Copy {
    /// The number that stands for `value`.
    fn from_int(value: i64) -> Self;

    /// `self + rhs`.
    fn plus(self, rhs: Self) -> Self;

    /// `self - rhs`.
    fn minus(self, rhs: Self) -> Self;

    /// `self * rhs`.
    fn times(self, rhs: Self) -> Self;

    /// `self / rhs`.
    fn over(self, rhs: Self) -> Self;

    /// `-self`.
    fn negated(self) -> Self;

    /// `|self|`.
    fn magnitude(self) -> Self;

    /// Euler's number raised to `self`.
    fn exp(self) -> Self;

    /// `self < rhs`; false whenever the two cannot be ordered.
    fn less_than(self, rhs: Self) -> bool;
}

/// `r` is a number that `S::from_int` may give for `value`.
pub open spec fn number_of<S: Scalar>(value: i64, r: S) -> bool {
    call_ensures(S::from_int, (value,), r)
}

/// `r` is a result that `a.plus(b)` may give.
pub open spec fn sum_of<S: Scalar>(a: S, b: S, r: S) -> bool {
    call_ensures(S::plus, (a, b), r)
}

/// `r` is a result that `a.minus(b)` may give.
pub open spec fn difference_of<S: Scalar>(a: S, b: S, r: S) -> bool {
    call_ensures(S::minus, (a, b), r)
}

/// `r` is a result that `a.times(b)` may give.
pub open spec fn product_of<S: Scalar>(a: S, b: S, r: S) -> bool {
    call_ensures(S::times, (a, b), r)
}

/// `r` is a result that `a.over(b)` may give.
pub open spec fn quotient_of<S: Scalar>(a: S, b: S, r: S) -> bool {
    call_ensures(S::over, (a, b), r)
}

/// `r` is a result that `a.negated()` may give.
pub open spec fn negation_of<S: Scalar>(a: S, r: S) -> bool {
    call_ensures(S::negated, (a,), r)
}

/// `r` is a result that `a.magnitude()` may give.
pub open spec fn magnitude_of<S: Scalar>(a: S, r: S) -> bool {
    call_ensures(S::magnitude, (a,), r)
}

/// `r` is a result that `a.exp()` may give.
pub open spec fn exponential_of<S: Scalar>(a: S, r: S) -> bool {
    call_ensures(S::exp, (a,), r)
}

/// `outcome` is an answer that `a.less_than(b)` may give.
pub open spec fn below<S: Scalar>(a: S, b: S, outcome: bool) -> bool {
    call_ensures(S::less_than, (a, b), outcome)
}

/// Direction of a contribution relative to the value it scales.
#[derive(Clone, Copy, Debug, PartialEq, Eq, Structural)]
pub enum Sign {
    Minus,
    Plus,
}

/// What a clamp to `[low, high]` keeps, once it is known whether the value is
/// below `low` and whether it is above `high`. The lower bound is tested first.
pub open spec fn clamp_choice<S>(value: S, low: S, high: S, below: bool, above: bool) -> S {
    if below {
        low
    } else if above {
        high
    } else {
        value
    }
}

/// Picks the clamped value from the outcome of the two comparisons.
pub fn pick_clamped<S: Copy>(value: S, low: S, high: S, below: bool, above: bool) -> (r: S)
    ensures
        r == clamp_choice(value, low, high, below, above),
{
    if below {
        low
    } else if above {
        high
    } else {
        value
    }
}

/// `r` is what a clamp of `value` to `[low, high]` keeps when `value < low`
/// is answered with `under` and `high < value` with `over`.
pub open spec fn clamp_outcome<S: Scalar>(
    value: S,
    low: S,
    high: S,
    under: bool,
    over: bool,
    r: S,
) -> bool {
    &&& below(value, low, under)
    &&& below(high, value, over)
    &&& r == clamp_choice(value, low, high, under, over)
}

/// `r` is `value` clamped to `[low, high]`: `low` where `value < low`,
/// otherwise `high` where `high < value`, otherwise `value` itself.
pub open spec fn clamped<S: Scalar>(value: S, low: S, high: S, r: S) -> bool {
    exists|under: bool, over: bool| clamp_outcome(value, low, high, under, over, r)
}

/// `r` is the larger of `a` and `b`: `b` where `a < b`, otherwise `a`.
pub open spec fn larger_of<S: Scalar>(a: S, b: S, r: S) -> bool {
    ||| below(a, b, true) && r == b
    ||| below(a, b, false) && r == a
}

/// `r` is `value` limited from above by `limit`: `value` where
/// `value < limit`, otherwise `limit`.
pub open spec fn capped_of<S: Scalar>(value: S, limit: S, r: S) -> bool {
    ||| below(value, limit, true) && r == value
    ||| below(value, limit, false) && r == limit
}

/// `r` is `value` with `sign` applied: `value` itself for `Plus`, its
/// negation for `Minus`.
pub open spec fn signed_of<S: Scalar>(sign: Sign, value: S, r: S) -> bool {
    match sign {
        Sign::Plus => r == value,
        Sign::Minus => negation_of(value, r),
    }
}

/// Clamps `value` to `[low, high]`. A value that compares neither below `low`
/// nor above `high` (an unordered one included) is returned unchanged.
pub fn clamp_between<S: Scalar>(value: S, low: S, high: S) -> (r: S)
    ensures
        clamped(value, low, high, r),
{
    let under = value.less_than(low);
    let over = high.less_than(value);
    let r = pick_clamped(value, low, high, under, over);
    assert(clamp_outcome(value, low, high, under, over, r));
    r
}

/// The larger of two numbers; `a` when `a < b` does not hold.
pub fn larger<S: Scalar>(a: S, b: S) -> (r: S)
    ensures
        larger_of(a, b, r),
{
    if a.less_than(b) {
        b
    } else {
        a
    }
}

/// `value` limited from above by `limit`; `limit` when `value < limit` does not hold.
pub fn capped<S: Scalar>(value: S, limit: S) -> (r: S)
    ensures
        capped_of(value, limit, r),
{
    if value.less_than(limit) {
        value
    } else {
        limit
    }
}

/// Applies a sign: `Plus` keeps the value as it is, `Minus` negates it.
pub fn signed<S: Scalar>(sign: Sign, value: S) -> (r: S)
    ensures
        signed_of(sign, value, r),
{
    match sign {
        Sign::Plus => value,
        Sign::Minus => value.negated(),
    }
}

/// A vector of `n` copies of `value`.
pub fn filled<S: Copy>(value: S, n: usize) -> (r: Vec<S>)
    ensures
        r@ == Seq::new(n as nat, |i: int| value),
{
    let mut r: Vec<S> = Vec::new();
    let mut i: usize = 0;
    while i < n
        invariant
            i <= n,
            r@ == Seq::new(i as nat, |k: int| value),
        decreases n - i,
    {
        r.push(value);
        i = i + 1;
        assert(r@ =~= Seq::new(i as nat, |k: int| value));
    }
    r
}

} // verus!
