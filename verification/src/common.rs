use vstd::prelude::*;

verus! {

/// Audio clock (number of samples since an arbitrary epoch). May wrap.
pub type Clock = usize;

/// Signed version of the clock, for clock deltas.
pub type ClockDiff = isize;

/// The integer `x` taken modulo 2^usize::BITS into the signed range of `isize`.
pub open spec fn wrap_to_isize(x: int) -> int {
    let m = (usize::MAX as int) + 1;
    let r = x % m;
    if r > isize::MAX as int { r - m } else { r }
}

/// Subtract clocks and return the result as a signed number.
/// Wrapped `a > b` is equivalent to `wrapped_diff(a, b) > 0`.
pub fn wrapped_diff(a: Clock, b: Clock) -> (d: ClockDiff)
    ensures
        d == wrap_to_isize(a - b),
{
    proof {
        lemma_mod_of_small(a - b);
    }
    let half: usize = isize::MAX as usize;
    if a >= b {
        let x = a - b;
        if x <= half {
            x as isize
        } else {
            -((usize::MAX - x) as isize) - 1
        }
    } else {
        let x = b - a;
        if x <= half {
            -(x as isize)
        } else if x - half == 1 {
            isize::MIN
        } else {
            ((usize::MAX - x) as isize) + 1
        }
    }
}

/// Reduction modulo the clock period of a value less than one period away from zero.
proof fn lemma_mod_of_small(x: int)
    requires
        -((usize::MAX as int) + 1) < x <= usize::MAX,
    ensures
        x >= 0 ==> x % ((usize::MAX as int) + 1) == x,
        x < 0 ==> x % ((usize::MAX as int) + 1) == x + (usize::MAX as int) + 1,
{
    let m = (usize::MAX as int) + 1;
    if x >= 0 {
        vstd::arithmetic::div_mod::lemma_small_mod(x as nat, m as nat);
    } else {
        vstd::arithmetic::div_mod::lemma_small_mod((x + m) as nat, m as nat);
        vstd::arithmetic::div_mod::lemma_mod_add_multiples_vanish(x, m);
    }
}

/// A clock advanced by `delta` (with wrap-around) is `delta` ahead of where it
/// started: `wrapped_diff(b + delta, b) == delta` for every `delta` that fits in
/// `ClockDiff`.
pub proof fn lemma_wrapped_diff_recovers_delta(b: Clock, delta: int)
    requires
        isize::MIN <= delta <= isize::MAX,
    ensures
        wrap_to_isize((b + delta) % ((usize::MAX as int) + 1) - b) == delta,
{
    let m = (usize::MAX as int) + 1;
    let a = (b + delta) % m;
    vstd::arithmetic::div_mod::lemma_sub_mod_noop(b + delta, b as int, m);
    lemma_mod_of_small(b as int);
    vstd::arithmetic::div_mod::lemma_mod_bound(b + delta, m);
    lemma_mod_of_small(a - b);
    lemma_mod_of_small(delta);
    vstd::arithmetic::div_mod::lemma_sub_mod_noop(a, b as int, m);
    lemma_mod_of_small(a);
}

/// Swapping the clocks negates the difference, except at the single value
/// half a period apart, which has no positive counterpart in `ClockDiff`.
pub proof fn lemma_wrapped_diff_antisymmetric(a: Clock, b: Clock)
    requires
        wrap_to_isize(a - b) != isize::MIN,
    ensures
        wrap_to_isize(b - a) == -wrap_to_isize(a - b),
{
    lemma_mod_of_small(a - b);
    lemma_mod_of_small(b - a);
}

/// The whole law of `wrapped_diff`: with `d = wrapped_diff(a, b)`,
/// - advancing `b` by `d` with wrap-around gives back `a`
///   (`b.wrapping_add(d as usize) == a`);
/// - swapping the clocks gives the wrapping negation of `d`
///   (`wrapped_diff(b, a) == d.wrapping_neg()`, `isize::MIN` included);
/// - `d > 0` exactly when `a` comes after `b`, that is, when `a` is reached
///   from `b` by advancing between 1 and `isize::MAX` samples.
pub proof fn lemma_wrapped_diff_law(a: Clock, b: Clock)
    ensures
        (b + wrap_to_isize(a - b)) % ((usize::MAX as int) + 1) == a,
        wrap_to_isize(b - a) == wrap_to_isize(-wrap_to_isize(a - b)),
        wrap_to_isize(a - b) > 0 <==> exists|k: int|
            1 <= k <= isize::MAX && #[trigger] ((b + k) % ((usize::MAX as int) + 1)) == a,
{
    let m = (usize::MAX as int) + 1;
    let d = wrap_to_isize(a - b);
    lemma_mod_of_small(a - b);
    lemma_mod_of_small(b - a);
    lemma_mod_of_small(-d);
    lemma_mod_of_small(a as int);
    if a >= b {
        if d == a - b - m {
            vstd::arithmetic::div_mod::lemma_mod_add_multiples_vanish(a - m, m);
        }
    } else {
        if d == a - b + m {
            vstd::arithmetic::div_mod::lemma_mod_sub_multiples_vanish(a + m, m);
        }
    }
    assert((b + d) % m == a);
    if d > 0 {
        assert((b + d) % m == a);
    }
    assert forall|k: int| 1 <= k <= isize::MAX && #[trigger] ((b + k) % m) == a implies d > 0 by {
        lemma_wrapped_diff_recovers_delta(b, k);
    }
}

/// Results whose error is only worth reporting, not handling.
pub trait LogAndForget {
    /// Whether there is an error to report; the value itself is dropped.
    fn log_and_forget(&self) -> bool;
}

impl<T, E> LogAndForget for Result<T, E> {
    fn log_and_forget(&self) -> (is_error: bool)
        ensures
            is_error == (self is Err),
    {
        match self {
            Ok(_) => false,
            Err(_) => true,
        }
    }
}

} // verus!
