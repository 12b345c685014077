//! Random choices: which quote `!quote` shows when no number is given.
use rand::Rng;
use vstd::prelude::*;

verus! {

/// A number drawn from `low .. high` by the thread-local generator of the
/// `rand` crate (`thread_rng().gen_range(low, high)`). Stated: the draw lies
/// in the half-open range; which number it is rests on chance and is not
/// stated.
#[verifier::external_body]
pub(crate) fn draw_in_range(low: i64, high: i64) -> (r: i64)
    requires
        low < high,
    ensures
        low <= r < high,
{
    rand::thread_rng().gen_range(low, high)
}

/// The number of a random quote among quotes `1 ..= total`.
pub fn random_quote_number(total: i32) -> (n: i32)
    requires
        1 <= total < i32::MAX,
    ensures
        1 <= n <= total,
{
    let high: i64 = total as i64 + 1;
    let r = draw_in_range(1, high);
    r as i32
}

} // verus!
