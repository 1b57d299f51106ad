use vstd::prelude::*;

verus! {

/// Relies on rand's `Rng::gen_range` with an inclusive range, drawn from the
/// thread-local generator: it panics only on an empty range, and otherwise
/// returns a value inside the range.
#[verifier::external_body]
pub(crate) fn random_int(min: i64, max: i64) -> (r: i64)
    requires
        min <= max,
    ensures
        min <= r <= max,
{
    rand::Rng::gen_range(&mut rand::thread_rng(), min..=max)
}

/// Picks an index uniformly among `len` slots (a light among the lights).
pub fn random_index(len: usize) -> (r: usize)
    requires
        0 < len <= i64::MAX,
    ensures
        r < len,
{
    let top: i64 = len as i64 - 1;
    let k = random_int(0, top);
    k as usize
}

} // verus!
