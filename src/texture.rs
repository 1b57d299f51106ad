use vstd::prelude::*;

verus! {

/// Whether the checker cell with integer coordinates `(x, y, z)` takes the
/// even texture: the coordinates sum to an even number.
pub fn checker_is_even(x: i64, y: i64, z: i64) -> (even: bool)
    ensures
        even == ((x as int + y as int + z as int) % 2 == 0),
{
    // Summing the remainders keeps the arithmetic in range for any cell.
    let px = x % 2;
    let py = y % 2;
    let pz = z % 2;
    let s = px + py + pz;
    proof {
        vstd::arithmetic::div_mod::lemma_fundamental_div_mod(x as int, 2);
        vstd::arithmetic::div_mod::lemma_fundamental_div_mod(y as int, 2);
        vstd::arithmetic::div_mod::lemma_fundamental_div_mod(z as int, 2);
    }
    s % 2 == 0
}

} // verus!
