use vstd::prelude::*;
use vstd::seq_lib::group_to_multiset_ensures;

use crate::random::random_int;

verus! {

/// Number of lattice points along each axis of the noise table.
pub const POINT_COUNT: i64 = 256;

/// `0, 1, ..., n - 1`.
pub open spec fn identity_seq(n: nat) -> Seq<i64> {
    Seq::new(n, |i: int| i as i64)
}

/// `s` holds each of `0, 1, ..., n - 1` exactly once.
pub open spec fn is_perm_of_range(s: Seq<i64>, n: nat) -> bool {
    &&& s.len() == n
    &&& s.no_duplicates()
    &&& forall|i: int| 0 <= i < n ==> 0 <= #[trigger] s[i] < n
}

/// The lattice coordinate `c + d` folded onto the table, `(c + d) mod 256`.
pub open spec fn wrap_slot(c: i64, d: i64) -> int {
    (c + d) % (POINT_COUNT as int)
}

/// `s` with the entries at `i` and `j` exchanged.
pub open spec fn swapped(s: Seq<i64>, i: int, j: int) -> Seq<i64> {
    s.update(i, s[j]).update(j, s[i])
}

/// `s` after the exchanges of a Fisher-Yates pass at positions `i - 1`, `i - 2`,
/// ..., `1`, in that order, position `q` being exchanged with `targets[q]`.
pub open spec fn swaps_down(s: Seq<i64>, targets: Seq<i64>, i: int) -> Seq<i64>
    decreases i,
{
    if i <= 1 {
        s
    } else {
        swaps_down(swapped(s, i - 1, targets[i - 1] as int), targets, i - 1)
    }
}

/// Hashed lattice tables of Perlin noise: one random permutation of the
/// lattice indices per axis. The gradient vectors that the hash selects are
/// kept by the caller, indexed by `lattice_index`.
#[derive(Debug)]
pub struct Perlin {
    pub perm_x: Vec<i64>,
    pub perm_y: Vec<i64>,
    pub perm_z: Vec<i64>,
}

proof fn lemma_swap_keeps_multiset(s: Seq<i64>, i: int, j: int)
    requires
        0 <= i < s.len(),
        0 <= j < s.len(),
    ensures
        swapped(s, i, j).to_multiset() =~= s.to_multiset(),
        swapped(s, i, j).len() == s.len(),
{
    broadcast use vstd::seq_lib::to_multiset_update;
    broadcast use group_to_multiset_ensures;
    broadcast use vstd::multiset::group_multiset_axioms;

    let a = s[i];
    let b = s[j];
    let m = s.to_multiset();
    let s1 = s.update(i, b);
    let s2 = s1.update(j, a);
    assert(s.contains(a));
    assert(s1[j] == b);
    assert(s1.to_multiset() == m.insert(b).remove(a));
    assert(s2.to_multiset() == s1.to_multiset().insert(a).remove(b));
    assert(m.count(a) > 0);
    assert(s2.to_multiset() =~= m);
    assert(s2 == swapped(s, i, j));
}

proof fn lemma_perm_from_multiset(s: Seq<i64>, n: nat)
    requires
        s.to_multiset() =~= identity_seq(n).to_multiset(),
        n <= i64::MAX,
    ensures
        is_perm_of_range(s, n),
{
    broadcast use group_to_multiset_ensures;

    let t = identity_seq(n);
    assert forall|a: int, b: int| 0 <= a < t.len() && 0 <= b < t.len() && a != b implies t[a]
        != t[b] by {}
    t.lemma_multiset_has_no_duplicates();
    s.lemma_multiset_has_no_duplicates_conv();
    assert(s.len() == s.to_multiset().len());
    assert(t.len() == t.to_multiset().len());
    assert forall|i: int| 0 <= i < n implies 0 <= #[trigger] s[i] < n by {
        assert(s.contains(s[i]));
        assert(s.to_multiset().count(s[i]) > 0);
        assert(t.contains(s[i]));
        let w = choose|w: int| 0 <= w < t.len() && t[w] == s[i];
        assert(t[w] == w as i64);
    }
}

impl Perlin {
    /// Well-formed tables: each one a permutation of the lattice indices.
    pub open spec fn wf(&self) -> bool {
        &&& is_perm_of_range(self.perm_x@, POINT_COUNT as nat)
        &&& is_perm_of_range(self.perm_y@, POINT_COUNT as nat)
        &&& is_perm_of_range(self.perm_z@, POINT_COUNT as nat)
    }

    /// Fresh tables, each an independent random permutation.
    pub fn new() -> (r: Perlin)
        ensures
            r.wf(),
    {
        Perlin {
            perm_x: Self::perlin_generate_perm(),
            perm_y: Self::perlin_generate_perm(),
            perm_z: Self::perlin_generate_perm(),
        }
    }

    /// A random permutation of `0, 1, ..., 255`.
    pub fn perlin_generate_perm() -> (p: Vec<i64>)
        ensures
            is_perm_of_range(p@, POINT_COUNT as nat),
    {
        let mut p: Vec<i64> = Vec::new();
        let mut i: i64 = 0;
        while i < POINT_COUNT
            invariant
                0 <= i <= POINT_COUNT,
                p@ == identity_seq(i as nat),
            decreases POINT_COUNT - i,
        {
            p.push(i);
            i = i + 1;
            assert(p@ =~= identity_seq(i as nat));
        }
        let ghost before = p@;
        Self::permute(&mut p, POINT_COUNT);
        proof {
            assert(p@ =~= p@.subrange(0, POINT_COUNT as int));
            assert(before =~= before.subrange(0, POINT_COUNT as int));
            lemma_perm_from_multiset(p@, POINT_COUNT as nat);
        }
        p
    }

    /// Shuffles the first `n` entries of `p` in place (Fisher-Yates): for each
    /// position `i` from `n - 1` down to `1`, exchanges entry `i` with an
    /// entry drawn uniformly from `0..=i` by the thread-local generator. The
    /// entries from `n` on stay put. Whatever is drawn, the first `n` entries
    /// are a rearrangement of the old ones.
    pub fn permute(p: &mut Vec<i64>, n: i64)
        requires
            n <= old(p)@.len(),
        ensures
            final(p)@.len() == old(p)@.len(),
            n > 1 ==> final(p)@.subrange(0, n as int).to_multiset()
                =~= old(p)@.subrange(0, n as int).to_multiset(),
            n <= 1 ==> final(p)@ == old(p)@,
            forall|k: int| n <= k < old(p)@.len() ==> #[trigger] final(p)@[k] == old(p)@[k],
    {
        let mut targets: Vec<i64> = Vec::new();
        let mut i: i64 = 0;
        while i < n
            invariant
                0 <= i,
                n < 0 ==> i == 0,
                n >= 0 ==> i <= n,
                targets@.len() == i,
                forall|q: int| 0 <= q < i ==> 0 <= #[trigger] targets@[q] <= q,
            decreases n - i,
        {
            let target = random_int(0, i);
            targets.push(target);
            i = i + 1;
        }
        Self::permute_with(p, n, &targets);
    }

    /// The Fisher-Yates pass of `permute` with its draws given: `targets[i]`
    /// is the position, in `0..=i`, that position `i` is exchanged with.
    pub fn permute_with(p: &mut Vec<i64>, n: i64, targets: &Vec<i64>)
        requires
            n <= old(p)@.len(),
            n <= targets@.len(),
            forall|i: int| 1 <= i < n ==> 0 <= #[trigger] targets@[i] <= i,
        ensures
            final(p)@ == swaps_down(old(p)@, targets@, n as int),
            final(p)@.len() == old(p)@.len(),
            n > 1 ==> final(p)@.subrange(0, n as int).to_multiset()
                =~= old(p)@.subrange(0, n as int).to_multiset(),
            n <= 1 ==> final(p)@ == old(p)@,
            forall|k: int| n <= k < old(p)@.len() ==> #[trigger] final(p)@[k] == old(p)@[k],
    {
        if n <= 1 {
            return;
        }
        let len = p.len();
        let mut i: i64 = n - 1;
        while i > 0
            invariant
                len == old(p)@.len(),
                0 <= i < n,
                n <= p@.len(),
                n <= targets@.len(),
                forall|q: int| 1 <= q < n ==> 0 <= #[trigger] targets@[q] <= q,
                p@.len() == old(p)@.len(),
                swaps_down(p@, targets@, i + 1) == swaps_down(old(p)@, targets@, n as int),
                p@.subrange(0, n as int).to_multiset() =~= old(p)@.subrange(0, n as int).to_multiset(),
                forall|k: int| n <= k < old(p)@.len() ==> #[trigger] p@[k] == old(p)@[k],
            decreases i,
        {
            let target = targets[i as usize];
            let ghost prev = p@;
            let tmp = p[i as usize];
            let other = p[target as usize];
            p.set(i as usize, other);
            p.set(target as usize, tmp);
            proof {
                let pre = prev.subrange(0, n as int);
                assert(p@ =~= swapped(prev, i as int, target as int));
                assert(p@.subrange(0, n as int) =~= swapped(pre, i as int, target as int));
                lemma_swap_keeps_multiset(pre, i as int, target as int);
            }
            i = i - 1;
        }
    }

    /// Index of the gradient at the lattice corner `(i + di, j + dj, k + dk)`:
    /// the three axis tables, each read at its coordinate folded onto the
    /// table, combined by exclusive or.
    pub fn lattice_index(&self, i: i64, j: i64, k: i64, di: i64, dj: i64, dk: i64) -> (r: usize)
        requires
            self.wf(),
            0 <= di <= 1,
            0 <= dj <= 1,
            0 <= dk <= 1,
        ensures
            r as i64 == self.perm_x@[wrap_slot(i, di)] ^ self.perm_y@[wrap_slot(j, dj)]
                ^ self.perm_z@[wrap_slot(k, dk)],
            r < POINT_COUNT,
    {
        let x = self.perm_x[Self::fold_onto_table(i, di)];
        let y = self.perm_y[Self::fold_onto_table(j, dj)];
        let z = self.perm_z[Self::fold_onto_table(k, dk)];
        let h = x ^ y ^ z;
        assert(0 <= h < 256) by (bit_vector)
            requires
                0 <= x < 256,
                0 <= y < 256,
                0 <= z < 256,
                h == x ^ y ^ z,
        ;
        h as usize
    }

    /// `(c + d) mod 256`, for any lattice coordinate `c`.
    fn fold_onto_table(c: i64, d: i64) -> (r: usize)
        requires
            0 <= d <= 1,
        ensures
            r as int == wrap_slot(c, d),
            r < POINT_COUNT,
    {
        let m = c % 256;
        let low: i64 = if m < 0 { m + 256 } else { m };
        assert(low as int == (c as int) % 256);
        let sum = low + d;
        let r: usize = if sum == 256 { 0 } else { sum as usize };
        proof {
            vstd::arithmetic::div_mod::lemma_add_mod_noop(c as int, d as int, 256);
            vstd::arithmetic::div_mod::lemma_small_mod(d as nat, 256);
            if sum < 256 {
                vstd::arithmetic::div_mod::lemma_small_mod(sum as nat, 256);
            }
        }
        r
    }
}

} // verus!
