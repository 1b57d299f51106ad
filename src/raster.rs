use vstd::prelude::*;

verus! {

/// Side of the square stratification grid for `n` samples per pixel: the
/// largest `s` with `s * s <= n`, and `0` when `n` is not positive.
pub open spec fn is_stratum_side(n: int, s: int) -> bool {
    if n <= 0 {
        s == 0
    } else {
        0 <= s && s * s <= n < (s + 1) * (s + 1)
    }
}

/// How many of the columns `0..width` are congruent to `k` modulo `t`.
pub open spec fn column_count(k: int, t: int, width: int) -> int {
    if width <= k {
        0
    } else {
        (width - 1 - k) / t + 1
    }
}

/// Worker `k` of `t` renders the pixel columns congruent to `k` modulo `t`.
pub open spec fn worker_owns(k: int, t: int, col: int) -> bool {
    0 <= col && col % t == k
}

/// Every pixel column of a row is rendered by exactly one worker: worker
/// `col % thread_num` owns it, and no other worker does.
pub proof fn lemma_workers_partition_row(thread_num: int, col: int)
    requires
        0 < thread_num,
        0 <= col,
    ensures
        0 <= col % thread_num < thread_num,
        worker_owns(col % thread_num, thread_num, col),
        forall|k: int| #[trigger] worker_owns(k, thread_num, col) ==> k == col % thread_num,
{
}

/// Dealing the columns out to workers does not change the row: when the
/// `m`-th value of worker `k` is what `f` gives column `k + m * thread_num`,
/// the entry that `assemble_row` takes for column `col` is `f(col)`.
pub proof fn lemma_row_is_per_column<T>(
    results: Seq<Vec<T>>,
    thread_num: int,
    width: int,
    f: spec_fn(int) -> T,
)
    requires
        0 < thread_num,
        results.len() == thread_num,
        forall|k: int, m: int|
            0 <= k < thread_num && 0 <= m < results[k]@.len() ==> #[trigger] results[k]@[m] == f(
                k + m * thread_num,
            ),
        forall|col: int| 0 <= col < width ==> col / thread_num < #[trigger] results[col % thread_num]@.len(),
    ensures
        forall|col: int|
            0 <= col < width ==> #[trigger] results[col % thread_num]@[col / thread_num] == f(col),
{
    assert forall|col: int| 0 <= col < width implies #[trigger] results[col % thread_num]@[col
        / thread_num] == f(col) by {
        vstd::arithmetic::div_mod::lemma_fundamental_div_mod(col, thread_num);
        let k = col % thread_num;
        let m = col / thread_num;
        assert(0 <= m) by {
            vstd::arithmetic::div_mod::lemma_div_pos_is_pos(col, thread_num);
        }
        assert(k + m * thread_num == col) by (nonlinear_arith)
            requires
                col == thread_num * m + k,
        ;
        assert(results[k]@[m] == f(k + m * thread_num));
    }
}

/// The image height that the camera keeps: the height derived from width and
/// aspect ratio, raised to one row when it rounds below that.
pub fn clamp_image_height(derived: i64) -> (r: i64)
    ensures
        r == if derived < 1 { 1 } else { derived },
{
    if derived < 1 {
        1
    } else {
        derived
    }
}

/// Number of strata along each axis of a pixel: the integer square root of
/// the sample count.
pub fn stratum_side(samples_per_pixel: i64) -> (s: i64)
    ensures
        is_stratum_side(samples_per_pixel as int, s as int),
{
    if samples_per_pixel <= 0 {
        return 0;
    }
    let n = samples_per_pixel;
    // lo * lo <= n < hi * hi throughout; 3037000500 squared exceeds i64::MAX.
    let mut lo: i64 = 1;
    let mut hi: i64 = 3037000500;
    assert(3037000500 * 3037000500 > i64::MAX);
    while hi - lo > 1
        invariant
            1 <= lo < hi <= 3037000500,
            lo * lo <= n,
            n < hi * hi,
        decreases hi - lo,
    {
        let mid = lo + (hi - lo) / 2;
        assert(mid * mid <= 3037000500 * 3037000500) by (nonlinear_arith)
            requires
                0 <= mid <= 3037000500,
        ;
        assert(mid * mid < 0x7fff_ffff_ffff_ffff) by (nonlinear_arith)
            requires
                0 <= mid < 3037000500,
        ;
        if mid * mid <= n {
            lo = mid;
        } else {
            hi = mid;
        }
    }
    assert(hi == lo + 1);
    lo
}

/// The pixel columns, left to right, that worker `k` of `thread_num`
/// renders in a row of `width` pixels: `k`, `k + thread_num`, ...
pub fn worker_columns(k: i64, thread_num: i64, width: i64) -> (cols: Vec<i64>)
    requires
        0 <= k < thread_num,
    ensures
        cols@.len() == column_count(k as int, thread_num as int, width as int),
        forall|m: int| 0 <= m < cols@.len() ==> #[trigger] cols@[m] == k + m * thread_num,
        forall|col: i64|
            (0 <= col < width && worker_owns(k as int, thread_num as int, col as int))
                <==> #[trigger] cols@.contains(col),
{
    let mut cols: Vec<i64> = Vec::new();
    let mut i: i64 = k;
    let ghost mut m: int = 0;
    loop
        invariant_except_break
            i == k + m * thread_num,
        invariant
            0 <= k < thread_num,
            0 <= m,
            k <= i,
            cols@.len() == m,
            forall|q: int| 0 <= q < m ==> #[trigger] cols@[q] == k + q * thread_num,
            forall|q: int| 0 <= q < m ==> #[trigger] cols@[q] < width,
        ensures
            0 <= m,
            m == 0 ==> width <= k,
            width <= k + m * thread_num,
            cols@.len() == m,
            forall|q: int| 0 <= q < m ==> #[trigger] cols@[q] == k + q * thread_num,
            forall|q: int| 0 <= q < m ==> #[trigger] cols@[q] < width,
        decreases i64::MAX - i,
    {
        if i >= width {
            break;
        }
        cols.push(i);
        proof {
            m = m + 1;
        }
        assert((m - 1) * thread_num + thread_num == m * thread_num) by (nonlinear_arith);
        if i > i64::MAX - thread_num {
            break;
        }
        i = i + thread_num;
    }
    proof {
        lemma_columns_exact(cols@, k as int, thread_num as int, width as int, m);
        if m > 0 {
            assert(cols@[m - 1] == k + (m - 1) * thread_num);
        }
        lemma_column_count(k as int, thread_num as int, width as int, m);
    }
    cols
}

proof fn lemma_column_count(k: int, t: int, width: int, m: int)
    requires
        0 <= k < t,
        0 <= m,
        width <= k + m * t,
        m > 0 ==> k + (m - 1) * t < width,
        m == 0 ==> width <= k,
    ensures
        m == column_count(k, t, width),
{
    if m > 0 {
        let d = width - 1 - k;
        vstd::arithmetic::div_mod::lemma_fundamental_div_mod(d, t);
        let q = d / t;
        let r = d % t;
        assert(q == m - 1) by (nonlinear_arith)
            requires
                d == t * q + r,
                0 <= r < t,
                (m - 1) * t <= d,
                d < m * t,
        ;
    }
}

proof fn lemma_columns_exact(cols: Seq<i64>, k: int, t: int, width: int, m: int)
    requires
        0 <= k < t,
        0 <= m,
        width <= k + m * t,
        cols.len() == m,
        forall|q: int| 0 <= q < m ==> #[trigger] cols[q] == k + q * t,
        forall|q: int| 0 <= q < m ==> #[trigger] cols[q] < width,
    ensures
        forall|col: i64| (0 <= col < width && worker_owns(k, t, col as int)) <==> #[trigger] cols.contains(col),
{
    assert forall|col: i64| (0 <= col < width && worker_owns(k, t, col as int)) <==> #[trigger] cols.contains(col) by {
        if 0 <= col < width && worker_owns(k, t, col as int) {
            let q = (col as int) / t;
            vstd::arithmetic::div_mod::lemma_fundamental_div_mod(col as int, t);
            assert(col == t * q + k);
            assert(q < m) by (nonlinear_arith)
                requires
                    col == t * q + k,
                    col < width,
                    width <= k + m * t,
                    0 < t,
            ;
            assert(0 <= q) by (nonlinear_arith)
                requires
                    col == t * q + k,
                    0 <= col,
                    0 <= k < t,
            ;
            assert(cols[q] == k + q * t);
            assert(k + q * t == col) by (nonlinear_arith)
                requires
                    col == t * q + k,
            ;
            assert(cols[q] == col);
        }
        if cols.contains(col) {
            let q = choose|q: int| 0 <= q < cols.len() && cols[q] == col;
            assert(cols[q] == k + q * t);
            assert(0 <= q * t) by (nonlinear_arith)
                requires
                    0 <= q,
                    0 < t,
            ;
            vstd::arithmetic::div_mod::lemma_mod_multiples_vanish(q, k, t);
            vstd::arithmetic::div_mod::lemma_small_mod(k as nat, t as nat);
            assert((k + q * t) % t == k) by (nonlinear_arith)
                requires
                    (t * q + k) % t == k % t,
                    k % t == k,
            ;
        }
    }
}

/// Gathers one scanline from the workers' results: worker `k` hands back the
/// values of its columns in the order of `worker_columns`, and column `col`
/// of the row takes entry `col / thread_num` of worker `col % thread_num`.
pub fn assemble_row<T: Copy>(width: i64, thread_num: i64, results: &Vec<Vec<T>>) -> (row: Vec<T>)
    requires
        0 < thread_num,
        results@.len() == thread_num,
        forall|col: int|
            0 <= col < width ==> col / (thread_num as int) < #[trigger] results@[col % (thread_num as int)]@.len(),
    ensures
        row@.len() == if width < 0 { 0 } else { width as int },
        forall|col: int|
            0 <= col < row@.len() ==> #[trigger] row@[col] == results@[col % (thread_num as int)]@[col
                / (thread_num as int)],
{
    let mut row: Vec<T> = Vec::new();
    let workers = results.len();
    let mut col: i64 = 0;
    while col < width
        invariant
            workers == results@.len(),
            0 <= col,
            width < 0 ==> col == 0,
            width >= 0 ==> col <= width,
            row@.len() == col,
            0 < thread_num,
            results@.len() == thread_num,
            forall|c: int|
                0 <= c < width ==> c / (thread_num as int) < #[trigger] results@[c % (thread_num as int)]@.len(),
            forall|c: int|
                0 <= c < col ==> #[trigger] row@[c] == results@[c % (thread_num as int)]@[c / (thread_num as int)],
        decreases width - col,
    {
        let k = col % thread_num;
        let m = col / thread_num;
        assert(results@[(col as int) % (thread_num as int)]@.len() > (col as int) / (thread_num as int));
        let owner = &results[k as usize];
        let _owner_len = owner.len();
        let v = owner[m as usize];
        row.push(v);
        col = col + 1;
    }
    row
}

} // verus!
