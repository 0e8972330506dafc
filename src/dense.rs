use crate::csc::{ClarabelCscMatrix, Ownership};
use vstd::arithmetic::div_mod::{
    lemma_div_pos_is_pos, lemma_fundamental_div_mod, lemma_fundamental_div_mod_converse,
    lemma_mod_pos_bound,
};
use vstd::prelude::*;

verus! {

/// The rows `i < r`, in increasing order, whose flag in column `j` of a
/// row-major `keep` mask with `n` columns is set.
pub open spec fn kept_rows(keep: Seq<bool>, n: nat, j: nat, r: nat) -> Seq<usize>
    decreases r,
{
    if r == 0 {
        Seq::empty()
    } else {
        let before = kept_rows(keep, n, j, (r - 1) as nat);
        if keep[(r - 1) * n + j] {
            before.push((r - 1) as usize)
        } else {
            before
        }
    }
}

impl<T> ClarabelCscMatrix<T> {
    /// Column `j` stores exactly the rows that `keep` marks in column `j`
    /// of an `m x n` row-major mask, in increasing order, with their values
    /// taken from `values`.
    pub open spec fn column_from_dense(
        &self,
        values: Seq<T>,
        keep: Seq<bool>,
        j: int,
    ) -> bool {
        let rows = kept_rows(keep, self.n as nat, j as nat, self.m as nat);
        &&& self.rowval@.subrange(self.colptr@[j] as int, self.colptr@[j + 1] as int) == rows
        &&& self.nzval@.subrange(self.colptr@[j] as int, self.colptr@[j + 1] as int)
            == rows.map_values(|i: usize| values[i * self.n + j])
    }

    /// Every column is what `column_from_dense` describes.
    pub open spec fn built_from_dense(&self, values: Seq<T>, keep: Seq<bool>) -> bool {
        forall|j: int| 0 <= j < self.n ==> #[trigger] self.column_from_dense(values, keep, j)
    }
}

/// Facts about `kept_rows`: each row it lists is below `r` and marked, and
/// the rows strictly increase.
pub proof fn lemma_kept_rows_bounded(keep: Seq<bool>, n: nat, j: nat, r: nat)
    requires
        r <= usize::MAX,
    ensures
        forall|t: int|
            0 <= t < kept_rows(keep, n, j, r).len() ==> {
                let i = #[trigger] kept_rows(keep, n, j, r)[t];
                &&& i < r
                &&& keep[i * n + j]
            },
        forall|a: int, b: int|
            0 <= a < b < kept_rows(keep, n, j, r).len() ==> #[trigger] kept_rows(keep, n, j, r)[a]
                < #[trigger] kept_rows(keep, n, j, r)[b],
    decreases r,
{
    if r > 0 {
        let prev = kept_rows(keep, n, j, (r - 1) as nat);
        lemma_kept_rows_bounded(keep, n, j, (r - 1) as nat);
        if keep[(r - 1) * n + j] {
            let rows = prev.push((r - 1) as usize);
            assert(kept_rows(keep, n, j, r) == rows);
            assert forall|t: int| 0 <= t < rows.len() implies rows[t] < r && keep[rows[t] * n
                + j] by {
                if t < prev.len() {
                    assert(rows[t] == prev[t]);
                }
            }
            assert forall|a: int, b: int| 0 <= a < b < rows.len() implies rows[a] < rows[b] by {
                assert(rows[a] == prev[a]);
                if b < prev.len() {
                    assert(rows[b] == prev[b]);
                }
            }
        }
    }
}

/// A marked row below `r` is listed by `kept_rows`.
pub proof fn lemma_kept_rows_complete(keep: Seq<bool>, n: nat, j: nat, r: nat, i: nat)
    requires
        i < r <= usize::MAX,
        keep[(i * n + j) as int],
    ensures
        exists|t: int|
            0 <= t < kept_rows(keep, n, j, r).len() && #[trigger] kept_rows(keep, n, j, r)[t]
                == i,
    decreases r,
{
    let rows = kept_rows(keep, n, j, r);
    if i == r - 1 {
        assert(keep[(r - 1) * n + j]);
        assert(rows == kept_rows(keep, n, j, (r - 1) as nat).push(i as usize));
        assert(rows[rows.len() - 1] == i);
    } else {
        lemma_kept_rows_complete(keep, n, j, (r - 1) as nat, i);
        let t = choose|t: int|
            0 <= t < kept_rows(keep, n, j, (r - 1) as nat).len() && #[trigger] kept_rows(
                keep,
                n,
                j,
                (r - 1) as nat,
            )[t] == i;
        assert(rows[t] == i);
    }
}

proof fn lemma_row_major_index(i: int, j: int, m: int, n: int)
    requires
        0 <= i < m,
        0 <= j < n,
    ensures
        0 <= i * n + j < m * n,
{
    assert(i * n + j < m * n) by (nonlinear_arith)
        requires
            0 <= i < m,
            0 <= j < n,
    ;
    assert(0 <= i * n) by (nonlinear_arith)
        requires
            0 <= i,
            0 <= n,
    ;
}

proof fn lemma_positive_width(q: int, m: int, n: int)
    requires
        0 <= q < m * n,
        0 <= m,
        0 <= n,
    ensures
        0 < n,
{
    assert(0 < n) by (nonlinear_arith)
        requires
            0 <= q < m * n,
            0 <= m,
            0 <= n,
    ;
}

proof fn lemma_row_major_split(p: int, n: int)
    requires
        0 <= p,
        0 < n,
    ensures
        p == (p / n) * n + p % n,
        0 <= p % n < n,
        0 <= p / n,
{
    lemma_fundamental_div_mod(p, n);
    lemma_mod_pos_bound(p, n);
    lemma_div_pos_is_pos(p, n);
    assert(p == (p / n) * n + p % n) by (nonlinear_arith)
        requires
            p == n * (p / n) + p % n,
    ;
}

impl<T: Copy> ClarabelCscMatrix<T> {
    /// Builds an owned matrix from `m * n` row-major `values`, storing the
    /// elements whose flag in the row-major mask `keep` is set (a caller
    /// marks its nonzeros there). Each column lists its rows in increasing
    /// order. The caller's buffers are only read.
    pub fn from_dense(m: usize, n: usize, values: &Vec<T>, keep: &Vec<bool>) -> (r: Self)
        requires
            values@.len() == m * n,
            keep@.len() == m * n,
        ensures
            r.m == m,
            r.n == n,
            r.ownership == Ownership::Owned,
            r.wf(),
            r.sorted(),
            r.rows_distinct(),
            r.built_from_dense(values@, keep@),
    {
        let mut r = ClarabelCscMatrix {
            m,
            n,
            colptr: Vec::new(),
            rowval: Vec::new(),
            nzval: Vec::new(),
            ownership: Ownership::Owned,
        };
        r.colptr.push(0);
        let total: usize = values.len();
        let mut j: usize = 0;
        while j < n
            invariant
                j <= n,
                r.m == m,
                r.n == n,
                r.ownership == Ownership::Owned,
                values@.len() == m * n,
                keep@.len() == m * n,
                total == m * n,
                r.colptr@.len() == j + 1,
                r.colptr@[0] == 0,
                forall|a: int, b: int|
                    0 <= a <= b <= j ==> #[trigger] r.colptr@[a] <= #[trigger] r.colptr@[b],
                r.colptr@[j as int] == r.rowval@.len(),
                r.rowval@.len() == r.nzval@.len(),
                forall|k: int| 0 <= k < r.rowval@.len() ==> #[trigger] r.rowval@[k] < m,
                forall|jj: int| 0 <= jj < j ==> #[trigger] r.column_from_dense(values@, keep@, jj),
            decreases n - j,
        {
            let ghost start = r.colptr@[j as int] as int;
            let mut i: usize = 0;
            while i < m
                invariant
                    j < n,
                    i <= m,
                    r.m == m,
                    r.n == n,
                    r.ownership == Ownership::Owned,
                    values@.len() == m * n,
                    keep@.len() == m * n,
                    total == m * n,
                    r.colptr@.len() == j + 1,
                    r.colptr@[0] == 0,
                    forall|a: int, b: int|
                        0 <= a <= b <= j ==> #[trigger] r.colptr@[a] <= #[trigger] r.colptr@[b],
                    start == r.colptr@[j as int],
                    start <= r.rowval@.len(),
                    r.rowval@.len() == r.nzval@.len(),
                    forall|k: int| 0 <= k < r.rowval@.len() ==> #[trigger] r.rowval@[k] < m,
                    forall|jj: int|
                        0 <= jj < j ==> #[trigger] r.column_from_dense(values@, keep@, jj),
                    r.rowval@.subrange(start, r.rowval@.len() as int) == kept_rows(
                        keep@,
                        n as nat,
                        j as nat,
                        i as nat,
                    ),
                    r.nzval@.subrange(start, r.nzval@.len() as int) == kept_rows(
                        keep@,
                        n as nat,
                        j as nat,
                        i as nat,
                    ).map_values(|x: usize| values@[x * n + j]),
                decreases m - i,
            {
                proof {
                    lemma_row_major_index(i as int, j as int, m as int, n as int);
                }
                let p: usize = i * n + j;
                if keep[p] {
                    let ghost old_r = r;
                    r.rowval.push(i);
                    r.nzval.push(values[p]);
                    proof {
                        assert forall|jj: int| 0 <= jj < j implies #[trigger] r.column_from_dense(
                            values@,
                            keep@,
                            jj,
                        ) by {
                            assert(old_r.column_from_dense(values@, keep@, jj));
                            let lo = r.colptr@[jj] as int;
                            let hi = r.colptr@[jj + 1] as int;
                            assert(r.colptr@[jj + 1] <= r.colptr@[j as int]);
                            assert(r.rowval@.subrange(lo, hi) =~= old_r.rowval@.subrange(lo, hi));
                            assert(r.nzval@.subrange(lo, hi) =~= old_r.nzval@.subrange(lo, hi));
                        }
                        assert(r.rowval@.subrange(start, r.rowval@.len() as int) =~= old_r.rowval@.subrange(
                            start,
                            old_r.rowval@.len() as int,
                        ).push(i));
                        assert(r.nzval@.subrange(start, r.nzval@.len() as int) =~= old_r.nzval@.subrange(
                            start,
                            old_r.nzval@.len() as int,
                        ).push(values@[p as int]));
                        assert(kept_rows(keep@, n as nat, j as nat, (i + 1) as nat) == kept_rows(
                            keep@,
                            n as nat,
                            j as nat,
                            i as nat,
                        ).push(i));
                        assert(kept_rows(keep@, n as nat, j as nat, (i + 1) as nat).map_values(
                            |x: usize| values@[x * n + j],
                        ) =~= kept_rows(keep@, n as nat, j as nat, i as nat).map_values(
                            |x: usize| values@[x * n + j],
                        ).push(values@[p as int]));
                    }
                }
                i = i + 1;
            }
            let ghost before = r;
            let len = r.rowval.len();
            r.colptr.push(len);
            proof {
                assert forall|jj: int| 0 <= jj <= j implies #[trigger] r.column_from_dense(
                    values@,
                    keep@,
                    jj,
                ) by {
                    if jj < j {
                        assert(before.column_from_dense(values@, keep@, jj));
                    }
                }
                assert forall|a: int, b: int| 0 <= a <= b <= j + 1 implies #[trigger] r.colptr@[a]
                    <= #[trigger] r.colptr@[b] by {
                    if b == j + 1 && a <= j {
                        assert(before.colptr@[a] <= before.colptr@[j as int]);
                    }
                }
            }
            j = j + 1;
        }
        proof {
            assert forall|jj: int, a: int, b: int|
                #![trigger r.colptr@[jj], r.rowval@[a], r.rowval@[b]]
                0 <= jj < n && r.colptr@[jj] <= a < b < r.colptr@[jj + 1] implies r.rowval@[a]
                < r.rowval@[b] by {
                assert(r.column_from_dense(values@, keep@, jj));
                let lo = r.colptr@[jj] as int;
                let hi = r.colptr@[jj + 1] as int;
                lemma_kept_rows_bounded(keep@, n as nat, jj as nat, m as nat);
                assert(r.rowval@[a] == r.rowval@.subrange(lo, hi)[a - lo]);
                assert(r.rowval@[b] == r.rowval@.subrange(lo, hi)[b - lo]);
            }
            assert forall|jj: int, a: int, b: int|
                #![trigger r.colptr@[jj], r.rowval@[a], r.rowval@[b]]
                0 <= jj < n && r.in_column(jj, a) && r.in_column(jj, b) && a != b implies r.rowval@[a]
                != r.rowval@[b] by {
                if a < b {
                    assert(r.rowval@[a] < r.rowval@[b]);
                } else {
                    assert(r.rowval@[b] < r.rowval@[a]);
                }
            }
        }
        r
    }
}

impl<T: Copy> ClarabelCscMatrix<T> {
    /// Some entry of column `j` before position `k` lies in row `i`.
    pub open spec fn seen_before(&self, i: int, j: int, k: int) -> bool {
        exists|t: int| self.colptr@[j] <= t < k && self.rowval@[t] == i
    }

    /// Position `q` of the dense form once the columns before `j`, and the
    /// entries of column `j` before position `k`, have been written.
    pub open spec fn dense_prefix(&self, zero: T, q: int, j: int, k: int) -> T {
        let n = self.n as int;
        let i = q / n;
        let c = q % n;
        if c < j || (c == j && self.seen_before(i, j, k)) {
            self.entry(i, c, zero)
        } else {
            zero
        }
    }

    /// The matrix as `m * n` row-major values, with `zero` where nothing is stored.
    pub fn to_dense(&self, zero: T) -> (r: Vec<T>)
        requires
            self.wf(),
            self.rows_distinct(),
            self.m * self.n <= usize::MAX,
        ensures
            r@ == self.dense(zero),
    {
        let m = self.m;
        let n = self.n;
        let total: usize = m * n;
        let mut out: Vec<T> = Vec::new();
        let mut p: usize = 0;
        while p < total
            invariant
                p <= total,
                out@.len() == p,
                forall|q: int| 0 <= q < p ==> #[trigger] out@[q] == zero,
            decreases total - p,
        {
            out.push(zero);
            p = p + 1;
        }
        proof {
            assert forall|q: int| 0 <= q < total implies #[trigger] out@[q] == self.dense_prefix(
                zero,
                q,
                0,
                self.colptr@[0] as int,
            ) by {
                lemma_positive_width(q, m as int, n as int);
                lemma_row_major_split(q, n as int);
            }
        }
        let mut j: usize = 0;
        while j < n
            invariant
                self.wf(),
                self.rows_distinct(),
                m == self.m,
                n == self.n,
                total == m * n,
                j <= n,
                out@.len() == total,
                forall|q: int|
                    0 <= q < total ==> #[trigger] out@[q] == self.dense_prefix(
                        zero,
                        q,
                        j as int,
                        self.colptr@[j as int] as int,
                    ),
            decreases n - j,
        {
            let lo = self.colptr[j];
            let hi = self.colptr[j + 1];
            assert(self.colptr@[j as int] <= self.colptr@[j + 1] <= self.colptr@[n as int]);
            let mut k: usize = lo;
            while k < hi
                invariant
                    self.wf(),
                    self.rows_distinct(),
                    m == self.m,
                    n == self.n,
                    total == m * n,
                    j < n,
                    lo == self.colptr@[j as int],
                    hi == self.colptr@[j + 1],
                    hi <= self.rowval@.len(),
                    lo <= k <= hi,
                    out@.len() == total,
                    forall|q: int|
                        0 <= q < total ==> #[trigger] out@[q] == self.dense_prefix(
                            zero,
                            q,
                            j as int,
                            k as int,
                        ),
                decreases hi - k,
            {
                let row = self.rowval[k];
                proof {
                    lemma_row_major_index(row as int, j as int, m as int, n as int);
                }
                let target: usize = row * n + j;
                let ghost before = out@;
                out.set(target, self.nzval[k]);
                proof {
                    let ti = target as int;
                    let ni = n as int;
                    lemma_fundamental_div_mod_converse(ti, ni, row as int, j as int);
                    assert(self.in_column(j as int, k as int) && self.rowval@[k as int] == row);
                    let c = choose|c: int| self.in_column(j as int, c) && self.rowval@[c] == row;
                    assert(c == k) by {
                        if c != k {
                            assert(self.rowval@[c] != self.rowval@[k as int]);
                        }
                    }
                    assert(self.entry(row as int, j as int, zero) == self.nzval@[k as int]);
                    assert forall|q: int| 0 <= q < total implies #[trigger] out@[q]
                        == self.dense_prefix(zero, q, j as int, k + 1) by {
                        lemma_row_major_split(q, ni);
                        if q != ti {
                            assert(out@[q] == before[q]);
                            if q % ni == j && self.seen_before(q / ni, j as int, k + 1) {
                                let t = choose|t: int|
                                    self.colptr@[j as int] <= t < k + 1 && self.rowval@[t] == q
                                        / ni;
                                if t == k {
                                    assert(q == (q / ni) * ni + q % ni);
                                    assert(false);
                                }
                                assert(self.seen_before(q / ni, j as int, k as int));
                            }
                        } else {
                            assert(self.seen_before(row as int, j as int, k + 1)) by {
                                assert(self.rowval@[k as int] == row);
                            }
                        }
                    }
                }
                k = k + 1;
            }
            proof {
                let ni = n as int;
                assert forall|q: int| 0 <= q < total implies #[trigger] out@[q]
                    == self.dense_prefix(zero, q, j + 1, self.colptr@[j + 1] as int) by {
                    lemma_row_major_split(q, ni);
                    if q % ni == j && !self.seen_before(q / ni, j as int, hi as int) {
                        if self.stores(q / ni, j as int) {
                            let t = choose|t: int|
                                self.in_column(j as int, t) && self.rowval@[t] == q / ni;
                            assert(self.seen_before(q / ni, j as int, hi as int));
                        }
                    }
                }
            }
            j = j + 1;
        }
        proof {
            assert forall|q: int| 0 <= q < total implies #[trigger] out@[q] == self.dense(zero)[q] by {
                lemma_positive_width(q, m as int, n as int);
                lemma_row_major_split(q, n as int);
            }
            assert(out@ =~= self.dense(zero));
        }
        out
    }
}

/// A matrix built from a dense buffer reads back as that buffer: its dense
/// form equals `values` wherever the mask leaves out only elements equal to
/// `zero`.
pub proof fn lemma_dense_round_trip<T>(
    s: ClarabelCscMatrix<T>,
    values: Seq<T>,
    keep: Seq<bool>,
    zero: T,
)
    requires
        s.wf(),
        s.built_from_dense(values, keep),
        values.len() == s.m * s.n,
        keep.len() == s.m * s.n,
        forall|p: int| 0 <= p < keep.len() && !keep[p] ==> values[p] == zero,
    ensures
        s.dense(zero) == values,
{
    let m = s.m as int;
    let n = s.n as int;
    assert forall|p: int| 0 <= p < values.len() implies #[trigger] s.dense(zero)[p] == values[p] by {
        lemma_positive_width(p, m, n);
        let i = p / n;
        let j = p % n;
        lemma_row_major_split(p, n);
        assert(i < m) by (nonlinear_arith)
            requires
                p == i * n + j,
                0 <= j,
                p < m * n,
                0 < n,
        ;
        assert(s.column_from_dense(values, keep, j));
        let lo = s.colptr@[j] as int;
        let hi = s.colptr@[j + 1] as int;
        let rows = kept_rows(keep, n as nat, j as nat, m as nat);
        assert(s.colptr@[j] <= s.colptr@[j + 1] <= s.colptr@[n]);
        assert forall|k: int| s.in_column(j, k) && s.rowval@[k] == i implies s.nzval@[k]
            == values[p] by {
            assert(s.rowval@.subrange(lo, hi)[k - lo] == s.rowval@[k]);
            assert(s.nzval@.subrange(lo, hi)[k - lo] == s.nzval@[k]);
            assert(rows[k - lo] == i);
            assert(rows.map_values(|x: usize| values[x * s.n + j])[k - lo] == values[rows[k - lo]
                * s.n + j]);
        }
        if s.stores(i, j) {
            let k = choose|k: int| s.in_column(j, k) && s.rowval@[k] == i;
            assert(s.nzval@[k] == values[p]);
        } else if keep[p] {
            lemma_kept_rows_complete(keep, n as nat, j as nat, m as nat, i as nat);
            let t = choose|t: int| 0 <= t < rows.len() && #[trigger] rows[t] == i;
            assert(s.rowval@.subrange(lo, hi)[t] == s.rowval@[lo + t]);
            assert(s.in_column(j, lo + t) && s.rowval@[lo + t] == i);
        }
    }
    assert(s.dense(zero) =~= values);
}

} // verus!
