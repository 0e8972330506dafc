use vstd::prelude::*;

verus! {

#[verifier::external_type_specification]
#[verifier::reject_recursive_types(T)]
pub struct ExCscMatrix<T>(clarabel::algebra::CscMatrix<T>);

/// Which side of the boundary must release a descriptor's three arrays.
#[derive(Clone, Copy, Debug, PartialEq, Eq, Structural)]
pub enum Ownership {
    /// Built by this library: the arrays are released by an explicit destroy.
    Owned,
    /// Lent by the caller: the arrays are never released here.
    Borrowed,
}

/// A sparse matrix in compressed-sparse-column form, as it crosses the boundary.
///
/// Column `j` holds the entries at positions `colptr[j] .. colptr[j + 1]` of
/// `rowval` (their rows) and `nzval` (their values).
pub struct ClarabelCscMatrix<T> {
    /// number of rows
    pub m: usize,
    /// number of columns
    pub n: usize,
    /// column pointers, `n + 1` of them
    pub colptr: Vec<usize>,
    /// row index of each stored entry
    pub rowval: Vec<usize>,
    /// value of each stored entry
    pub nzval: Vec<T>,
    /// who releases the three arrays
    pub ownership: Ownership,
}

impl<T> ClarabelCscMatrix<T> {
    /// Number of stored entries.
    pub open spec fn nnz(&self) -> nat {
        self.rowval@.len()
    }

    /// Stored entry `k` belongs to column `j`.
    pub open spec fn in_column(&self, j: int, k: int) -> bool {
        self.colptr@[j] <= k < self.colptr@[j + 1]
    }

    /// The compressed-sparse-column invariant.
    pub open spec fn wf(&self) -> bool {
        &&& self.colptr@.len() == self.n + 1
        &&& self.colptr@[0] == 0
        &&& forall|a: int, b: int|
            0 <= a <= b <= self.n ==> #[trigger] self.colptr@[a] <= #[trigger] self.colptr@[b]
        &&& self.colptr@[self.n as int] == self.rowval@.len()
        &&& self.rowval@.len() == self.nzval@.len()
        &&& forall|k: int| 0 <= k < self.rowval@.len() ==> #[trigger] self.rowval@[k] < self.m
    }

    /// Within each column the row indices strictly increase.
    pub open spec fn sorted(&self) -> bool {
        forall|j: int, a: int, b: int|
            #![trigger self.colptr@[j], self.rowval@[a], self.rowval@[b]]
            0 <= j < self.n && self.colptr@[j] <= a < b < self.colptr@[j + 1] ==> self.rowval@[a]
                < self.rowval@[b]
    }

    /// No row is stored twice within one column.
    pub open spec fn rows_distinct(&self) -> bool {
        forall|j: int, a: int, b: int|
            #![trigger self.colptr@[j], self.rowval@[a], self.rowval@[b]]
            0 <= j < self.n && self.in_column(j, a) && self.in_column(j, b) && a != b
                ==> self.rowval@[a] != self.rowval@[b]
    }

    /// Some stored entry of column `j` lies in row `i`.
    pub open spec fn stores(&self, i: int, j: int) -> bool {
        exists|k: int| self.in_column(j, k) && self.rowval@[k] == i
    }

    /// The matrix element at row `i`, column `j`, with `zero` where nothing is stored.
    pub open spec fn entry(&self, i: int, j: int, zero: T) -> T {
        if self.stores(i, j) {
            self.nzval@[choose|k: int| self.in_column(j, k) && self.rowval@[k] == i]
        } else {
            zero
        }
    }

    /// The matrix as a row-major dense sequence of `m * n` elements.
    pub open spec fn dense(&self, zero: T) -> Seq<T> {
        Seq::new(
            (self.m * self.n) as nat,
            |p: int| self.entry(p / self.n as int, p % self.n as int, zero),
        )
    }
}

/// A fresh vector holding the elements of `v`.
pub(crate) fn copy_of<T: Copy>(v: &[T]) -> (r: Vec<T>)
    ensures
        r@ == v@,
{
    let mut r: Vec<T> = Vec::new();
    let mut k: usize = 0;
    while k < v.len()
        invariant
            k <= v@.len(),
            r@ == v@.subrange(0, k as int),
        decreases v@.len() - k,
    {
        r.push(v[k]);
        k = k + 1;
        assert(r@ =~= v@.subrange(0, k as int));
    }
    assert(r@ =~= v@);
    r
}

impl Ownership {
    /// Destroying a descriptor releases its arrays only when this library owns them.
    pub fn released_on_destroy(self) -> (r: bool)
        ensures
            r == (self == Ownership::Owned),
    {
        match self {
            Ownership::Owned => true,
            Ownership::Borrowed => false,
        }
    }
}

impl<T: Copy> ClarabelCscMatrix<T> {
    /// An owned `m x n` matrix that stores nothing: every column pointer is 0.
    pub fn zeros(m: usize, n: usize) -> (r: Self)
        requires
            n < usize::MAX,
        ensures
            r.m == m,
            r.n == n,
            r.ownership == Ownership::Owned,
            r.wf(),
            r.sorted(),
            r.rows_distinct(),
            r.nnz() == 0,
            forall|j: int| 0 <= j <= n ==> #[trigger] r.colptr@[j] == 0,
    {
        let mut colptr: Vec<usize> = Vec::new();
        let mut j: usize = 0;
        while j <= n
            invariant
                n < usize::MAX,
                j <= n + 1,
                colptr@.len() == j,
                forall|a: int| 0 <= a < j ==> #[trigger] colptr@[a] == 0,
            decreases n + 1 - j,
        {
            colptr.push(0);
            j = j + 1;
        }
        ClarabelCscMatrix {
            m,
            n,
            colptr,
            rowval: Vec::new(),
            nzval: Vec::new(),
            ownership: Ownership::Owned,
        }
    }

    /// The owned `n x n` identity: column `j` stores one entry, `one`, in row `j`.
    pub fn identity(n: usize, one: T) -> (r: Self)
        requires
            n < usize::MAX,
        ensures
            r.m == n,
            r.n == n,
            r.ownership == Ownership::Owned,
            r.wf(),
            r.sorted(),
            r.rows_distinct(),
            r.nnz() == n,
            forall|j: int| 0 <= j <= n ==> #[trigger] r.colptr@[j] == j,
            forall|k: int| 0 <= k < n ==> #[trigger] r.rowval@[k] == k,
            forall|k: int| 0 <= k < n ==> #[trigger] r.nzval@[k] == one,
    {
        let mut colptr: Vec<usize> = Vec::new();
        let mut rowval: Vec<usize> = Vec::new();
        let mut nzval: Vec<T> = Vec::new();
        colptr.push(0);
        let mut j: usize = 0;
        while j < n
            invariant
                j <= n,
                colptr@.len() == j + 1,
                rowval@.len() == j,
                nzval@.len() == j,
                forall|a: int| 0 <= a <= j ==> #[trigger] colptr@[a] == a,
                forall|k: int| 0 <= k < j ==> #[trigger] rowval@[k] == k,
                forall|k: int| 0 <= k < j ==> #[trigger] nzval@[k] == one,
            decreases n - j,
        {
            rowval.push(j);
            nzval.push(one);
            colptr.push(j + 1);
            j = j + 1;
        }
        ClarabelCscMatrix { m: n, n, colptr, rowval, nzval, ownership: Ownership::Owned }
    }
}

impl<T> ClarabelCscMatrix<T> {
    /// A descriptor over arrays that the caller keeps owning. Their contents
    /// are not checked here: the solver validates what it is given.
    pub fn borrowed(
        m: usize,
        n: usize,
        colptr: Vec<usize>,
        rowval: Vec<usize>,
        nzval: Vec<T>,
    ) -> (r: Self)
        ensures
            r.m == m,
            r.n == n,
            r.colptr == colptr,
            r.rowval == rowval,
            r.nzval == nzval,
            r.ownership == Ownership::Borrowed,
    {
        ClarabelCscMatrix { m, n, colptr, rowval, nzval, ownership: Ownership::Borrowed }
    }

    /// Destroys a descriptor. Arrays this library owns are released; those of
    /// a borrowed descriptor are handed back to their owner untouched. A
    /// missing descriptor is a no-op.
    pub fn destroy(d: Option<Self>) -> (r: Option<(Vec<usize>, Vec<usize>, Vec<T>)>)
        ensures
            match d {
                None => r is None,
                Some(x) => if x.ownership == Ownership::Owned {
                    r is None
                } else {
                    r == Some((x.colptr, x.rowval, x.nzval))
                },
            },
    {
        match d {
            None => None,
            Some(x) => {
                if x.ownership.released_on_destroy() {
                    None
                } else {
                    Some((x.colptr, x.rowval, x.nzval))
                }
            },
        }
    }
}

/// The solver's matrix `e` has the dimensions and arrays of the descriptor `c`.
pub open spec fn same_matrix<T>(e: clarabel::algebra::CscMatrix<T>, c: ClarabelCscMatrix<T>) -> bool {
    &&& e.m == c.m
    &&& e.n == c.n
    &&& e.colptr@ == c.colptr@
    &&& e.rowval@ == c.rowval@
    &&& e.nzval@ == c.nzval@
}

/// The solver's own matrix with the same dimensions and arrays as `matrix`.
/// The descriptor keeps its arrays; the solver gets copies.
#[allow(non_snake_case)]
pub fn convert_from_C_CscMatrix<T: Copy>(matrix: &ClarabelCscMatrix<T>) -> (r:
    clarabel::algebra::CscMatrix<T>)
    ensures
        same_matrix(r, *matrix),
{
    clarabel::algebra::CscMatrix {
        m: matrix.m,
        n: matrix.n,
        colptr: copy_of(matrix.colptr.as_slice()),
        rowval: copy_of(matrix.rowval.as_slice()),
        nzval: copy_of(matrix.nzval.as_slice()),
    }
}

} // verus!
