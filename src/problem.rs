use crate::cones::{convert_from_C_cones, translates, ClarabelSupportedConeT};
use crate::csc::{convert_from_C_CscMatrix, copy_of, same_matrix, ClarabelCscMatrix};
use clarabel::algebra::CscMatrix;
use clarabel::solver::SupportedConeT;
use vstd::prelude::*;

verus! {

/// The data of a conic program in the solver's own types: the cost matrix
/// `P` and vector `q`, the constraint matrix `A` and vector `b`, and the
/// cones that `A`'s rows fall into, in order.
#[allow(non_snake_case)]
#[verifier::reject_recursive_types(T)]
pub struct ProblemData<T> {
    pub P: CscMatrix<T>,
    pub q: Vec<T>,
    pub A: CscMatrix<T>,
    pub b: Vec<T>,
    pub cones: Vec<SupportedConeT<T>>,
}

/// A vector that may be absent, with absence read as empty.
pub open spec fn or_empty<T>(v: Option<&[T]>) -> Seq<T> {
    match v {
        Some(s) => s@,
        None => Seq::empty(),
    }
}

/// Gathers what the solver's constructor takes. `P`, `q` and `A` are
/// required: without any one of them nothing is built. A missing `b` or
/// cone list stands for an empty one. The caller's data is only read; the
/// result holds copies.
#[allow(non_snake_case)]
pub fn prepare_problem<T: Copy>(
    P: Option<&ClarabelCscMatrix<T>>,
    q: Option<&[T]>,
    A: Option<&ClarabelCscMatrix<T>>,
    b: Option<&[T]>,
    cones: Option<&[ClarabelSupportedConeT<T>]>,
) -> (r: Option<ProblemData<T>>)
    ensures
        r is Some <==> (P is Some && q is Some && A is Some),
        r matches Some(d) ==> {
            &&& same_matrix(d.P, *P.unwrap())
            &&& d.q@ == q.unwrap()@
            &&& same_matrix(d.A, *A.unwrap())
            &&& d.b@ == or_empty(b)
            &&& d.cones@.len() == or_empty(cones).len()
            &&& forall|i: int|
                0 <= i < d.cones@.len() ==> translates(
                    #[trigger] or_empty(cones)[i],
                    d.cones@[i],
                )
        },
{
    match (P, q, A) {
        (Some(P), Some(q), Some(A)) => {
            let b = match b {
                Some(b) => copy_of(b),
                None => Vec::new(),
            };
            let cones = match cones {
                Some(c) => convert_from_C_cones(c),
                None => Vec::new(),
            };
            Some(
                ProblemData {
                    P: convert_from_C_CscMatrix(P),
                    q: copy_of(q),
                    A: convert_from_C_CscMatrix(A),
                    b,
                    cones,
                },
            )
        },
        _ => None,
    }
}

} // verus!
