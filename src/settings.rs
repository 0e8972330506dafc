use clarabel::solver::ffi::DirectSolveMethodsFFI;
use vstd::prelude::*;

verus! {

#[verifier::external_type_specification]
pub struct ExDirectSolveMethodsFFI(clarabel::solver::ffi::DirectSolveMethodsFFI);

/// The solver's name for each linear-solve backend of the boundary's closed
/// enumeration.
pub open spec fn solve_method_name(m: DirectSolveMethodsFFI) -> Seq<char> {
    match m {
        DirectSolveMethodsFFI::AUTO => "auto"@,
        DirectSolveMethodsFFI::QDLDL => "qdldl"@,
    }
}

/// The backend that a solver-side name stands for: `qdldl` names QDLDL, and
/// every other name, `auto` included, falls back to AUTO.
pub open spec fn solve_method_of(name: Seq<char>) -> DirectSolveMethodsFFI {
    if name == "qdldl"@ {
        DirectSolveMethodsFFI::QDLDL
    } else {
        DirectSolveMethodsFFI::AUTO
    }
}

/// Relies on clarabel's `From<DirectSolveMethodsFFI> for String`, which
/// spells out each backend's name.
#[verifier::external_body]
fn engine_method_name(m: DirectSolveMethodsFFI) -> (r: String)
    ensures
        r@ == solve_method_name(m),
{
    String::from(m)
}

/// Relies on clarabel's `From<String> for DirectSolveMethodsFFI`, which maps
/// a known name to its backend and any other to AUTO.
#[verifier::external_body]
fn engine_method_of(name: String) -> (r: DirectSolveMethodsFFI)
    ensures
        r == solve_method_of(name@),
{
    DirectSolveMethodsFFI::from(name)
}

/// The name under which the solver's settings record a backend.
pub fn direct_solve_method_name(m: DirectSolveMethodsFFI) -> (r: String)
    ensures
        r@ == solve_method_name(m),
{
    engine_method_name(m)
}

/// The backend recorded under a solver-side name; an unrecognized name gives
/// the documented default, AUTO.
pub fn direct_solve_method_from_name(name: String) -> (r: DirectSolveMethodsFFI)
    ensures
        r == solve_method_of(name@),
{
    engine_method_of(name)
}

/// Translating a backend to the solver's name and back gives the same backend.
pub proof fn lemma_solve_method_round_trip(m: DirectSolveMethodsFFI)
    ensures
        solve_method_of(solve_method_name(m)) == m,
{
    reveal_strlit("auto");
    reveal_strlit("qdldl");
    if m == DirectSolveMethodsFFI::AUTO {
        assert("auto"@ != "qdldl"@) by {
            assert("auto"@[0] != "qdldl"@[0]);
        }
    }
}

} // verus!
