use crate::csc::copy_of;
use clarabel::solver::SupportedConeT;
use vstd::prelude::*;

verus! {

#[verifier::external_type_specification]
#[verifier::reject_recursive_types(T)]
pub struct ExSupportedConeT<T>(clarabel::solver::SupportedConeT<T>);

/// One block of the conic constraint set, as a caller describes it.
#[derive(Debug)]
pub enum ClarabelSupportedConeT<T> {
    /// The zero cone (equality constraints) of the given dimension.
    ZeroConeT(usize),
    /// The nonnegative orthant of the given dimension.
    NonnegativeConeT(usize),
    /// The second-order cone of the given dimension.
    SecondOrderConeT(usize),
    /// The exponential cone in R^3; it takes no parameters.
    ExponentialConeT(),
    /// The power cone in R^3 with the given exponent.
    PowerConeT(T),
    /// The generalized power cone: the exponents of its left-hand side, and
    /// the dimension of its right-hand side.
    GenPowerConeT(Vec<T>, usize),
}

/// The solver's cone `e` is the variant that `c` describes, with the same
/// parameters.
pub open spec fn translates<T>(c: ClarabelSupportedConeT<T>, e: SupportedConeT<T>) -> bool {
    match c {
        ClarabelSupportedConeT::ZeroConeT(d) => e == SupportedConeT::<T>::ZeroConeT(d),
        ClarabelSupportedConeT::NonnegativeConeT(d) => e == SupportedConeT::<T>::NonnegativeConeT(d),
        ClarabelSupportedConeT::SecondOrderConeT(d) => e == SupportedConeT::<T>::SecondOrderConeT(d),
        ClarabelSupportedConeT::ExponentialConeT() => e == SupportedConeT::<T>::ExponentialConeT(),
        ClarabelSupportedConeT::PowerConeT(p) => e == SupportedConeT::<T>::PowerConeT(p),
        ClarabelSupportedConeT::GenPowerConeT(alpha, d) => match e {
            SupportedConeT::GenPowerConeT(beta, d2) => beta@ == alpha@ && d2 == d,
            _ => false,
        },
    }
}

/// Translates one cone description into the solver's cone type.
#[allow(non_snake_case)]
pub fn convert_from_C_cone<T: Copy>(cone: &ClarabelSupportedConeT<T>) -> (r: SupportedConeT<T>)
    ensures
        translates(*cone, r),
{
    match cone {
        ClarabelSupportedConeT::ZeroConeT(d) => SupportedConeT::ZeroConeT(*d),
        ClarabelSupportedConeT::NonnegativeConeT(d) => SupportedConeT::NonnegativeConeT(*d),
        ClarabelSupportedConeT::SecondOrderConeT(d) => SupportedConeT::SecondOrderConeT(*d),
        ClarabelSupportedConeT::ExponentialConeT() => SupportedConeT::ExponentialConeT(),
        ClarabelSupportedConeT::PowerConeT(p) => SupportedConeT::PowerConeT(*p),
        ClarabelSupportedConeT::GenPowerConeT(alpha, d) => SupportedConeT::GenPowerConeT(
            copy_of(alpha.as_slice()),
            *d,
        ),
    }
}

/// Translates a sequence of cone descriptions, keeping their order: the
/// order fixes which rows of the constraint matrix each cone governs.
#[allow(non_snake_case)]
pub fn convert_from_C_cones<T: Copy>(c_cones: &[ClarabelSupportedConeT<T>]) -> (r: Vec<
    SupportedConeT<T>,
>)
    ensures
        r@.len() == c_cones@.len(),
        forall|i: int| 0 <= i < c_cones@.len() ==> translates(#[trigger] c_cones@[i], r@[i]),
{
    let mut cones: Vec<SupportedConeT<T>> = Vec::new();
    let mut k: usize = 0;
    while k < c_cones.len()
        invariant
            k <= c_cones@.len(),
            cones@.len() == k,
            forall|i: int| 0 <= i < k ==> translates(#[trigger] c_cones@[i], cones@[i]),
        decreases c_cones@.len() - k,
    {
        let cone = convert_from_C_cone(&c_cones[k]);
        cones.push(cone);
        k = k + 1;
    }
    cones
}

} // verus!
