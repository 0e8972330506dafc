use clarabel::algebra::CscMatrix;
use clarabel::solver::ffi::DirectSolveMethodsFFI;
use clarabel::solver::implementations::default::ffi::DefaultSettingsFFI;
use clarabel::solver::{DefaultSettings, SupportedConeT};
use clarabel_c::{
    convert_from_C_CscMatrix, convert_from_C_cone, convert_from_C_cones,
    direct_solve_method_from_name, direct_solve_method_name, prepare_problem,
    ClarabelCscMatrix, ClarabelSupportedConeT, Ownership,
};

fn nonzero_mask(values: &[f64]) -> Vec<bool> {
    values.iter().map(|v| *v != 0.0).collect()
}

#[test]
fn from_dense_round_trip() {
    let values = vec![
        1.5, 0.0, -2.0, //
        0.0, 0.0, 3.25, //
        4.0, 0.0, 0.0, //
        0.0, 7.0, 1e-300,
    ];
    let keep = nonzero_mask(&values);
    let a = ClarabelCscMatrix::from_dense(4, 3, &values, &keep);
    assert_eq!(a.m, 4);
    assert_eq!(a.n, 3);
    assert_eq!(a.ownership, Ownership::Owned);
    assert_eq!(a.colptr, vec![0, 2, 3, 6]);
    assert_eq!(a.rowval, vec![0, 2, 3, 0, 1, 3]);
    assert_eq!(a.nzval, vec![1.5, 4.0, 7.0, -2.0, 3.25, 1e-300]);
    assert_eq!(a.to_dense(0.0), values);
}

#[test]
fn to_dense_of_unsorted_borrowed_matrix() {
    let d = ClarabelCscMatrix::borrowed(3, 2, vec![0, 2, 3], vec![2, 0, 1], vec![1.0, 2.0, 3.0]);
    assert_eq!(d.to_dense(0.0), vec![2.0, 0.0, 0.0, 3.0, 1.0, 0.0]);
    assert_eq!(d.to_dense(-1.0), vec![2.0, -1.0, -1.0, 3.0, 1.0, -1.0]);
}

#[test]
fn identity_to_dense() {
    let a = ClarabelCscMatrix::identity(3, 1.0);
    assert_eq!(a.to_dense(0.0), vec![1.0, 0.0, 0.0, 0.0, 1.0, 0.0, 0.0, 0.0, 1.0]);
}

#[test]
fn from_dense_agrees_with_solver_matrix() {
    let rows = [[1.0, 3.0, 5.0], [2.0, 0.0, 6.0], [0.0, 4.0, 7.0]];
    let values: Vec<f64> = rows.iter().flatten().copied().collect();
    let keep = nonzero_mask(&values);
    let a = ClarabelCscMatrix::from_dense(3, 3, &values, &keep);
    let expected = CscMatrix::from(&rows);
    assert_eq!(convert_from_C_CscMatrix(&a), expected);
}

#[test]
fn from_dense_empty_and_all_zero() {
    let a = ClarabelCscMatrix::<f64>::from_dense(0, 0, &vec![], &vec![]);
    assert_eq!(a.colptr, vec![0]);
    assert!(a.rowval.is_empty());
    let values = vec![0.0; 6];
    let b = ClarabelCscMatrix::from_dense(2, 3, &values, &nonzero_mask(&values));
    assert_eq!(b.colptr, vec![0, 0, 0, 0]);
    assert!(b.nzval.is_empty());
    assert_eq!(b.to_dense(0.0), values);
    let no_rows = ClarabelCscMatrix::<f32>::from_dense(0, 3, &vec![], &vec![]);
    assert_eq!(no_rows.colptr, vec![0, 0, 0, 0]);
    assert!(no_rows.to_dense(0.0).is_empty());
    let no_cols = ClarabelCscMatrix::<f32>::from_dense(2, 0, &vec![], &vec![]);
    assert_eq!(no_cols.colptr, vec![0]);
}

#[test]
fn from_dense_single_precision() {
    let values = vec![0.0f32, 2.5, -1.0, 0.0];
    let a = ClarabelCscMatrix::from_dense(2, 2, &values, &vec![false, true, true, false]);
    assert_eq!(a.colptr, vec![0, 1, 2]);
    assert_eq!(a.rowval, vec![1, 0]);
    assert_eq!(a.nzval, vec![-1.0, 2.5]);
    assert_eq!(a.to_dense(0.0), values);
}

#[test]
fn from_dense_keeps_masked_zero() {
    let values = vec![0.0, 2.0];
    let a = ClarabelCscMatrix::from_dense(1, 2, &values, &vec![true, true]);
    assert_eq!(a.colptr, vec![0, 1, 2]);
    assert_eq!(a.nzval, vec![0.0, 2.0]);
}

#[test]
fn identity_has_unit_diagonal() {
    let a = ClarabelCscMatrix::identity(4, 1.0);
    assert_eq!((a.m, a.n), (4, 4));
    assert_eq!(a.ownership, Ownership::Owned);
    assert_eq!(a.colptr, vec![0, 1, 2, 3, 4]);
    assert_eq!(a.rowval, vec![0, 1, 2, 3]);
    assert_eq!(a.nzval, vec![1.0; 4]);
    assert_eq!(convert_from_C_CscMatrix(&a), CscMatrix::<f64>::identity(4));
    let e = ClarabelCscMatrix::identity(0, 1.0f32);
    assert_eq!(e.colptr, vec![0]);
    assert!(e.nzval.is_empty());
}

#[test]
fn zeros_stores_nothing() {
    let a = ClarabelCscMatrix::<f64>::zeros(3, 5);
    assert_eq!((a.m, a.n), (3, 5));
    assert_eq!(a.ownership, Ownership::Owned);
    assert_eq!(a.colptr, vec![0; 6]);
    assert!(a.rowval.is_empty());
    assert!(a.nzval.is_empty());
    assert_eq!(convert_from_C_CscMatrix(&a), CscMatrix::<f64>::zeros((3, 5)));
}

#[test]
fn destroy_borrowed_leaves_arrays_intact() {
    let canary = 0xDEAD_BEEF_usize;
    let d = ClarabelCscMatrix::borrowed(
        canary,
        1,
        vec![canary, canary],
        vec![canary],
        vec![-7.5f64],
    );
    assert_eq!(d.ownership, Ownership::Borrowed);
    let back = ClarabelCscMatrix::destroy(Some(d)).expect("borrowed arrays come back");
    assert_eq!(back.0, vec![canary, canary]);
    assert_eq!(back.1, vec![canary]);
    assert_eq!(back.2, vec![-7.5]);
}

#[test]
fn destroy_missing_descriptor_is_noop() {
    assert!(ClarabelCscMatrix::<f64>::destroy(None).is_none());
}

#[test]
fn destroy_owned_releases() {
    let d = ClarabelCscMatrix::identity(3, 1.0f64);
    assert!(ClarabelCscMatrix::destroy(Some(d)).is_none());
    assert!(Ownership::Owned.released_on_destroy());
    assert!(!Ownership::Borrowed.released_on_destroy());
}

#[test]
fn convert_copies_every_array() {
    let d = ClarabelCscMatrix::borrowed(3, 2, vec![0, 2, 3], vec![2, 0, 1], vec![1.0, 2.0, 3.0]);
    let e = convert_from_C_CscMatrix(&d);
    assert_eq!((e.m, e.n), (3, 2));
    assert_eq!(e.colptr, vec![0, 2, 3]);
    assert_eq!(e.rowval, vec![2, 0, 1]);
    assert_eq!(e.nzval, vec![1.0, 2.0, 3.0]);
}

#[test]
fn cones_keep_order_and_parameters() {
    let c_cones = vec![
        ClarabelSupportedConeT::ZeroConeT(2),
        ClarabelSupportedConeT::NonnegativeConeT(4),
        ClarabelSupportedConeT::SecondOrderConeT(3),
        ClarabelSupportedConeT::ExponentialConeT(),
        ClarabelSupportedConeT::PowerConeT(0.25),
        ClarabelSupportedConeT::GenPowerConeT(vec![0.3, 0.7], 2),
    ];
    let cones = convert_from_C_cones(&c_cones);
    assert_eq!(cones.len(), 6);
    assert!(matches!(cones[0], SupportedConeT::ZeroConeT(2)));
    assert!(matches!(cones[1], SupportedConeT::NonnegativeConeT(4)));
    assert!(matches!(cones[2], SupportedConeT::SecondOrderConeT(3)));
    assert!(matches!(cones[3], SupportedConeT::ExponentialConeT()));
    match &cones[4] {
        SupportedConeT::PowerConeT(p) => assert_eq!(*p, 0.25),
        other => panic!("unexpected {:?}", other),
    }
    match &cones[5] {
        SupportedConeT::GenPowerConeT(alpha, d) => {
            assert_eq!(alpha, &vec![0.3, 0.7]);
            assert_eq!(*d, 2);
        }
        other => panic!("unexpected {:?}", other),
    }
}

#[test]
fn single_cone_translation() {
    let c = convert_from_C_cone(&ClarabelSupportedConeT::SecondOrderConeT(5usize.pow(2)));
    assert!(matches!(c, SupportedConeT::<f64>::SecondOrderConeT(25)));
}

#[test]
fn empty_cone_list_translates_to_empty() {
    let cones = convert_from_C_cones::<f64>(&[]);
    assert!(cones.is_empty());
}

#[test]
fn solve_method_names() {
    assert_eq!(direct_solve_method_name(DirectSolveMethodsFFI::AUTO), "auto");
    assert_eq!(direct_solve_method_name(DirectSolveMethodsFFI::QDLDL), "qdldl");
    assert!(matches!(
        direct_solve_method_from_name("qdldl".to_string()),
        DirectSolveMethodsFFI::QDLDL
    ));
    assert!(matches!(
        direct_solve_method_from_name("auto".to_string()),
        DirectSolveMethodsFFI::AUTO
    ));
}

#[test]
fn unknown_solve_method_falls_back_to_auto() {
    assert!(matches!(
        direct_solve_method_from_name("no-such-solver".to_string()),
        DirectSolveMethodsFFI::AUTO
    ));
    assert!(matches!(
        direct_solve_method_from_name(String::new()),
        DirectSolveMethodsFFI::AUTO
    ));
}

#[test]
fn solve_method_round_trip() {
    for m in [DirectSolveMethodsFFI::AUTO, DirectSolveMethodsFFI::QDLDL] {
        let name = direct_solve_method_name(m.clone());
        let back = direct_solve_method_from_name(name);
        assert_eq!(format!("{:?}", back), format!("{:?}", m));
    }
}

#[test]
fn default_settings_round_trip() {
    let engine = DefaultSettings::<f64>::default();
    let boundary: DefaultSettingsFFI<f64> = engine.clone().into();
    let back: DefaultSettings<f64> = boundary.clone().into();
    assert_eq!(format!("{:?}", back), format!("{:?}", engine));
    assert_eq!(boundary.max_iter, engine.max_iter);
    assert_eq!(boundary.tol_gap_abs, engine.tol_gap_abs);
    assert_eq!(boundary.time_limit, engine.time_limit);
    assert_eq!(
        direct_solve_method_name(boundary.direct_solve_method.clone()),
        engine.direct_solve_method
    );
}

#[test]
fn prepare_problem_requires_p_q_and_a() {
    let p = ClarabelCscMatrix::identity(2, 1.0f64);
    let a = ClarabelCscMatrix::identity(2, 1.0f64);
    let q = [1.0, -1.0];
    assert!(prepare_problem(None, Some(&q[..]), Some(&a), None, None).is_none());
    assert!(prepare_problem(Some(&p), None, Some(&a), None, None).is_none());
    assert!(prepare_problem(Some(&p), Some(&q[..]), None, None, None).is_none());
    let d = prepare_problem(Some(&p), Some(&q[..]), Some(&a), None, None).expect("complete input");
    assert!(d.b.is_empty());
    assert!(d.cones.is_empty());
    assert_eq!(d.q, vec![1.0, -1.0]);
    assert_eq!(d.P, CscMatrix::identity(2));
    assert_eq!(d.A, CscMatrix::identity(2));
}

#[test]
fn prepare_problem_copies_b_and_cones() {
    let p = ClarabelCscMatrix::zeros(1, 1);
    let a = ClarabelCscMatrix::identity(1, 1.0f64);
    let q = [2.0];
    let b = [5.0];
    let cones = [ClarabelSupportedConeT::NonnegativeConeT(1)];
    let d = prepare_problem(Some(&p), Some(&q[..]), Some(&a), Some(&b[..]), Some(&cones[..]))
        .expect("complete input");
    assert_eq!(d.b, vec![5.0]);
    assert_eq!(d.cones.len(), 1);
    assert!(matches!(d.cones[0], SupportedConeT::NonnegativeConeT(1)));
    assert_eq!(d.P, CscMatrix::zeros((1, 1)));
}
