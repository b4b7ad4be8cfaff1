use onnx_ml::attributes::PostTransformLR;
use onnx_ml::classifier::{DimError, EvalError, InterceptUse};
use onnx_ml::onnx_ops::{linear_regressor, normalizer, RegressorAttrError};
use onnx_ml::attributes::NormKind;
use onnx_ml::normalizer::{Normalizer, NormalizerError};
use onnx_ml::regressor::{load, LinearRegressorData, LoadError};

#[test]
fn regressor_attributes() {
    let node = linear_regressor::<f32>(None, vec![1.0, 2.0], vec![], None).unwrap();
    assert_eq!(node.targets, 1);
    assert_eq!(node.post_transform, PostTransformLR::Identity);
    assert!(node.intercepts.is_none());
    assert_eq!(
        linear_regressor::<f32>(Some(0), vec![1.0], vec![], None).err(),
        Some(RegressorAttrError::NonPositiveTargets(0))
    );
    assert_eq!(linear_regressor::<f32>(Some(2), vec![], vec![], None).err(), Some(RegressorAttrError::EmptyCoefficients));
    assert_eq!(
        linear_regressor::<f32>(Some(2), vec![1.0, 2.0, 3.0], vec![], None).err(),
        Some(RegressorAttrError::NotMultipleOfTargets { len: 3, targets: 2 })
    );
    assert_eq!(
        linear_regressor::<f32>(Some(1), vec![1.0], vec![], Some("PROBIT")).err(),
        Some(RegressorAttrError::PostTransform("PROBIT".to_string()))
    );
}

#[test]
fn regressor_wire_and_plan() {
    let node = linear_regressor(Some(2), vec![1f32, 2., 3., 4., 5., 6.], vec![0.5], Some("SOFTMAX")).unwrap();
    let op = node.wire().unwrap();
    assert_eq!((op.data.targets, op.data.feat_c), (2, 3));
    assert_eq!(op.data.coefficients_t, vec![1f32, 4., 2., 5., 3., 6.]);
    let plan = op.eval_plan(&vec![5, 3]).unwrap();
    assert_eq!((plan.rows, plan.features, plan.intercepts), (5, 3, InterceptUse::Broadcast));
    assert_eq!(op.eval_plan(&vec![3]).unwrap().rows, 1);
    assert_eq!(op.eval_plan(&vec![5, 4]), Err(EvalError::FeatureMismatch { expected: 3, got: 4 }));
    assert_eq!(op.output_shape(5), (5, 2));
}

#[test]
fn regressor_data_checks() {
    assert!(matches!(
        LinearRegressorData::new(vec![1, 2, 3, 4], vec![2, 2], None, 3),
        Err(DimError::TargetMismatch { expected: 3, got: 2 })
    ));
    assert!(matches!(
        LinearRegressorData::new(vec![1, 2, 3], vec![3], None, 2),
        Err(DimError::Inconsistent { rows: 2, columns: 1, len: 3 })
    ));
    assert!(matches!(LinearRegressorData::new(vec![1, 2], vec![], None, 1), Err(DimError::UnsupportedRank(0))));
    let d = LinearRegressorData::new(vec![1, 2, 3, 4], vec![4], Some(vec![9, 9]), 2).unwrap();
    assert_eq!(d.coefficients_t, vec![1, 3, 2, 4]);
}

#[test]
fn regressor_load_and_dump_round_trip() {
    let op = load(vec![1, 2, 3, 4, 5, 6], vec![3, 2], Some(vec![1, 2, 3]), 3, "LOGISTIC").unwrap();
    let plan = op.eval_plan(&vec![1, 2]).unwrap();
    assert_eq!(plan.intercepts, InterceptUse::PerScore);
    let s = op.dump();
    assert_eq!(s.targets, 3);
    assert_eq!(s.post_transform, "LOGISTIC");
    let back = load(s.coefficients, s.coefficient_shape, s.intercepts, s.targets, s.post_transform).unwrap();
    assert_eq!((back.data.targets, back.data.feat_c), (3, 2));
    assert_eq!(back.post_transform, PostTransformLR::Logistic);
    assert!(matches!(load::<u8>(vec![1], vec![1], None, -1, "NONE"), Err(LoadError::TargetsOutOfRange(-1))));
    assert!(matches!(load::<u8>(vec![1], vec![1], None, 1, "X"), Err(LoadError::PostTransform(_))));
}

#[test]
fn normalizer_rows() {
    let n = Normalizer { kind: NormKind::L1 };
    assert_eq!(n.row_layout(&vec![2, 3, 4]), Ok((6, 4)));
    assert_eq!(n.row_layout(&vec![5]), Ok((1, 5)));
    assert_eq!(n.row_layout(&vec![0, 7]), Ok((0, 7)));
    assert_eq!(n.row_layout(&vec![]), Err(NormalizerError::ScalarInput));
    assert_eq!(normalizer(None), Ok(Normalizer { kind: NormKind::Max }));
    assert_eq!(normalizer(Some("l2")), Ok(Normalizer { kind: NormKind::L2 }));
    assert_eq!(normalizer(Some("l0")), Err("L0".to_string()));
}
