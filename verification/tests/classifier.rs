use onnx_ml::attributes::{PostTransformError, PostTransformLC};
use onnx_ml::classifier::{
    dims_from_flat, dims_from_shape, load, DimError, EvalError, EvalPlan, InterceptUse, LinearClassifier,
    LinearClassifierData, LoadError, ScoringPlan,
};
use onnx_ml::labels::{parse_labels, ClassLabels, MissingLabels};
use onnx_ml::onnx_ops::{linear_classifier, ClassifierAttrError};

/// Scores and picked classes of a classifier on a row-major input, following
/// the library's scoring plan; the arithmetic is plain `f32`.
fn evaluate(op: &LinearClassifier<f32>, shape: &Vec<usize>, x: &[f32]) -> (Vec<usize>, Vec<Vec<f32>>) {
    let plan: EvalPlan = op.eval_plan(shape).unwrap();
    let (n, c) = (plan.rows, plan.features);
    let d = &op.data;
    let sigmoid = |v: f32| 1.0 / (1.0 + (-v).exp());
    let mut argmax = vec![];
    let mut scores = vec![];
    match plan.scoring {
        ScoringPlan::FusedBinary { bias } => {
            let b = if bias { d.intercepts.as_ref().unwrap()[0] } else { 0.0 };
            for i in 0..n {
                let z: f32 = (0..c).map(|k| x[i * c + k] * d.coefficients[k]).sum::<f32>() + b;
                match op.post_transform {
                    PostTransformLC::Identity => {
                        scores.push(vec![-z, z]);
                        argmax.push(if z >= 0.0 { 1 } else { 0 });
                    }
                    PostTransformLC::Logistic => {
                        let p = sigmoid(z);
                        scores.push(vec![1.0 - p, p]);
                        argmax.push(if p >= 0.5 { 1 } else { 0 });
                    }
                    PostTransformLC::Softmax => {
                        let p = sigmoid(2.0 * z);
                        scores.push(vec![1.0 - p, p]);
                        argmax.push(if p >= 0.5 { 1 } else { 0 });
                    }
                }
            }
        }
        ScoringPlan::General { intercepts, expand_binary, binary_intercepts } => {
            for i in 0..n {
                let mut row: Vec<f32> = (0..d.eff_e)
                    .map(|j| (0..c).map(|k| x[i * c + k] * d.coefficients[j * c + k]).sum())
                    .collect();
                match intercepts {
                    InterceptUse::PerScore => {
                        for (v, b) in row.iter_mut().zip(d.intercepts.as_ref().unwrap()) {
                            *v += b;
                        }
                    }
                    InterceptUse::Broadcast => {
                        let b = d.intercepts.as_ref().unwrap()[0];
                        row.iter_mut().for_each(|v| *v += b);
                    }
                    InterceptUse::Unused => {}
                }
                match op.post_transform {
                    PostTransformLC::Identity => {}
                    PostTransformLC::Logistic => row.iter_mut().for_each(|v| *v = sigmoid(*v)),
                    PostTransformLC::Softmax => {
                        if row.len() > 1 {
                            let m = row.iter().cloned().fold(f32::NEG_INFINITY, f32::max);
                            row.iter_mut().for_each(|v| *v = (*v - m).exp());
                            let s: f32 = row.iter().sum();
                            row.iter_mut().for_each(|v| *v /= s);
                        }
                    }
                }
                if expand_binary {
                    let s = row[0];
                    row = match op.post_transform {
                        PostTransformLC::Identity => vec![-s, s],
                        _ => vec![1.0 - s, s],
                    };
                    if binary_intercepts {
                        let b = d.intercepts.as_ref().unwrap();
                        row[0] += b[0];
                        row[1] += b[1];
                    }
                    argmax.push(if row[1] >= row[0] { 1 } else { 0 });
                } else {
                    let mut best = 0;
                    for j in 1..row.len() {
                        if row[j] > row[best] {
                            best = j;
                        }
                    }
                    argmax.push(best);
                }
                scores.push(row);
            }
        }
    }
    (argmax, scores)
}

fn close(a: &[Vec<f32>], b: &[Vec<f32>]) -> bool {
    a.len() == b.len()
        && a.iter().zip(b).all(|(r, s)| r.len() == s.len() && r.iter().zip(s).all(|(x, y)| (x - y).abs() < 1e-6))
}

#[test]
fn multiclass_none_int_labels() {
    // 3 classes, 2 features
    // class0: [1, 0], class1: [0, 1], class2: [-1, -1]
    let node = linear_classifier(None, Some(vec![10i64, 20, 30]), vec![1f32, 0., 0., 1., -1., -1.], vec![], Some(1), None)
        .unwrap();
    let op = node.wire().unwrap();
    let x = [1f32, 0., 0., 1.];
    let (argmax, z) = evaluate(&op, &vec![2, 2], &x);
    let y = op.labels_from_argmax(&argmax);
    match y {
        ClassLabels::Integers(v) => assert_eq!(v, vec![10i64, 20i64]),
        _ => panic!("integer labels expected"),
    }
    assert!(close(&z, &[vec![1f32, 0., -1.], vec![0., 1., -1.]]));
}

#[test]
fn binary_none_singlevec_string_labels() {
    // 2 classes with single-vector coefficients, NONE post-transform
    // s = 2*x0 - 1*x1; Z = [-s, s]
    let node = linear_classifier(
        Some(vec!["no".to_string(), "yes".to_string()]),
        None,
        vec![2f32, -1.0],
        vec![],
        Some(0),
        Some("NONE"),
    )
    .unwrap();
    let op = node.wire().unwrap();
    assert_eq!(op.data.eff_e, 1);
    let x = [1f32, 0., 0., 3.];
    let (argmax, z) = evaluate(&op, &vec![2, 2], &x);
    match op.labels_from_argmax(&argmax) {
        ClassLabels::Strings(v) => assert_eq!(v, vec!["yes".to_string(), "no".to_string()]),
        _ => panic!("string labels expected"),
    }
    assert!(close(&z, &[vec![-2f32, 2.], vec![3., -3.]]));
}

#[test]
fn binary_logistic_rank1_input() {
    // 2 classes, single feature, logistic post-transform, rank-1 input
    let node = linear_classifier(None, Some(vec![0i64, 1i64]), vec![1f32], vec![0f32], Some(0), Some("LOGISTIC"))
        .unwrap();
    let op = node.wire().unwrap();
    let (argmax, z) = evaluate(&op, &vec![1], &[2f32]);
    match op.labels_from_argmax(&argmax) {
        ClassLabels::Integers(v) => assert_eq!(v, vec![1i64]),
        _ => panic!("integer labels expected"),
    }
    let p = 1.0 / (1.0 + (-2f32).exp());
    assert!(close(&z, &[vec![1.0 - p, p]]));
}

#[test]
fn flat_dims_cases() {
    // intercepts decide
    assert_eq!(dims_from_flat(Some(3), 3, 0, 12), Ok((3, 4)));
    // compact binary one-vs-rest
    assert_eq!(dims_from_flat(None, 2, 0, 10), Ok((1, 10)));
    // multinomial binary keeps one vector per class
    assert_eq!(dims_from_flat(None, 2, 1, 10), Ok((2, 5)));
    assert_eq!(dims_from_flat(None, 3, 0, 10), Err(DimError::CannotInfer { len: 10, classes: 3 }));
    assert_eq!(dims_from_flat(Some(4), 3, 0, 10), Err(DimError::Inconsistent { rows: 4, columns: 2, len: 10 }));
}

#[test]
fn shaped_dims_cases() {
    assert_eq!(dims_from_shape(&vec![3, 4], 12, 3), Ok((3, 4)));
    assert_eq!(dims_from_shape(&vec![3, 4], 11, 3), Err(DimError::Inconsistent { rows: 3, columns: 4, len: 11 }));
    assert_eq!(dims_from_shape(&vec![6], 6, 2), Ok((1, 6)));
    assert_eq!(dims_from_shape(&vec![6], 6, 3), Ok((3, 2)));
    assert_eq!(dims_from_shape(&vec![7], 7, 3), Err(DimError::CannotInfer { len: 7, classes: 3 }));
    assert_eq!(dims_from_shape(&vec![1, 2, 3], 6, 3), Err(DimError::UnsupportedRank(3)));
}

#[test]
fn data_keeps_a_transpose() {
    let labels = ClassLabels::Integers(vec![1, 2]);
    let d = LinearClassifierData::from_shaped(labels, vec![1, 2, 3, 4, 5, 6], vec![2, 3], None).unwrap();
    assert_eq!((d.eff_e, d.feat_c), (2, 3));
    assert_eq!(d.coefficients_t, vec![1, 4, 2, 5, 3, 6]);
    let flat = LinearClassifierData::from_flat(ClassLabels::Integers(vec![1, 2, 3]), vec![1, 2, 3, 4, 5, 6], None, 0)
        .unwrap();
    assert_eq!((flat.eff_e, flat.feat_c), (3, 2));
    assert_eq!(flat.coefficients_t, vec![1, 3, 5, 2, 4, 6]);
    assert_eq!(flat.coefficient_shape, vec![6]);
}

#[test]
fn eval_plan_checks_the_input() {
    let op = LinearClassifier {
        data: LinearClassifierData::from_flat(ClassLabels::Integers(vec![1, 2, 3]), vec![0f32; 6], Some(vec![0f32; 3]), 0)
            .unwrap(),
        multi_class: 0,
        post_transform: PostTransformLC::Softmax,
    };
    assert_eq!(op.eval_plan(&vec![2, 3, 1]), Err(EvalError::Rank(3)));
    assert_eq!(op.eval_plan(&vec![]), Err(EvalError::Rank(0)));
    assert_eq!(op.eval_plan(&vec![4, 3]), Err(EvalError::FeatureMismatch { expected: 2, got: 3 }));
    let plan = op.eval_plan(&vec![4, 2]).unwrap();
    assert_eq!(plan.rows, 4);
    assert_eq!(
        plan.scoring,
        ScoringPlan::General { intercepts: InterceptUse::PerScore, expand_binary: false, binary_intercepts: false }
    );
    assert_eq!(op.output_shapes(4), (4, (4, 3)));
}

#[test]
fn scoring_plan_for_binary_layouts() {
    let mk = |intercepts: Option<Vec<f32>>| LinearClassifier {
        data: LinearClassifierData::from_shaped(ClassLabels::Integers(vec![0, 1]), vec![1f32, 2.], vec![2], intercepts)
            .unwrap(),
        multi_class: 0,
        post_transform: PostTransformLC::Identity,
    };
    assert_eq!(mk(None).scoring_plan(), ScoringPlan::FusedBinary { bias: false });
    assert_eq!(mk(Some(vec![0.5])).scoring_plan(), ScoringPlan::FusedBinary { bias: true });
    assert_eq!(
        mk(Some(vec![0.5, 1.0])).scoring_plan(),
        ScoringPlan::General { intercepts: InterceptUse::Unused, expand_binary: true, binary_intercepts: true }
    );
}

#[test]
fn labels_from_argmax_defaults() {
    let ints = ClassLabels::Integers(vec![7, 8]);
    match ints.labels_from_argmax(&vec![1, 0, 5]) {
        ClassLabels::Integers(v) => assert_eq!(v, vec![8, 7, 0]),
        _ => panic!(),
    }
    let strs = ClassLabels::Strings(vec!["a".to_string()]);
    match strs.labels_from_argmax(&vec![0, 2]) {
        ClassLabels::Strings(v) => assert_eq!(v, vec!["a".to_string(), String::new()]),
        _ => panic!(),
    }
}

#[test]
fn class_label_text() {
    let ints = ClassLabels::Integers(vec![-5, 0, 1234567890123]);
    assert_eq!(ints.get_class_label(0), Some("-5".to_string()));
    assert_eq!(ints.get_class_label(1), Some("0".to_string()));
    assert_eq!(ints.get_class_label(2), Some("1234567890123".to_string()));
    assert_eq!(ints.get_class_label(3), None);
    let strs = ClassLabels::Strings(vec!["cat".to_string()]);
    assert_eq!(strs.get_class_label(0), Some("cat".to_string()));
    assert_eq!(strs.len(), 1);
    assert!(!strs.is_empty());
    assert!(ClassLabels::Integers(vec![]).is_empty());
}

#[test]
fn parse_labels_prefers_strings() {
    match parse_labels(Some(vec!["x".to_string()]), Some(vec![1])) {
        Ok(ClassLabels::Strings(v)) => assert_eq!(v, vec!["x".to_string()]),
        _ => panic!(),
    }
    match parse_labels(None, Some(vec![1, 2])) {
        Ok(ClassLabels::Integers(v)) => assert_eq!(v, vec![1, 2]),
        _ => panic!(),
    }
    assert!(matches!(parse_labels(None, None), Err(MissingLabels)));
}

#[test]
fn node_attribute_errors() {
    let r = linear_classifier::<f32>(None, None, vec![1.0], vec![], None, None);
    assert!(matches!(r, Err(ClassifierAttrError::Labels(MissingLabels))));
    let r = linear_classifier::<f32>(None, Some(vec![1]), vec![1.0], vec![], None, Some("PROBIT"));
    assert!(matches!(r, Err(ClassifierAttrError::PostTransform(_))));
    let ok = linear_classifier::<f32>(None, Some(vec![1]), vec![1.0], vec![], Some(1i64 << 32), None).unwrap();
    assert_eq!(ok.multi_class, 0);
    assert!(ok.intercepts.is_none());
}

#[test]
fn load_and_dump_round_trip() {
    let op = load(ClassLabels::Integers(vec![3, 4, 5]), vec![1, 2, 3, 4, 5, 6], vec![3, 2], Some(vec![0, 0, 1]), 1, "SOFTMAX")
        .unwrap();
    assert_eq!(op.post_transform, PostTransformLC::Softmax);
    let s = op.dump();
    assert_eq!(s.post_transform, "SOFTMAX");
    let back = load(s.labels, s.coefficients, s.coefficient_shape, s.intercepts, s.multi_class, s.post_transform).unwrap();
    assert_eq!((back.data.eff_e, back.data.feat_c), (3, 2));
    assert_eq!(back.data.coefficients_t, vec![1, 3, 5, 2, 4, 6]);
    assert_eq!(back.multi_class, 1);
}

#[test]
fn load_errors() {
    let r = load(ClassLabels::Integers(vec![3, 4, 5]), vec![1, 2], vec![2], None, 0, "SOFTMAX_ZERO");
    assert!(matches!(r, Err(LoadError::PostTransform(PostTransformError::Unsupported(ref s))) if s == "SOFTMAX_ZERO"));
    let r = load(ClassLabels::Integers(vec![3, 4, 5]), vec![1, 2], vec![2], None, 0, "softmax");
    assert!(matches!(r, Err(LoadError::PostTransform(PostTransformError::Invalid(ref s))) if s == "softmax"));
    let r = load(ClassLabels::Integers(vec![3, 4, 5]), vec![1, 2], vec![2], None, 0, "NONE");
    assert!(matches!(r, Err(LoadError::Dims(DimError::CannotInfer { len: 2, classes: 3 }))));
}
