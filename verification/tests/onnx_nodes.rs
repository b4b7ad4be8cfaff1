use onnx_ml::attributes::{NormKind, PostTransformLC, PostTransformLR};
use onnx_ml::labels::ClassLabels;
use onnx_ml::normalizer::Normalizer;
use onnx_ml::onnx_model::{AttributeProto, NodeProto};
use onnx_ml::onnx_ops::{
    linear_classifier_from_node, linear_regressor_from_node, normalizer_from_node, ClassifierAttrError, NodeError,
    RegressorAttrError, RegressorNodeError,
};

fn floats(name: &str, v: Vec<f32>) -> AttributeProto<f32> {
    AttributeProto { name: name.to_string(), i: 0, s: vec![], floats: v, ints: vec![], strings: vec![] }
}

fn int_attr(name: &str, i: i64) -> AttributeProto<f32> {
    AttributeProto { name: name.to_string(), i, s: vec![], floats: vec![], ints: vec![], strings: vec![] }
}

fn text(name: &str, s: &str) -> AttributeProto<f32> {
    AttributeProto { name: name.to_string(), i: 0, s: s.as_bytes().to_vec(), floats: vec![], ints: vec![], strings: vec![] }
}

fn node(op: &str, attribute: Vec<AttributeProto<f32>>) -> NodeProto<f32> {
    NodeProto { op_type: op.to_string(), attribute }
}

#[test]
fn classifier_node_with_all_attributes() {
    let n = node(
        "LinearClassifier",
        vec![
            AttributeProto {
                name: "classlabels_strings".to_string(),
                i: 0,
                s: vec![],
                floats: vec![],
                ints: vec![],
                strings: vec![b"a".to_vec(), b"b".to_vec(), b"c".to_vec()],
            },
            floats("coefficients", vec![1., 2., 3., 4., 5., 6.]),
            floats("intercepts", vec![0.1, 0.2, 0.3]),
            int_attr("multi_class", 1),
            text("post_transform", "SOFTMAX"),
        ],
    );
    let c = linear_classifier_from_node(&n).unwrap();
    assert!(matches!(&c.labels, ClassLabels::Strings(v) if v == &vec!["a".to_string(), "b".to_string(), "c".to_string()]));
    assert_eq!(c.multi_class, 1);
    assert_eq!(c.post_transform, PostTransformLC::Softmax);
    assert_eq!(c.intercepts, Some(vec![0.1, 0.2, 0.3]));
    let op = c.wire().unwrap();
    assert_eq!((op.data.eff_e, op.data.feat_c), (3, 2));
    assert_eq!(op.data.coefficient_shape, vec![6]);
}

#[test]
fn classifier_node_defaults_and_errors() {
    let n = node("LinearClassifier", vec![floats("coefficients", vec![1., 2.]), AttributeProto {
        name: "classlabels_ints".to_string(),
        i: 0,
        s: vec![],
        floats: vec![],
        ints: vec![0, 1],
        strings: vec![],
    }, floats("intercepts", vec![])]);
    let c = linear_classifier_from_node(&n).unwrap();
    assert_eq!(c.multi_class, 0);
    assert_eq!(c.post_transform, PostTransformLC::Identity);
    assert!(c.intercepts.is_none());
    let op = c.wire().unwrap();
    assert_eq!((op.data.eff_e, op.data.feat_c), (1, 2));

    let missing = node("LinearClassifier", vec![floats("coefficients", vec![1.])]);
    assert!(matches!(linear_classifier_from_node(&missing), Err(NodeError::Attributes(ClassifierAttrError::Labels(_)))));
    let no_coefs = node("LinearClassifier", vec![int_attr("multi_class", 0), AttributeProto {
        name: "classlabels_ints".to_string(),
        i: 0,
        s: vec![],
        floats: vec![],
        ints: vec![0],
        strings: vec![],
    }]);
    assert!(matches!(linear_classifier_from_node(&no_coefs), Err(NodeError::MissingAttribute(ref s)) if s == "coefficients"));
}

#[test]
fn regressor_node() {
    let n = node(
        "LinearRegressor",
        vec![floats("coefficients", vec![1., 2., 3., 4.]), int_attr("targets", 2), text("post_transform", "LOGISTIC")],
    );
    let r = linear_regressor_from_node(&n).unwrap();
    assert_eq!(r.targets, 2);
    assert_eq!(r.post_transform, PostTransformLR::Logistic);
    let op = r.wire().unwrap();
    assert_eq!(op.data.feat_c, 2);
    assert_eq!(op.data.coefficient_shape, vec![4]);
    let bad = node("LinearRegressor", vec![floats("coefficients", vec![1.]), int_attr("targets", -3)]);
    assert_eq!(
        linear_regressor_from_node(&bad).err(),
        Some(RegressorNodeError::Attributes(RegressorAttrError::NonPositiveTargets(-3)))
    );
    let none = node("LinearRegressor", vec![]);
    assert_eq!(linear_regressor_from_node(&none).err(), Some(RegressorNodeError::MissingAttribute("coefficients".to_string())));
}

#[test]
fn normalizer_node() {
    assert_eq!(normalizer_from_node(&node("Normalizer", vec![])), Ok(Normalizer { kind: NormKind::Max }));
    assert_eq!(normalizer_from_node(&node("Normalizer", vec![text("norm", "l1")])), Ok(Normalizer { kind: NormKind::L1 }));
    assert_eq!(normalizer_from_node(&node("Normalizer", vec![text("norm", "x")])), Err("X".to_string()));
}
