use onnx_ml::labels::ClassLabels;
use onnx_ml::onnx_model::{AttributeProto, GraphProto, ModelProto, NodeProto};
use onnx_ml::processor::{extract_linear_classifier_coefficients, ExtractError, LinearClassifierProcessor};

fn attr(name: &str, floats: Vec<f32>, ints: Vec<i64>, strings: Vec<Vec<u8>>) -> AttributeProto<f32> {
    AttributeProto { name: name.to_string(), i: 0, s: vec![], floats, ints, strings }
}

fn model(nodes: Vec<NodeProto<f32>>) -> ModelProto<f32> {
    ModelProto { graph: Some(GraphProto { node: nodes }) }
}

fn classifier_node(attrs: Vec<AttributeProto<f32>>) -> NodeProto<f32> {
    NodeProto { op_type: "LinearClassifier".to_string(), attribute: attrs }
}

#[test]
fn extract_with_intercepts_and_int_labels() {
    let m = model(vec![
        NodeProto { op_type: "Cast".to_string(), attribute: vec![] },
        classifier_node(vec![
            attr("coefficients", vec![1., 2., 3., 4., 5., 6.], vec![], vec![]),
            attr("intercepts", vec![0.5, -0.5, 0.0], vec![], vec![]),
            attr("classlabels_ints", vec![], vec![7, 8, 9], vec![]),
        ]),
    ]);
    let c = extract_linear_classifier_coefficients(&m).unwrap();
    assert_eq!(c.coefficients, vec![1., 2., 3., 4., 5., 6.]);
    assert_eq!(c.intercepts, Some(vec![0.5, -0.5, 0.0]));
    assert_eq!(c.num_features, 2);
    assert_eq!(c.num_classes, 3);
    let p = LinearClassifierProcessor::new(c);
    assert_eq!(p.num_features(), 2);
    assert_eq!(p.num_classes(), 3);
    assert_eq!(p.get_class_label(2), Some("9".to_string()));
    assert_eq!(p.get_class_label(3), None);
}

#[test]
fn extract_string_labels_without_intercepts() {
    let m = model(vec![classifier_node(vec![
        attr("classlabels_strings", vec![], vec![], vec![b"cat".to_vec(), b"dog".to_vec(), vec![0xff, b'x']]),
        attr("coefficients", vec![1., 2., 3., 4., 5., 6.], vec![], vec![]),
    ])]);
    let c = extract_linear_classifier_coefficients(&m).unwrap();
    assert!(c.intercepts.is_none());
    assert_eq!(c.num_features, 2);
    match &c.class_labels {
        ClassLabels::Strings(v) => assert_eq!(v, &vec!["cat".to_string(), "dog".to_string(), "\u{fffd}x".to_string()]),
        _ => panic!("string labels expected"),
    }
}

#[test]
fn extract_prefers_int_labels() {
    let m = model(vec![classifier_node(vec![
        attr("classlabels_strings", vec![], vec![], vec![b"a".to_vec()]),
        attr("classlabels_ints", vec![], vec![4], vec![]),
        attr("coefficients", vec![1., 2.], vec![], vec![]),
    ])]);
    let c = extract_linear_classifier_coefficients(&m).unwrap();
    assert!(matches!(c.class_labels, ClassLabels::Integers(ref v) if v == &vec![4]));
    assert_eq!(c.num_features, 2);
}

#[test]
fn extract_errors() {
    assert_eq!(
        extract_linear_classifier_coefficients::<f32>(&ModelProto { graph: None }).err(),
        Some(ExtractError::NoGraph)
    );
    assert_eq!(
        extract_linear_classifier_coefficients(&model(vec![])).err(),
        Some(ExtractError::NoLinearClassifier)
    );
    assert_eq!(
        extract_linear_classifier_coefficients(&model(vec![classifier_node(vec![])])).err(),
        Some(ExtractError::AttributeNotFound("coefficients".to_string()))
    );
    assert_eq!(
        extract_linear_classifier_coefficients(&model(vec![classifier_node(vec![attr("coefficients", vec![], vec![], vec![])])]))
            .err(),
        Some(ExtractError::EmptyCoefficients)
    );
    assert_eq!(
        extract_linear_classifier_coefficients(&model(vec![classifier_node(vec![attr("coefficients", vec![1.], vec![], vec![])])]))
            .err(),
        Some(ExtractError::NoClassLabels)
    );
}

#[test]
fn extract_refuses_uncountable_features() {
    let empty_intercepts = model(vec![classifier_node(vec![
        attr("coefficients", vec![1., 2.], vec![], vec![]),
        attr("intercepts", vec![], vec![], vec![]),
        attr("classlabels_ints", vec![], vec![1, 2], vec![]),
    ])]);
    assert_eq!(extract_linear_classifier_coefficients(&empty_intercepts).err(), Some(ExtractError::NoWeightVectors));
    let no_labels = model(vec![classifier_node(vec![
        attr("coefficients", vec![1., 2.], vec![], vec![]),
        attr("classlabels_ints", vec![], vec![], vec![]),
    ])]);
    assert_eq!(extract_linear_classifier_coefficients(&no_labels).err(), Some(ExtractError::NoWeightVectors));
}
