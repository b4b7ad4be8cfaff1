use onnx_ml::attributes::{
    norm_kind_name, norm_kind_or_default, parse_norm_kind, parse_post_transform, parse_post_transform_lr,
    post_transform_lr_name, post_transform_name, post_transform_or_default, NormKind, PostTransformError,
    PostTransformLC, PostTransformLR,
};

#[test]
fn post_transform_names_parse() {
    assert_eq!(parse_post_transform("NONE"), Ok(PostTransformLC::Identity));
    assert_eq!(parse_post_transform("SOFTMAX"), Ok(PostTransformLC::Softmax));
    assert_eq!(parse_post_transform("LOGISTIC"), Ok(PostTransformLC::Logistic));
}

#[test]
fn post_transform_unsupported_and_invalid() {
    assert_eq!(
        parse_post_transform("SOFTMAX_ZERO"),
        Err(PostTransformError::Unsupported("SOFTMAX_ZERO".to_string()))
    );
    assert_eq!(parse_post_transform("PROBIT"), Err(PostTransformError::Unsupported("PROBIT".to_string())));
    assert_eq!(parse_post_transform("softmax"), Err(PostTransformError::Invalid("softmax".to_string())));
    assert_eq!(parse_post_transform(""), Err(PostTransformError::Invalid(String::new())));
}

#[test]
fn post_transform_default_is_none() {
    assert_eq!(post_transform_or_default(None), Ok(PostTransformLC::Identity));
    assert_eq!(post_transform_or_default(Some("LOGISTIC")), Ok(PostTransformLC::Logistic));
}

#[test]
fn post_transform_round_trip() {
    for k in [PostTransformLC::Identity, PostTransformLC::Softmax, PostTransformLC::Logistic] {
        assert_eq!(parse_post_transform(post_transform_name(k)), Ok(k));
    }
    for k in [PostTransformLR::Identity, PostTransformLR::Softmax, PostTransformLR::Logistic] {
        assert_eq!(parse_post_transform_lr(post_transform_lr_name(k)), Ok(k));
    }
}

#[test]
fn regressor_post_transform_refuses_unknown() {
    assert_eq!(parse_post_transform_lr("PROBIT"), Err("PROBIT".to_string()));
    assert_eq!(parse_post_transform_lr("NONE"), Ok(PostTransformLR::Identity));
}

#[test]
fn norm_kind_ignores_case() {
    assert_eq!(parse_norm_kind("max"), Ok(NormKind::Max));
    assert_eq!(parse_norm_kind("l1"), Ok(NormKind::L1));
    assert_eq!(parse_norm_kind("L2"), Ok(NormKind::L2));
    assert_eq!(parse_norm_kind("mAx"), Ok(NormKind::Max));
}

#[test]
fn norm_kind_error_is_upper_cased() {
    assert_eq!(parse_norm_kind("l3"), Err("L3".to_string()));
    assert_eq!(parse_norm_kind("élan"), Err("éLAN".to_string()));
}

#[test]
fn norm_kind_default_and_round_trip() {
    assert_eq!(norm_kind_or_default(None), Ok(NormKind::Max));
    for k in [NormKind::Max, NormKind::L1, NormKind::L2] {
        assert_eq!(parse_norm_kind(norm_kind_name(k)), Ok(k));
        assert_eq!(parse_norm_kind(&norm_kind_name(k).to_lowercase()), Ok(k));
    }
}
