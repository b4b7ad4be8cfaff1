//! ONNX-ML nodes as read from a model: their attributes checked and turned
//! into the operators.

use vstd::prelude::*;
use crate::attributes::{
    PostTransformLC, PostTransformLR, PostTransformError, post_transform_or_default, spec_parse_lc, lc_parse_error,
    spec_parse_lr, parse_post_transform_lr, NormKind, norm_kind_or_default, spec_parse_norm, ascii_upper,
};
use crate::classifier::{DimError, LinearClassifierData, flat_dims, intercept_count_of};
use crate::labels::{ClassLabels, MissingLabels, parse_labels};
use crate::normalizer::Normalizer;
use crate::onnx_model::{NodeProto, find_attribute, first_attr, copy_vec, lossy_utf8, utf8_lossy};
use crate::regressor::{LinearRegressorData, LinearRegressorOp, regressor_dims};

verus! {

/// A `LinearClassifier` node: flat coefficients, labels, optional
/// intercepts, `multi_class` (0 one-vs-rest, 1 multinomial) and the
/// post-transform.
pub struct LinearClassifier<W> {
    pub labels: ClassLabels,
    pub coefficients: Vec<W>,
    pub intercepts: Option<Vec<W>>,
    pub multi_class: i32,
    pub post_transform: PostTransformLC,
}

/// Why the attributes of a `LinearClassifier` node were refused.
#[derive(Debug)]
pub enum ClassifierAttrError {
    Labels(MissingLabels),
    PostTransform(PostTransformError),
}

/// The `LinearClassifier` node with the given attributes: string labels
/// before integer ones, empty intercepts as none, `multi_class` 0 and
/// post-transform `NONE` by default.
pub fn linear_classifier<W>(
    classlabels_strings: Option<Vec<String>>,
    classlabels_ints: Option<Vec<i64>>,
    coefficients: Vec<W>,
    intercepts: Vec<W>,
    multi_class: Option<i64>,
    post_transform: Option<&str>,
) -> (r: Result<LinearClassifier<W>, ClassifierAttrError>)
    ensures
        classlabels_strings is None && classlabels_ints is None
            ==> r matches Err(ClassifierAttrError::Labels(_)),
        !(classlabels_strings is None && classlabels_ints is None) ==> match post_transform {
            None => r is Ok,
            Some(t) => (r is Ok <==> spec_parse_lc(t@) is Some)
                && (r matches Err(e) ==> (e matches ClassifierAttrError::PostTransform(pe) && lc_parse_error(t@, pe))),
        },
        r matches Ok(node) ==> {
            &&& match classlabels_strings {
                Some(s) => (node.labels matches ClassLabels::Strings(v) && v@ == s@),
                None => (classlabels_ints matches Some(i) && (node.labels matches ClassLabels::Integers(v) && v@ == i@)),
            }
            &&& node.coefficients@ == coefficients@
            &&& (intercepts@.len() == 0 ==> node.intercepts is None)
            &&& (intercepts@.len() > 0 ==> (node.intercepts matches Some(v) && v@ == intercepts@))
            &&& node.multi_class == (match multi_class { Some(m) => m, None => 0 }) as i32
            &&& match post_transform {
                None => node.post_transform == PostTransformLC::Identity,
                Some(t) => spec_parse_lc(t@) == Some(node.post_transform),
            }
        },
{
    let labels = match parse_labels(classlabels_strings, classlabels_ints) {
        Ok(l) => l,
        Err(e) => {
            return Err(ClassifierAttrError::Labels(e));
        },
    };
    let mc: i64 = match multi_class {
        Some(m) => m,
        None => 0,
    };
    let post = match post_transform_or_default(post_transform) {
        Ok(p) => p,
        Err(e) => {
            return Err(ClassifierAttrError::PostTransform(e));
        },
    };
    let intercepts = if intercepts.len() == 0 { None } else { Some(intercepts) };
    Ok(LinearClassifier {
        labels,
        coefficients,
        intercepts,
        multi_class: #[verifier::truncate] (mc as i32),
        post_transform: post,
    })
}

impl<W: Copy> LinearClassifier<W> {
    /// The classifier operator for this node, its coefficient layout
    /// inferred from the intercepts, classes and `multi_class`.
    pub fn wire(self) -> (r: Result<crate::classifier::LinearClassifier<W>, DimError>)
        requires
            self.intercepts matches Some(v) ==> v@.len() > 0,
            self.intercepts is None && !(self.labels.spec_len() == 2 && self.multi_class == 0)
                ==> self.labels.spec_len() != 0,
        ensures
            match r {
                Ok(op) => {
                    &&& op.data.well_formed()
                    &&& op.data.labels == self.labels
                    &&& op.data.coefficients@ == self.coefficients@
                    &&& op.data.coefficient_shape@ == seq![self.coefficients@.len() as usize]
                    &&& op.data.intercepts == self.intercepts
                    &&& flat_dims(op.data.intercept_count(), self.labels.spec_len(), self.multi_class as int,
                            self.coefficients@.len()) == Ok::<(usize, usize), DimError>((op.data.eff_e, op.data.feat_c))
                    &&& op.multi_class == self.multi_class as i64
                    &&& op.post_transform == self.post_transform
                },
                Err(e) => flat_dims(intercept_count_of(self.intercepts), self.labels.spec_len(),
                    self.multi_class as int, self.coefficients@.len()) == Err::<(usize, usize), DimError>(e),
            },
    {
        let multi_class = self.multi_class;
        let post_transform = self.post_transform;
        match LinearClassifierData::from_flat(self.labels, self.coefficients, self.intercepts, multi_class) {
            Ok(data) => Ok(crate::classifier::LinearClassifier {
                data,
                multi_class: multi_class as i64,
                post_transform,
            }),
            Err(e) => Err(e),
        }
    }
}

/// A `LinearRegressor` node: flat coefficients, optional intercepts, the
/// number of targets and the post-transform.
pub struct LinearRegressorBridge<W> {
    pub coefficients: Vec<W>,
    pub intercepts: Option<Vec<W>>,
    pub targets: usize,
    pub post_transform: PostTransformLR,
}

/// Why the attributes of a `LinearRegressor` node were refused.
#[derive(Debug, PartialEq, Eq)]
pub enum RegressorAttrError {
    /// `targets` must be positive.
    NonPositiveTargets(i64),
    /// `targets` does not fit the address space.
    TargetsOutOfRange(i64),
    /// There must be at least one coefficient.
    EmptyCoefficients,
    /// The coefficients must split evenly between the targets.
    NotMultipleOfTargets { len: usize, targets: usize },
    /// An unknown post-transform.
    PostTransform(String),
}

/// The `LinearRegressor` node with the given attributes: one target and
/// post-transform `NONE` by default, empty intercepts as none.
pub fn linear_regressor<W>(
    targets: Option<i64>,
    coefficients: Vec<W>,
    intercepts: Vec<W>,
    post_transform: Option<&str>,
) -> (r: Result<LinearRegressorBridge<W>, RegressorAttrError>)
    ensures
        ({
            let t = match targets { Some(t) => t, None => 1 };
            &&& t <= 0 ==> r == Err::<LinearRegressorBridge<W>, RegressorAttrError>(RegressorAttrError::NonPositiveTargets(t))
            &&& t > usize::MAX ==> r == Err::<LinearRegressorBridge<W>, RegressorAttrError>(RegressorAttrError::TargetsOutOfRange(t))
            &&& 0 < t <= usize::MAX && coefficients@.len() == 0
                ==> r == Err::<LinearRegressorBridge<W>, RegressorAttrError>(RegressorAttrError::EmptyCoefficients)
            &&& 0 < t <= usize::MAX && coefficients@.len() > 0 && coefficients@.len() % (t as nat) != 0
                ==> r == Err::<LinearRegressorBridge<W>, RegressorAttrError>(RegressorAttrError::NotMultipleOfTargets {
                    len: coefficients@.len() as usize, targets: t as usize })
            &&& 0 < t <= usize::MAX && coefficients@.len() > 0 && coefficients@.len() % (t as nat) == 0 ==> match post_transform {
                None => r is Ok,
                Some(p) => (r is Ok <==> spec_parse_lr(p@) is Some)
                    && (r is Err ==> (r matches Err(RegressorAttrError::PostTransform(e)) && e@ == p@)),
            }
            &&& r matches Ok(node) ==> {
                &&& node.targets == t
                &&& node.coefficients@ == coefficients@
                &&& (intercepts@.len() == 0 ==> node.intercepts is None)
                &&& (intercepts@.len() > 0 ==> (node.intercepts matches Some(v) && v@ == intercepts@))
                &&& match post_transform {
                    None => node.post_transform == PostTransformLR::Identity,
                    Some(p) => spec_parse_lr(p@) == Some(node.post_transform),
                }
            }
            &&& r matches Err(RegressorAttrError::PostTransform(s)) ==> post_transform matches Some(p) && s@ == p@
        }),
{
    let t: i64 = match targets {
        Some(t) => t,
        None => 1,
    };
    if t <= 0 {
        return Err(RegressorAttrError::NonPositiveTargets(t));
    }
    if (t as u64) > (usize::MAX as u64) {
        return Err(RegressorAttrError::TargetsOutOfRange(t));
    }
    let targets = t as usize;
    if coefficients.len() == 0 {
        return Err(RegressorAttrError::EmptyCoefficients);
    }
    if coefficients.len() % targets != 0 {
        return Err(RegressorAttrError::NotMultipleOfTargets { len: coefficients.len(), targets });
    }
    let post = match post_transform {
        Some(p) => match parse_post_transform_lr(p) {
            Ok(k) => k,
            Err(s) => {
                return Err(RegressorAttrError::PostTransform(s));
            },
        },
        None => PostTransformLR::Identity,
    };
    let intercepts = if intercepts.len() == 0 { None } else { Some(intercepts) };
    Ok(LinearRegressorBridge { coefficients, intercepts, targets, post_transform: post })
}

impl<W: Copy> LinearRegressorBridge<W> {
    /// The regressor operator for this node.
    pub fn wire(self) -> (r: Result<LinearRegressorOp<W>, DimError>)
        ensures
            match r {
                Ok(op) => {
                    &&& regressor_dims(seq![self.coefficients@.len() as usize], self.coefficients@.len(), self.targets)
                            == Ok::<(usize, usize), DimError>((op.data.targets, op.data.feat_c))
                    &&& op.data.well_formed()
                    &&& op.data.coefficients@ == self.coefficients@
                    &&& op.data.coefficient_shape@ == seq![self.coefficients@.len() as usize]
                    &&& op.data.intercepts == self.intercepts
                    &&& op.post_transform == self.post_transform
                },
                Err(e) => regressor_dims(seq![self.coefficients@.len() as usize], self.coefficients@.len(), self.targets)
                    == Err::<(usize, usize), DimError>(e),
            },
    {
        let len = self.coefficients.len();
        let mut shape: Vec<usize> = Vec::new();
        shape.push(len);
        assert(shape@ =~= seq![len]);
        let post_transform = self.post_transform;
        match LinearRegressorData::new(self.coefficients, shape, self.intercepts, self.targets) {
            Ok(data) => Ok(LinearRegressorOp { data, post_transform }),
            Err(e) => Err(e),
        }
    }
}

/// The normalizer of a `Normalizer` node: its `norm` attribute, `MAX` by
/// default, read without regard to ASCII case.
pub fn normalizer(norm: Option<&str>) -> (r: Result<Normalizer, String>)
    ensures
        norm is None ==> r == Ok::<Normalizer, String>(Normalizer { kind: NormKind::Max }),
        norm matches Some(t) ==> match r {
            Ok(n) => spec_parse_norm(t@) == Some(n.kind),
            Err(u) => u@ == ascii_upper(t@) && spec_parse_norm(t@) is None,
        },
{
    match norm_kind_or_default(norm) {
        Ok(kind) => Ok(Normalizer { kind }),
        Err(e) => Err(e),
    }
}

/// The name of the `multi_class` attribute.
pub open spec fn multi_class_name() -> Seq<char> {
    seq!['m', 'u', 'l', 't', 'i', '_', 'c', 'l', 'a', 's', 's']
}

/// The name of the `post_transform` attribute.
pub open spec fn post_transform_attr_name() -> Seq<char> {
    seq!['p', 'o', 's', 't', '_', 't', 'r', 'a', 'n', 's', 'f', 'o', 'r', 'm']
}

/// Why a `LinearClassifier` node could not be read.
#[derive(Debug)]
pub enum NodeError {
    /// A required attribute is missing.
    MissingAttribute(String),
    Attributes(ClassifierAttrError),
}

/// The byte strings of an attribute decoded as UTF-8.
pub open spec fn decoded_strings(v: Seq<Vec<u8>>) -> Seq<Seq<char>> {
    v.map_values(|b: Vec<u8>| lossy_utf8(b@))
}

fn decode_strings(v: &Vec<Vec<u8>>) -> (r: Vec<String>)
    ensures
        r@.len() == v@.len(),
        forall|i: int| 0 <= i < v@.len() ==> (#[trigger] r@[i])@ == lossy_utf8(v@[i]@),
{
    let mut out: Vec<String> = Vec::new();
    let mut i: usize = 0;
    while i < v.len()
        invariant
            i <= v@.len(),
            out@.len() == i,
            forall|j: int| 0 <= j < i ==> (#[trigger] out@[j])@ == lossy_utf8(v@[j]@),
        decreases v@.len() - i,
    {
        out.push(utf8_lossy(&v[i]));
        i = i + 1;
    }
    out
}

/// Reads a `LinearClassifier` node: its `coefficients` are required, its
/// labels are the `classlabels_strings` (decoded as UTF-8) or else the
/// `classlabels_ints`, its `intercepts`, `multi_class` and `post_transform`
/// are optional; the first attribute of each name counts.
pub fn linear_classifier_from_node<W: Copy>(node: &NodeProto<W>) -> (r: Result<LinearClassifier<W>, NodeError>)
    ensures
        ({
            let attrs = node.attribute@;
            let sl = first_attr(attrs, crate::onnx_model::string_labels_name());
            let il = first_attr(attrs, crate::onnx_model::int_labels_name());
            let co = first_attr(attrs, crate::onnx_model::coefficients_name());
            let ic = first_attr(attrs, crate::onnx_model::intercepts_name());
            let mc = first_attr(attrs, multi_class_name());
            let pt = first_attr(attrs, post_transform_attr_name());
            &&& sl is None && il is None ==> (r matches Err(NodeError::Attributes(ClassifierAttrError::Labels(_))))
            &&& !(sl is None && il is None) && co is None
                    ==> (r matches Err(NodeError::MissingAttribute(s)) && s@ == crate::onnx_model::coefficients_name())
            &&& !(sl is None && il is None) && co is Some ==> match pt {
                None => r is Ok,
                Some(k) => (r is Ok <==> spec_parse_lc(lossy_utf8(attrs[k].s@)) is Some)
                    && (r matches Err(e) ==> (e matches NodeError::Attributes(ClassifierAttrError::PostTransform(pe))
                        && lc_parse_error(lossy_utf8(attrs[k].s@), pe))),
            }
            &&& r matches Ok(n) ==> {
                &&& co matches Some(c) && n.coefficients@ == attrs[c].floats@
                &&& match sl {
                    Some(k) => (n.labels matches ClassLabels::Strings(v) && v@.map_values(|x: String| x@)
                        == decoded_strings(attrs[k].strings@)),
                    None => (il matches Some(k) && (n.labels matches ClassLabels::Integers(v) && v@ == attrs[k].ints@)),
                }
                &&& match ic {
                    Some(k) => if attrs[k].floats@.len() == 0 {
                        n.intercepts is None
                    } else {
                        (n.intercepts matches Some(v) && v@ == attrs[k].floats@)
                    },
                    None => n.intercepts is None,
                }
                &&& n.multi_class == (match mc { Some(k) => attrs[k].i, None => 0 }) as i32
                &&& match pt {
                    Some(k) => spec_parse_lc(lossy_utf8(attrs[k].s@)) == Some(n.post_transform),
                    None => n.post_transform == PostTransformLC::Identity,
                }
            }
        }),
{
    proof {
        reveal_strlit("classlabels_strings");
        reveal_strlit("classlabels_ints");
        reveal_strlit("coefficients");
        reveal_strlit("intercepts");
        reveal_strlit("multi_class");
        reveal_strlit("post_transform");
        assert("classlabels_strings"@ =~= crate::onnx_model::string_labels_name());
        assert("classlabels_ints"@ =~= crate::onnx_model::int_labels_name());
        assert("coefficients"@ =~= crate::onnx_model::coefficients_name());
        assert("intercepts"@ =~= crate::onnx_model::intercepts_name());
        assert("multi_class"@ =~= multi_class_name());
        assert("post_transform"@ =~= post_transform_attr_name());
    }
    let strings = match find_attribute(&node.attribute, "classlabels_strings") {
        Some(k) => Some(decode_strings(&node.attribute[k].strings)),
        None => None,
    };
    let ints = match find_attribute(&node.attribute, "classlabels_ints") {
        Some(k) => Some(copy_vec(&node.attribute[k].ints)),
        None => None,
    };
    if strings.is_none() && ints.is_none() {
        return Err(NodeError::Attributes(ClassifierAttrError::Labels(MissingLabels)));
    }
    let coefficients = match find_attribute(&node.attribute, "coefficients") {
        Some(k) => copy_vec(&node.attribute[k].floats),
        None => {
            return Err(NodeError::MissingAttribute("coefficients".to_string()));
        },
    };
    let intercepts = match find_attribute(&node.attribute, "intercepts") {
        Some(k) => copy_vec(&node.attribute[k].floats),
        None => Vec::new(),
    };
    let multi_class = match find_attribute(&node.attribute, "multi_class") {
        Some(k) => Some(node.attribute[k].i),
        None => None,
    };
    let post_text = match find_attribute(&node.attribute, "post_transform") {
        Some(k) => Some(utf8_lossy(&node.attribute[k].s)),
        None => None,
    };
    let post = match &post_text {
        Some(t) => Some(t.as_str()),
        None => None,
    };
    proof {
        if strings is Some {
            assert(strings.unwrap()@.map_values(|x: String| x@) =~= decoded_strings(node.attribute@[
                first_attr(node.attribute@, crate::onnx_model::string_labels_name()).unwrap()].strings@));
        }
    }
    match linear_classifier(strings, ints, coefficients, intercepts, multi_class, post) {
        Ok(n) => Ok(n),
        Err(e) => Err(NodeError::Attributes(e)),
    }
}

/// The name of the `targets` attribute.
pub open spec fn targets_name() -> Seq<char> {
    seq!['t', 'a', 'r', 'g', 'e', 't', 's']
}

/// The name of the `norm` attribute.
pub open spec fn norm_attr_name() -> Seq<char> {
    seq!['n', 'o', 'r', 'm']
}

/// Why a `LinearRegressor` node could not be read.
#[derive(Debug, PartialEq, Eq)]
pub enum RegressorNodeError {
    /// A required attribute is missing.
    MissingAttribute(String),
    Attributes(RegressorAttrError),
}

/// The `targets` of a regressor node: the integer of its first `targets`
/// attribute, 1 without one.
pub open spec fn node_targets<W>(n: NodeProto<W>) -> i64 {
    match first_attr(n.attribute@, targets_name()) {
        Some(k) => n.attribute@[k].i,
        None => 1,
    }
}

/// The floats of the node's first `coefficients` attribute, if any.
pub open spec fn node_coefficients<W>(n: NodeProto<W>) -> Option<Seq<W>> {
    crate::processor::attr_floats(n, crate::onnx_model::coefficients_name())
}

/// The text of the node's first attribute named `name`, decoded as UTF-8.
pub open spec fn node_text<W>(n: NodeProto<W>, name: Seq<char>) -> Option<Seq<char>> {
    match first_attr(n.attribute@, name) {
        Some(k) => Some(lossy_utf8(n.attribute@[k].s@)),
        None => None,
    }
}

/// Reads a `LinearRegressor` node: its `coefficients` are required; its
/// `targets`, `intercepts` and `post_transform` are optional; the first
/// attribute of each name counts.
pub fn linear_regressor_from_node<W: Copy>(node: &NodeProto<W>) -> (r: Result<LinearRegressorBridge<W>, RegressorNodeError>)
    ensures
        node_targets(*node) <= 0 ==> r == Err::<LinearRegressorBridge<W>, RegressorNodeError>(
            RegressorNodeError::Attributes(RegressorAttrError::NonPositiveTargets(node_targets(*node)))),
        node_targets(*node) > 0 && node_coefficients(*node) is None ==> (r matches Err(RegressorNodeError::MissingAttribute(s))
            && s@ == crate::onnx_model::coefficients_name()),
        node_coefficients(*node) matches Some(c) ==> node_targets(*node) > 0 ==> {
            let t = node_targets(*node);
            &&& t > usize::MAX ==> r == Err::<LinearRegressorBridge<W>, RegressorNodeError>(
                    RegressorNodeError::Attributes(RegressorAttrError::TargetsOutOfRange(t)))
            &&& t <= usize::MAX && c.len() == 0 ==> r == Err::<LinearRegressorBridge<W>, RegressorNodeError>(
                    RegressorNodeError::Attributes(RegressorAttrError::EmptyCoefficients))
            &&& t <= usize::MAX && c.len() > 0 && c.len() % (t as nat) != 0 ==> r == Err::<LinearRegressorBridge<W>, RegressorNodeError>(
                    RegressorNodeError::Attributes(RegressorAttrError::NotMultipleOfTargets { len: c.len() as usize, targets: t as usize }))
            &&& t <= usize::MAX && c.len() > 0 && c.len() % (t as nat) == 0 ==> match node_text(*node, post_transform_attr_name()) {
                None => r is Ok,
                Some(p) => (r is Ok <==> spec_parse_lr(p) is Some)
                    && (r is Err ==> (r matches Err(RegressorNodeError::Attributes(RegressorAttrError::PostTransform(e))) && e@ == p)),
            }
        },
        r matches Ok(n) ==> {
            &&& n.targets == node_targets(*node)
            &&& node_coefficients(*node) == Some(n.coefficients@)
            &&& match crate::processor::attr_floats(*node, crate::onnx_model::intercepts_name()) {
                Some(i) => if i.len() == 0 { n.intercepts is None } else { (n.intercepts matches Some(v) && v@ == i) },
                None => n.intercepts is None,
            }
            &&& match node_text(*node, post_transform_attr_name()) {
                Some(p) => spec_parse_lr(p) == Some(n.post_transform),
                None => n.post_transform == PostTransformLR::Identity,
            }
        },
{
    proof {
        reveal_strlit("targets");
        reveal_strlit("coefficients");
        reveal_strlit("intercepts");
        reveal_strlit("post_transform");
        assert("targets"@ =~= targets_name());
        assert("coefficients"@ =~= crate::onnx_model::coefficients_name());
        assert("intercepts"@ =~= crate::onnx_model::intercepts_name());
        assert("post_transform"@ =~= post_transform_attr_name());
    }
    let targets = match find_attribute(&node.attribute, "targets") {
        Some(k) => Some(node.attribute[k].i),
        None => None,
    };
    let t: i64 = match targets {
        Some(t) => t,
        None => 1,
    };
    if t <= 0 {
        return Err(RegressorNodeError::Attributes(RegressorAttrError::NonPositiveTargets(t)));
    }
    let coefficients = match find_attribute(&node.attribute, "coefficients") {
        Some(k) => copy_vec(&node.attribute[k].floats),
        None => {
            return Err(RegressorNodeError::MissingAttribute("coefficients".to_string()));
        },
    };
    let intercepts = match find_attribute(&node.attribute, "intercepts") {
        Some(k) => copy_vec(&node.attribute[k].floats),
        None => Vec::new(),
    };
    let post_text = match find_attribute(&node.attribute, "post_transform") {
        Some(k) => Some(utf8_lossy(&node.attribute[k].s)),
        None => None,
    };
    let post = match &post_text {
        Some(p) => Some(p.as_str()),
        None => None,
    };
    match linear_regressor(targets, coefficients, intercepts, post) {
        Ok(n) => Ok(n),
        Err(e) => Err(RegressorNodeError::Attributes(e)),
    }
}

/// Reads a `Normalizer` node: its optional `norm` attribute, `MAX` by
/// default, ignoring ASCII case.
pub fn normalizer_from_node<W>(node: &NodeProto<W>) -> (r: Result<Normalizer, String>)
    ensures
        match first_attr(node.attribute@, norm_attr_name()) {
            None => r == Ok::<Normalizer, String>(Normalizer { kind: NormKind::Max }),
            Some(k) => match r {
                Ok(n) => spec_parse_norm(lossy_utf8(node.attribute@[k].s@)) == Some(n.kind),
                Err(u) => u@ == ascii_upper(lossy_utf8(node.attribute@[k].s@))
                    && spec_parse_norm(lossy_utf8(node.attribute@[k].s@)) is None,
            },
        },
{
    proof {
        reveal_strlit("norm");
        assert("norm"@ =~= norm_attr_name());
    }
    let text = match find_attribute(&node.attribute, "norm") {
        Some(k) => Some(utf8_lossy(&node.attribute[k].s)),
        None => None,
    };
    match &text {
        Some(t) => normalizer(Some(t.as_str())),
        None => normalizer(None),
    }
}

} // verus!
