//! Reading a linear classifier's coefficients from an ONNX model, and the
//! processor that runs it.

use vstd::prelude::*;
use crate::labels::ClassLabels;
use crate::onnx_model::{
    AttributeProto, NodeProto, ModelProto, copy_vec, find_attribute, find_node, first_attr, first_node,
    lossy_utf8, utf8_lossy, linear_classifier_op, coefficients_name, intercepts_name, int_labels_name,
    string_labels_name,
};

verus! {

/// Coefficients, intercepts and labels of a linear classifier read from a
/// model.
pub struct LinearClassifierCoefficients<W> {
    /// Row-major `num_classes x num_features` weights.
    pub coefficients: Vec<W>,
    /// One intercept per weight vector, if given.
    pub intercepts: Option<Vec<W>>,
    pub num_features: usize,
    pub num_classes: usize,
    pub class_labels: ClassLabels,
}

/// Why no linear classifier could be read from a model.
#[derive(Debug, PartialEq, Eq)]
pub enum ExtractError {
    NoGraph,
    NoLinearClassifier,
    AttributeNotFound(String),
    EmptyCoefficients,
    NoClassLabels,
    /// The coefficients cannot be split into weight vectors: there are no
    /// intercepts to count them by (the `intercepts` attribute is empty),
    /// or, without an `intercepts` attribute, no labels.
    NoWeightVectors,
}

/// The node declares labels, as integers or as strings.
pub open spec fn node_has_labels<W>(n: NodeProto<W>) -> bool {
    first_attr(n.attribute@, int_labels_name()) is Some || first_attr(n.attribute@, string_labels_name()) is Some
}

/// `labels` are the labels the node declares: its integer labels when it
/// has them, else its string labels decoded as UTF-8.
pub open spec fn node_labels<W>(n: NodeProto<W>, labels: ClassLabels) -> bool {
    match first_attr(n.attribute@, int_labels_name()) {
        Some(k) => labels matches ClassLabels::Integers(v) && v@ == n.attribute@[k].ints@,
        None => match first_attr(n.attribute@, string_labels_name()) {
            Some(k) => labels matches ClassLabels::Strings(v) && v@.len() == n.attribute@[k].strings@.len()
                && forall|i: int| 0 <= i < v@.len() ==> (#[trigger] v@[i])@ == lossy_utf8(n.attribute@[k].strings@[i]@),
            None => false,
        },
    }
}

/// The number of labels the node declares.
pub open spec fn node_label_count<W>(n: NodeProto<W>) -> nat {
    match first_attr(n.attribute@, int_labels_name()) {
        Some(k) => n.attribute@[k].ints@.len(),
        None => match first_attr(n.attribute@, string_labels_name()) {
            Some(k) => n.attribute@[k].strings@.len(),
            None => 0,
        },
    }
}

/// The class labels of a node: its integer labels when it has them, else
/// its string labels.
pub fn extract_class_labels<W>(node: &NodeProto<W>) -> (r: Result<ClassLabels, ExtractError>)
    ensures
        match r {
            Ok(l) => node_labels(*node, l) && l.spec_len() == node_label_count(*node),
            Err(e) => e == ExtractError::NoClassLabels && !node_has_labels(*node),
        },
{
    proof {
        reveal_strlit("classlabels_ints");
        reveal_strlit("classlabels_strings");
        assert("classlabels_ints"@ =~= int_labels_name());
        assert("classlabels_strings"@ =~= string_labels_name());
    }
    match find_attribute(&node.attribute, "classlabels_ints") {
        Some(k) => {
            return Ok(ClassLabels::Integers(copy_vec(&node.attribute[k].ints)));
        },
        None => {},
    }
    match find_attribute(&node.attribute, "classlabels_strings") {
        Some(k) => {
            let attr = &node.attribute[k];
            let mut out: Vec<String> = Vec::new();
            let mut i: usize = 0;
            while i < attr.strings.len()
                invariant
                    i <= attr.strings@.len(),
                    out@.len() == i,
                    forall|j: int| 0 <= j < i ==> (#[trigger] out@[j])@ == lossy_utf8(attr.strings@[j]@),
                decreases attr.strings@.len() - i,
            {
                out.push(utf8_lossy(&attr.strings[i]));
                i = i + 1;
            }
            Ok(ClassLabels::Strings(out))
        },
        None => Err(ExtractError::NoClassLabels),
    }
}

/// The floats of the attribute named `name`, if the node has one.
pub open spec fn attr_floats<W>(n: NodeProto<W>, name: Seq<char>) -> Option<Seq<W>> {
    match first_attr(n.attribute@, name) {
        Some(a) => Some(n.attribute@[a].floats@),
        None => None,
    }
}

/// The first `LinearClassifier` node of the model, if any.
pub open spec fn classifier_node<W>(p: ModelProto<W>) -> Option<NodeProto<W>> {
    match p.graph {
        Some(g) => match first_node(g.node@, linear_classifier_op()) {
            Some(i) => Some(g.node@[i]),
            None => None,
        },
        None => None,
    }
}

/// The number of weight vectors the coefficients split into: one per
/// intercept when the node has an `intercepts` attribute, else one per
/// label.
pub open spec fn weight_vector_count<W>(n: NodeProto<W>) -> nat {
    match attr_floats(n, intercepts_name()) {
        Some(i) => i.len(),
        None => node_label_count(n),
    }
}

/// Reads the coefficients, intercepts and labels of the first
/// `LinearClassifier` node of a model. The number of features is the
/// number of coefficients over the number of intercepts, or over the number
/// of classes when there are no intercepts; when that number is zero the
/// features cannot be counted and the model is refused.
pub fn extract_linear_classifier_coefficients<W: Copy>(proto: &ModelProto<W>) -> (r: Result<LinearClassifierCoefficients<W>, ExtractError>)
    ensures
        proto.graph is None ==> r == Err::<LinearClassifierCoefficients<W>, ExtractError>(ExtractError::NoGraph),
        proto.graph is Some && classifier_node(*proto) is None
            ==> r == Err::<LinearClassifierCoefficients<W>, ExtractError>(ExtractError::NoLinearClassifier),
        classifier_node(*proto) matches Some(n) ==> match attr_floats(n, coefficients_name()) {
            None => r matches Err(ExtractError::AttributeNotFound(s)) && s@ == coefficients_name(),
            Some(c) => if c.len() == 0 {
                r == Err::<LinearClassifierCoefficients<W>, ExtractError>(ExtractError::EmptyCoefficients)
            } else if !node_has_labels(n) {
                r == Err::<LinearClassifierCoefficients<W>, ExtractError>(ExtractError::NoClassLabels)
            } else if weight_vector_count(n) == 0 {
                r == Err::<LinearClassifierCoefficients<W>, ExtractError>(ExtractError::NoWeightVectors)
            } else {
                r matches Ok(k) && {
                    &&& k.coefficients@ == c
                    &&& match attr_floats(n, intercepts_name()) {
                        Some(i) => k.intercepts matches Some(v) && v@ == i && k.num_features == c.len() / i.len(),
                        None => k.intercepts is None && k.num_features == c.len() / node_label_count(n),
                    }
                    &&& node_labels(n, k.class_labels)
                    &&& k.num_classes == node_label_count(n)
                }
            },
        },
{
    proof {
        reveal_strlit("LinearClassifier");
        reveal_strlit("coefficients");
        reveal_strlit("intercepts");
        assert("LinearClassifier"@ =~= linear_classifier_op());
        assert("coefficients"@ =~= coefficients_name());
        assert("intercepts"@ =~= intercepts_name());
    }
    let graph = match &proto.graph {
        Some(g) => g,
        None => {
            return Err(ExtractError::NoGraph);
        },
    };
    let i = match find_node(&graph.node, "LinearClassifier") {
        Some(i) => i,
        None => {
            return Err(ExtractError::NoLinearClassifier);
        },
    };
    let node = &graph.node[i];
    let a = match find_attribute(&node.attribute, "coefficients") {
        Some(a) => a,
        None => {
            return Err(ExtractError::AttributeNotFound("coefficients".to_string()));
        },
    };
    let coefficients = copy_vec(&node.attribute[a].floats);
    if coefficients.len() == 0 {
        return Err(ExtractError::EmptyCoefficients);
    }
    let intercepts = match find_attribute(&node.attribute, "intercepts") {
        Some(b) => Some(copy_vec(&node.attribute[b].floats)),
        None => None,
    };
    let class_labels = match extract_class_labels(node) {
        Ok(l) => l,
        Err(e) => {
            return Err(e);
        },
    };
    let num_classes = class_labels.len();
    let vectors = match &intercepts {
        Some(iv) => iv.len(),
        None => num_classes,
    };
    if vectors == 0 {
        return Err(ExtractError::NoWeightVectors);
    }
    let num_features = coefficients.len() / vectors;
    Ok(LinearClassifierCoefficients { coefficients, intercepts, num_features, num_classes, class_labels })
}

/// Runs a linear classifier read from a model.
pub struct LinearClassifierProcessor<W> {
    coefficients: LinearClassifierCoefficients<W>,
}

impl<W> LinearClassifierProcessor<W> {
    /// The coefficients the processor runs.
    pub closed spec fn spec_coefficients(&self) -> &LinearClassifierCoefficients<W> {
        &self.coefficients
    }

    /// A processor for coefficients already read.
    pub fn new(coefficients: LinearClassifierCoefficients<W>) -> (r: Self)
        ensures
            *r.spec_coefficients() == coefficients,
    {
        LinearClassifierProcessor { coefficients }
    }

    /// The coefficients the processor runs.
    pub fn coefficients(&self) -> (r: &LinearClassifierCoefficients<W>)
        ensures
            r == self.spec_coefficients(),
    {
        &self.coefficients
    }

    /// The number of input features expected.
    pub fn num_features(&self) -> (r: usize)
        ensures
            r == self.spec_coefficients().num_features,
    {
        self.coefficients.num_features
    }

    /// The number of output classes.
    pub fn num_classes(&self) -> (r: usize)
        ensures
            r == self.spec_coefficients().num_classes,
    {
        self.coefficients.num_classes
    }

    /// The label of class `class_idx`, integers in decimal, or `None` past
    /// the last class.
    pub fn get_class_label(&self, class_idx: usize) -> (r: Option<String>)
        ensures
            match r {
                Some(s) => self.spec_coefficients().class_labels.label_text(class_idx as int) == Some(s@),
                None => self.spec_coefficients().class_labels.label_text(class_idx as int) is None,
            },
    {
        self.coefficients.class_labels.get_class_label(class_idx)
    }
}

} // verus!
