//! The parts of an ONNX model that a linear classifier is read from, and
//! the reading of its coefficients and labels.

use vstd::prelude::*;
use crate::labels::ClassLabels;
use crate::text::str_eq;

verus! {

/// A node attribute: its name, its single integer and byte-string values,
/// and its lists of floats, integers and byte strings.
pub struct AttributeProto<W> {
    pub name: String,
    pub i: i64,
    pub s: Vec<u8>,
    pub floats: Vec<W>,
    pub ints: Vec<i64>,
    pub strings: Vec<Vec<u8>>,
}

/// A graph node: its operator and attributes.
pub struct NodeProto<W> {
    pub op_type: String,
    pub attribute: Vec<AttributeProto<W>>,
}

/// A graph: its nodes in order.
pub struct GraphProto<W> {
    pub node: Vec<NodeProto<W>>,
}

/// A model and its graph, if it has one.
pub struct ModelProto<W> {
    pub graph: Option<GraphProto<W>>,
}

/// The text of a byte string decoded as UTF-8, invalid sequences replaced.
pub uninterp spec fn lossy_utf8(bytes: Seq<u8>) -> Seq<char>;

/// `String::from_utf8_lossy(..).into_owned()`: the bytes decoded as UTF-8,
/// each invalid sequence replaced by U+FFFD; valid UTF-8 decodes exactly.
#[verifier::external_body]
pub(crate) fn utf8_lossy(bytes: &Vec<u8>) -> (r: String)
    ensures
        r@ == lossy_utf8(bytes@),
        vstd::utf8::valid_utf8(bytes@) ==> r@ == vstd::utf8::decode_utf8(bytes@),
{
    String::from_utf8_lossy(bytes).into_owned()
}

/// A copy of a vector of copyable values.
pub fn copy_vec<T: Copy>(v: &Vec<T>) -> (r: Vec<T>)
    ensures
        r@ == v@,
{
    let mut r: Vec<T> = Vec::new();
    let mut i: usize = 0;
    while i < v.len()
        invariant
            i <= v@.len(),
            r@ == v@.subrange(0, i as int),
        decreases v@.len() - i,
    {
        r.push(v[i]);
        i = i + 1;
        assert(r@ =~= v@.subrange(0, i as int));
    }
    assert(v@.subrange(0, v@.len() as int) =~= v@);
    r
}

pub open spec fn linear_classifier_op() -> Seq<char> {
    seq!['L', 'i', 'n', 'e', 'a', 'r', 'C', 'l', 'a', 's', 's', 'i', 'f', 'i', 'e', 'r']
}

pub open spec fn coefficients_name() -> Seq<char> {
    seq!['c', 'o', 'e', 'f', 'f', 'i', 'c', 'i', 'e', 'n', 't', 's']
}

pub open spec fn intercepts_name() -> Seq<char> {
    seq!['i', 'n', 't', 'e', 'r', 'c', 'e', 'p', 't', 's']
}

pub open spec fn int_labels_name() -> Seq<char> {
    seq!['c', 'l', 'a', 's', 's', 'l', 'a', 'b', 'e', 'l', 's', '_', 'i', 'n', 't', 's']
}

pub open spec fn string_labels_name() -> Seq<char> {
    seq!['c', 'l', 'a', 's', 's', 'l', 'a', 'b', 'e', 'l', 's', '_', 's', 't', 'r', 'i', 'n', 'g', 's']
}

/// `i` is the first node of operator `op`.
pub open spec fn is_first_node<W>(nodes: Seq<NodeProto<W>>, op: Seq<char>, i: int) -> bool {
    &&& 0 <= i < nodes.len()
    &&& nodes[i].op_type@ == op
    &&& forall|j: int| 0 <= j < i ==> (#[trigger] nodes[j]).op_type@ != op
}

/// The first node of operator `op`, if any.
pub open spec fn first_node<W>(nodes: Seq<NodeProto<W>>, op: Seq<char>) -> Option<int> {
    if exists|i: int| is_first_node(nodes, op, i) {
        Some(choose|i: int| is_first_node(nodes, op, i))
    } else {
        None
    }
}

/// `i` is the first attribute named `name`.
pub open spec fn is_first_attr<W>(attrs: Seq<AttributeProto<W>>, name: Seq<char>, i: int) -> bool {
    &&& 0 <= i < attrs.len()
    &&& attrs[i].name@ == name
    &&& forall|j: int| 0 <= j < i ==> (#[trigger] attrs[j]).name@ != name
}

/// The first attribute named `name`, if any.
pub open spec fn first_attr<W>(attrs: Seq<AttributeProto<W>>, name: Seq<char>) -> Option<int> {
    if exists|i: int| is_first_attr(attrs, name, i) {
        Some(choose|i: int| is_first_attr(attrs, name, i))
    } else {
        None
    }
}

proof fn lemma_first_node_unique<W>(nodes: Seq<NodeProto<W>>, op: Seq<char>, i: int)
    requires
        is_first_node(nodes, op, i),
    ensures
        first_node(nodes, op) == Some(i),
{
    let k = choose|k: int| is_first_node(nodes, op, k);
    if k < i {
        assert(nodes[k].op_type@ != op);
    } else if i < k {
        assert(nodes[i].op_type@ != op);
    }
}

proof fn lemma_first_attr_unique<W>(attrs: Seq<AttributeProto<W>>, name: Seq<char>, i: int)
    requires
        is_first_attr(attrs, name, i),
    ensures
        first_attr(attrs, name) == Some(i),
{
    let k = choose|k: int| is_first_attr(attrs, name, k);
    if k < i {
        assert(attrs[k].name@ != name);
    } else if i < k {
        assert(attrs[i].name@ != name);
    }
}

/// The position of the first node of operator `op`.
pub fn find_node<W>(nodes: &Vec<NodeProto<W>>, op: &str) -> (r: Option<usize>)
    ensures
        match r {
            Some(i) => first_node(nodes@, op@) == Some(i as int),
            None => first_node(nodes@, op@) is None,
        },
{
    let mut i: usize = 0;
    while i < nodes.len()
        invariant
            i <= nodes@.len(),
            forall|j: int| 0 <= j < i ==> (#[trigger] nodes@[j]).op_type@ != op@,
        decreases nodes@.len() - i,
    {
        if str_eq(nodes[i].op_type.as_str(), op) {
            proof {
                lemma_first_node_unique(nodes@, op@, i as int);
            }
            return Some(i);
        }
        i = i + 1;
    }
    proof {
        if exists|k: int| is_first_node(nodes@, op@, k) {
            let k = choose|k: int| is_first_node(nodes@, op@, k);
            assert(nodes@[k].op_type@ != op@);
        }
    }
    None
}

/// The position of the first attribute named `name`.
pub fn find_attribute<W>(attrs: &Vec<AttributeProto<W>>, name: &str) -> (r: Option<usize>)
    ensures
        match r {
            Some(i) => first_attr(attrs@, name@) == Some(i as int),
            None => first_attr(attrs@, name@) is None,
        },
{
    let mut i: usize = 0;
    while i < attrs.len()
        invariant
            i <= attrs@.len(),
            forall|j: int| 0 <= j < i ==> (#[trigger] attrs@[j]).name@ != name@,
        decreases attrs@.len() - i,
    {
        if str_eq(attrs[i].name.as_str(), name) {
            proof {
                lemma_first_attr_unique(attrs@, name@, i as int);
            }
            return Some(i);
        }
        i = i + 1;
    }
    proof {
        if exists|k: int| is_first_attr(attrs@, name@, k) {
            let k = choose|k: int| is_first_attr(attrs@, name@, k);
            assert(attrs@[k].name@ != name@);
        }
    }
    None
}

} // verus!
