//! Class labels of a classifier and their lookup by class index.

use vstd::prelude::*;
use crate::text::{int_decimal, i64_to_string};

verus! {

/// Class labels: integers or strings, one per class.
#[derive(Debug)]
pub enum ClassLabels {
    Integers(Vec<i64>),
    Strings(Vec<String>),
}

impl ClassLabels {
    /// The number of classes.
    pub open spec fn spec_len(&self) -> nat {
        match self {
            ClassLabels::Integers(v) => v@.len(),
            ClassLabels::Strings(v) => v@.len(),
        }
    }

    /// The number of classes.
    pub fn len(&self) -> (r: usize)
        ensures
            r == self.spec_len(),
    {
        match self {
            ClassLabels::Integers(v) => v.len(),
            ClassLabels::Strings(v) => v.len(),
        }
    }

    /// True when there is no class.
    pub fn is_empty(&self) -> (r: bool)
        ensures
            r == (self.spec_len() == 0),
    {
        self.len() == 0
    }

    /// The spelling of the label of class `i`, if there is such a class:
    /// integers in decimal, strings as they are.
    pub open spec fn label_text(&self, i: int) -> Option<Seq<char>> {
        match self {
            ClassLabels::Integers(v) => if 0 <= i < v@.len() { Some(int_decimal(v@[i] as int)) } else { None },
            ClassLabels::Strings(v) => if 0 <= i < v@.len() { Some(v@[i]@) } else { None },
        }
    }

    /// The label of class `class_idx` as a string, or `None` past the last
    /// class.
    pub fn get_class_label(&self, class_idx: usize) -> (r: Option<String>)
        ensures
            match r {
                Some(s) => self.label_text(class_idx as int) == Some(s@),
                None => self.label_text(class_idx as int) is None,
            },
    {
        match self {
            ClassLabels::Integers(ints) => {
                if class_idx < ints.len() {
                    Some(i64_to_string(ints[class_idx]))
                } else {
                    None
                }
            },
            ClassLabels::Strings(strings) => {
                if class_idx < strings.len() {
                    Some(strings[class_idx].clone())
                } else {
                    None
                }
            },
        }
    }

    /// The labels of the classes picked for each sample: `argmax[k]` is the
    /// class of sample `k`; a class past the last label maps to `0` or to
    /// the empty string.
    pub fn labels_from_argmax(&self, argmax: &Vec<usize>) -> (r: ClassLabels)
        ensures
            mapped_labels(*self, argmax@, r),
    {
        match self {
            ClassLabels::Integers(v) => {
                let mut out: Vec<i64> = Vec::new();
                let mut k: usize = 0;
                while k < argmax.len()
                    invariant
                        k <= argmax@.len(),
                        out@.len() == k,
                        forall|j: int| 0 <= j < k ==> #[trigger] out@[j] == int_label_or_zero(v@, argmax@[j]),
                    decreases argmax@.len() - k,
                {
                    let i = argmax[k];
                    if i < v.len() {
                        out.push(v[i]);
                    } else {
                        out.push(0);
                    }
                    k = k + 1;
                }
                ClassLabels::Integers(out)
            },
            ClassLabels::Strings(v) => {
                let mut out: Vec<String> = Vec::new();
                let mut k: usize = 0;
                while k < argmax.len()
                    invariant
                        k <= argmax@.len(),
                        out@.len() == k,
                        forall|j: int| 0 <= j < k ==> (#[trigger] out@[j])@ == string_label_or_empty(v@, argmax@[j]),
                    decreases argmax@.len() - k,
                {
                    let i = argmax[k];
                    if i < v.len() {
                        out.push(v[i].clone());
                    } else {
                        out.push(String::new());
                    }
                    k = k + 1;
                }
                ClassLabels::Strings(out)
            },
        }
    }
}

/// The integer label of class `i`, or `0` past the last one.
pub open spec fn int_label_or_zero(v: Seq<i64>, i: usize) -> i64 {
    if i < v.len() { v[i as int] } else { 0 }
}

/// The string label of class `i`, or the empty string past the last one.
pub open spec fn string_label_or_empty(v: Seq<String>, i: usize) -> Seq<char> {
    if i < v.len() { v[i as int]@ } else { Seq::empty() }
}

/// `r` holds, for each picked class in `argmax`, its label in `labels`, of
/// the same kind as `labels`.
pub open spec fn mapped_labels(labels: ClassLabels, argmax: Seq<usize>, r: ClassLabels) -> bool {
    match (labels, r) {
        (ClassLabels::Integers(v), ClassLabels::Integers(o)) => o@.len() == argmax.len()
            && forall|k: int| 0 <= k < argmax.len() ==> #[trigger] o@[k] == int_label_or_zero(v@, argmax[k]),
        (ClassLabels::Strings(v), ClassLabels::Strings(o)) => o@.len() == argmax.len()
            && forall|k: int| 0 <= k < argmax.len() ==> (#[trigger] o@[k])@ == string_label_or_empty(v@, argmax[k]),
        _ => false,
    }
}

/// Labels read back from a class in range are the labels of that class.
pub proof fn lemma_mapped_label_in_range(labels: ClassLabels, argmax: Seq<usize>, r: ClassLabels, k: int)
    requires
        mapped_labels(labels, argmax, r),
        0 <= k < argmax.len(),
        argmax[k] < labels.spec_len(),
    ensures
        r.spec_len() == argmax.len(),
        labels.label_text(argmax[k] as int) == r.label_text(k),
{
}

/// Why no class labels could be read from a classifier's attributes.
#[derive(Clone, Copy, Debug, PartialEq, Eq, Structural)]
pub struct MissingLabels;

/// The class labels of a classifier node: the string labels when present,
/// else the integer labels; one of the two must be set.
pub fn parse_labels(strings: Option<Vec<String>>, ints: Option<Vec<i64>>) -> (r: Result<ClassLabels, MissingLabels>)
    ensures
        match (strings, ints) {
            (Some(s), _) => r matches Ok(ClassLabels::Strings(v)) && v@ == s@,
            (None, Some(i)) => r matches Ok(ClassLabels::Integers(v)) && v@ == i@,
            (None, None) => r == Err::<ClassLabels, MissingLabels>(MissingLabels),
        },
{
    match strings {
        Some(s) => Ok(ClassLabels::Strings(s)),
        None => match ints {
            Some(i) => Ok(ClassLabels::Integers(i)),
            None => Err(MissingLabels),
        },
    }
}

} // verus!
