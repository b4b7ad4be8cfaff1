//! The linear classifier operator: coefficient dimensions, its data, and the
//! shape checks and scoring decisions of its evaluation.

use vstd::prelude::*;
use crate::attributes::{PostTransformLC, PostTransformError, parse_post_transform, spec_parse_lc, lc_parse_error};
use crate::labels::ClassLabels;
use crate::layout::{transposed, transpose};

verus! {

/// Why the coefficients of a linear model do not fit its classes or targets.
#[derive(Clone, Copy, Debug, PartialEq, Eq, Structural)]
pub enum DimError {
    /// A flat coefficient vector whose length is no multiple of the classes.
    CannotInfer { len: usize, classes: usize },
    /// Coefficients of rank other than 1 or 2.
    UnsupportedRank(usize),
    /// `rows * columns` differs from the number of coefficients.
    Inconsistent { rows: usize, columns: usize, len: usize },
    /// The first dimension of the coefficients differs from the targets.
    TargetMismatch { expected: usize, got: usize },
}

/// `(weight vectors, features)` of classifier coefficients given with their
/// shape, for `e` classes: the two dimensions of a matrix; for a flat
/// vector, one weight vector when there are two classes and else one per
/// class; other ranks are refused.
pub open spec fn shaped_dims(shape: Seq<usize>, len: nat, e: nat) -> Result<(usize, usize), DimError> {
    if shape.len() == 2 {
        if shape[0] * shape[1] == len {
            Ok((shape[0], shape[1]))
        } else {
            Err(DimError::Inconsistent { rows: shape[0], columns: shape[1], len: len as usize })
        }
    } else if shape.len() == 1 {
        if e == 2 {
            Ok((1, len as usize))
        } else if len % e == 0 {
            Ok((e as usize, (len / e) as usize))
        } else {
            Err(DimError::CannotInfer { len: len as usize, classes: e as usize })
        }
    } else {
        Err(DimError::UnsupportedRank(shape.len() as usize))
    }
}

/// The `(weight vectors, features)` layout of coefficients given with their
/// shape, for `e` classes.
pub fn dims_from_shape(shape: &Vec<usize>, len: usize, e: usize) -> (r: Result<(usize, usize), DimError>)
    requires
        shape@.len() == 2 ==> shape@[0] * shape@[1] <= usize::MAX,
        shape@.len() == 1 && e != 2 ==> e != 0,
    ensures
        r == shaped_dims(shape@, len as nat, e as nat),
        r matches Ok((rows, cols)) ==> rows * cols == len,
{
    if shape.len() == 2 {
        let rows = shape[0];
        let cols = shape[1];
        if rows * cols == len {
            Ok((rows, cols))
        } else {
            Err(DimError::Inconsistent { rows, columns: cols, len })
        }
    } else if shape.len() == 1 {
        if e == 2 {
            Ok((1, len))
        } else if len % e == 0 {
            proof {
                vstd::arithmetic::div_mod::lemma_fundamental_div_mod(len as int, e as int);
            }
            Ok((e, len / e))
        } else {
            Err(DimError::CannotInfer { len, classes: e })
        }
    } else {
        Err(DimError::UnsupportedRank(shape.len()))
    }
}

/// The number of weight vectors of flat classifier coefficients: one per
/// intercept when there are intercepts; else one for a one-vs-rest binary
/// classifier, one per class when the length allows, and none otherwise.
pub open spec fn flat_vectors(intercepts: Option<usize>, e: nat, multi_class: int, total: nat) -> Option<nat> {
    match intercepts {
        Some(n) => Some(n as nat),
        None => if e == 2 && multi_class == 0 {
            Some(1)
        } else if total % e == 0 {
            Some(e)
        } else {
            None
        },
    }
}

/// `(weight vectors, features)` of flat classifier coefficients: the
/// coefficients must split evenly between the weight vectors.
pub open spec fn flat_dims(intercepts: Option<usize>, e: nat, multi_class: int, total: nat) -> Result<(usize, usize), DimError> {
    match flat_vectors(intercepts, e, multi_class, total) {
        None => Err(DimError::CannotInfer { len: total as usize, classes: e as usize }),
        Some(v) => if v * (total / v) == total {
            Ok((v as usize, (total / v) as usize))
        } else {
            Err(DimError::Inconsistent { rows: v as usize, columns: (total / v) as usize, len: total as usize })
        },
    }
}

/// The `(weight vectors, features)` layout of flat classifier coefficients,
/// for `e` classes, `total` coefficients and an optional number of
/// intercepts.
pub fn dims_from_flat(intercepts: Option<usize>, e: usize, multi_class: i32, total: usize) -> (r: Result<(usize, usize), DimError>)
    requires
        intercepts != Some(0usize),
        intercepts is None && !(e == 2 && multi_class == 0) ==> e != 0,
    ensures
        r == flat_dims(intercepts, e as nat, multi_class as int, total as nat),
{
    let eff_e = match intercepts {
        Some(n) => n,
        None => {
            if e == 2 && multi_class == 0 {
                1
            } else if total % e == 0 {
                e
            } else {
                return Err(DimError::CannotInfer { len: total, classes: e });
            }
        },
    };
    let feat_c = total / eff_e;
    proof {
        vstd::arithmetic::div_mod::lemma_fundamental_div_mod(total as int, eff_e as int);
        vstd::arithmetic::div_mod::lemma_mod_bound(total as int, eff_e as int);
        vstd::arithmetic::mul::lemma_mul_is_commutative(eff_e as int, feat_c as int);
    }
    if eff_e * feat_c != total {
        Err(DimError::Inconsistent { rows: eff_e, columns: feat_c, len: total })
    } else {
        Ok((eff_e, feat_c))
    }
}

/// Coefficients and labels of a linear classifier, with the weights also
/// kept feature-major.
pub struct LinearClassifierData<W> {
    pub labels: ClassLabels,
    /// Row-major `eff_e x feat_c` weights.
    pub coefficients: Vec<W>,
    /// The shape the coefficients were given with.
    pub coefficient_shape: Vec<usize>,
    pub intercepts: Option<Vec<W>>,
    /// The number of weight vectors (one for a compact binary classifier).
    pub eff_e: usize,
    /// The number of features.
    pub feat_c: usize,
    /// The transpose of `coefficients`: `feat_c x eff_e`.
    pub coefficients_t: Vec<W>,
}

/// The number of intercepts, if any are given.
pub open spec fn intercept_count_of<W>(intercepts: Option<Vec<W>>) -> Option<usize> {
    match intercepts {
        Some(v) => Some(v@.len() as usize),
        None => None,
    }
}

impl<W> LinearClassifierData<W> {
    /// The weights form an `eff_e x feat_c` matrix and `coefficients_t` is
    /// its transpose.
    pub open spec fn well_formed(&self) -> bool {
        &&& self.eff_e * self.feat_c == self.coefficients@.len()
        &&& self.coefficients_t@ == transposed(self.coefficients@, self.eff_e as nat, self.feat_c as nat)
    }

    /// The number of intercepts, if any are given.
    pub open spec fn intercept_count(&self) -> Option<usize> {
        intercept_count_of(self.intercepts)
    }
}

impl<W: Copy> LinearClassifierData<W> {
    /// Classifier data from coefficients given with their shape (a matrix,
    /// or a flat vector whose layout follows from the number of classes).
    pub fn from_shaped(
        labels: ClassLabels,
        coefficients: Vec<W>,
        coefficient_shape: Vec<usize>,
        intercepts: Option<Vec<W>>,
    ) -> (r: Result<Self, DimError>)
        requires
            coefficient_shape@.len() == 2 ==> coefficient_shape@[0] * coefficient_shape@[1] <= usize::MAX,
            coefficient_shape@.len() == 1 && labels.spec_len() != 2 ==> labels.spec_len() != 0,
        ensures
            match r {
                Ok(d) => {
                    &&& shaped_dims(coefficient_shape@, coefficients@.len(), labels.spec_len()) == Ok::<(usize, usize), DimError>((d.eff_e, d.feat_c))
                    &&& d.well_formed()
                    &&& d.labels == labels
                    &&& d.coefficients@ == coefficients@
                    &&& d.coefficient_shape@ == coefficient_shape@
                    &&& d.intercepts == intercepts
                },
                Err(err) => shaped_dims(coefficient_shape@, coefficients@.len(), labels.spec_len()) == Err::<(usize, usize), DimError>(err),
            },
    {
        let e = labels.len();
        let dims = dims_from_shape(&coefficient_shape, coefficients.len(), e);
        match dims {
            Ok((eff_e, feat_c)) => {
                let coefficients_t = transpose(&coefficients, eff_e, feat_c);
                Ok(LinearClassifierData {
                    labels,
                    coefficients,
                    coefficient_shape,
                    intercepts,
                    eff_e,
                    feat_c,
                    coefficients_t,
                })
            },
            Err(err) => Err(err),
        }
    }

    /// Classifier data from flat coefficients, their layout inferred from
    /// the intercepts, the classes and `multi_class`.
    pub fn from_flat(
        labels: ClassLabels,
        coefficients: Vec<W>,
        intercepts: Option<Vec<W>>,
        multi_class: i32,
    ) -> (r: Result<Self, DimError>)
        requires
            intercepts matches Some(v) ==> v@.len() > 0,
            intercepts is None && !(labels.spec_len() == 2 && multi_class == 0) ==> labels.spec_len() != 0,
        ensures
            match r {
                Ok(d) => {
                    &&& flat_dims(intercept_count_of(intercepts), labels.spec_len(), multi_class as int, coefficients@.len())
                            == Ok::<(usize, usize), DimError>((d.eff_e, d.feat_c))
                    &&& d.well_formed()
                    &&& d.labels == labels
                    &&& d.coefficients@ == coefficients@
                    &&& d.coefficient_shape@ == seq![coefficients@.len() as usize]
                    &&& d.intercepts == intercepts
                },
                Err(err) => flat_dims(intercept_count_of(intercepts), labels.spec_len(), multi_class as int, coefficients@.len())
                    == Err::<(usize, usize), DimError>(err),
            },
    {
        let e = labels.len();
        let n: Option<usize> = match &intercepts {
            Some(v) => Some(v.len()),
            None => None,
        };
        let total = coefficients.len();
        match dims_from_flat(n, e, multi_class, total) {
            Ok((eff_e, feat_c)) => {
                let coefficients_t = transpose(&coefficients, eff_e, feat_c);
                let mut coefficient_shape: Vec<usize> = Vec::new();
                coefficient_shape.push(total);
                let d = LinearClassifierData {
                    labels,
                    coefficients,
                    coefficient_shape,
                    intercepts,
                    eff_e,
                    feat_c,
                    coefficients_t,
                };
                assert(d.coefficient_shape@ =~= seq![total]);
                Ok(d)
            },
            Err(err) => Err(err),
        }
    }
}

/// The linear classifier operator: its data, `multi_class` (0 one-vs-rest,
/// 1 multinomial) and post-transform.
pub struct LinearClassifier<W> {
    pub data: LinearClassifierData<W>,
    pub multi_class: i64,
    pub post_transform: PostTransformLC,
}

/// How intercepts are added to the scores.
#[derive(Clone, Copy, Debug, PartialEq, Eq, Structural)]
pub enum InterceptUse {
    /// Not added.
    Unused,
    /// Intercept `j` added to score `j`.
    PerScore,
    /// The single intercept added to every score.
    Broadcast,
}

/// How the class scores of a classifier are computed.
#[derive(Clone, Copy, Debug, PartialEq, Eq, Structural)]
pub enum ScoringPlan {
    /// One weight vector and two classes: `z = x . w (+ the single
    /// intercept when `bias`)`, scores `[-z, z]` without transform, else
    /// `[1 - p, p]` with `p` the logistic of `z` (of `2 z` for softmax).
    FusedBinary { bias: bool },
    /// Product with every weight vector, intercepts as given, the
    /// post-transform; with `expand_binary`, the single score `s` becomes
    /// `[-s, s]` (no transform) or `[1 - s, s]`, to which the two
    /// intercepts are then added when `binary_intercepts`.
    General { intercepts: InterceptUse, expand_binary: bool, binary_intercepts: bool },
}

/// Rows and features of an evaluation, and how its scores are computed.
#[derive(Clone, Copy, Debug, PartialEq, Eq, Structural)]
pub struct EvalPlan {
    pub rows: usize,
    pub features: usize,
    pub scoring: ScoringPlan,
}

/// Why an input cannot be evaluated.
#[derive(Clone, Copy, Debug, PartialEq, Eq, Structural)]
pub enum EvalError {
    /// Inputs must be vectors or matrices.
    Rank(usize),
    /// The input's features differ from the model's.
    FeatureMismatch { expected: usize, got: usize },
}

/// `(rows, features)` of an input of the given shape: one sample for a
/// vector, a batch for a matrix, none otherwise.
pub open spec fn input_rows(shape: Seq<usize>) -> Option<(usize, usize)> {
    if shape.len() == 1 {
        Some((1, shape[0]))
    } else if shape.len() == 2 {
        Some((shape[0], shape[1]))
    } else {
        None
    }
}

/// The `(rows, features)` an input of this shape is read as.
pub fn input_rows_of(shape: &Vec<usize>) -> (r: Result<(usize, usize), EvalError>)
    ensures
        match input_rows(shape@) {
            Some(rc) => r == Ok::<(usize, usize), EvalError>(rc),
            None => r == Err::<(usize, usize), EvalError>(EvalError::Rank(shape@.len() as usize)),
        },
{
    if shape.len() == 1 {
        Ok((1, shape[0]))
    } else if shape.len() == 2 {
        Ok((shape[0], shape[1]))
    } else {
        Err(EvalError::Rank(shape.len()))
    }
}

/// The scoring plan of a classifier with `eff_e` weight vectors, `e`
/// classes and `intercepts` intercepts (if any).
pub open spec fn spec_scoring(eff_e: usize, e: nat, intercepts: Option<usize>) -> ScoringPlan {
    let n = match intercepts { Some(n) => n as int, None => -1 };
    if eff_e == 1 && e == 2 && n != 2 {
        ScoringPlan::FusedBinary { bias: n == 1 }
    } else {
        ScoringPlan::General {
            intercepts: if n == eff_e as int {
                InterceptUse::PerScore
            } else if eff_e == 1 && n == 1 {
                InterceptUse::Broadcast
            } else {
                InterceptUse::Unused
            },
            expand_binary: eff_e == 1 && e == 2,
            binary_intercepts: eff_e == 1 && e == 2 && n == 2,
        }
    }
}

impl<W> LinearClassifier<W> {
    /// The number of classes.
    pub fn n_classes(&self) -> (r: usize)
        ensures
            r == self.data.labels.spec_len(),
    {
        self.data.labels.len()
    }

    /// The class labels.
    pub fn labels(&self) -> (r: &ClassLabels)
        ensures
            *r == self.data.labels,
    {
        &self.data.labels
    }

    /// How the scores are computed.
    pub fn scoring_plan(&self) -> (r: ScoringPlan)
        ensures
            r == spec_scoring(self.data.eff_e, self.data.labels.spec_len(), self.data.intercept_count()),
    {
        let e = self.n_classes();
        let eff_e = self.data.eff_e;
        let n: Option<usize> = match &self.data.intercepts {
            Some(v) => Some(v.len()),
            None => None,
        };
        let two = match n { Some(k) => k == 2, None => false };
        let one = match n { Some(k) => k == 1, None => false };
        let per = match n { Some(k) => k == eff_e, None => false };
        if eff_e == 1 && e == 2 && !two {
            ScoringPlan::FusedBinary { bias: one }
        } else {
            let intercepts = if per {
                InterceptUse::PerScore
            } else if eff_e == 1 && one {
                InterceptUse::Broadcast
            } else {
                InterceptUse::Unused
            };
            ScoringPlan::General {
                intercepts,
                expand_binary: eff_e == 1 && e == 2,
                binary_intercepts: eff_e == 1 && e == 2 && two,
            }
        }
    }

    /// Checks an input of the given shape against the model and decides how
    /// its scores are computed.
    pub fn eval_plan(&self, input_shape: &Vec<usize>) -> (r: Result<EvalPlan, EvalError>)
        ensures
            match input_rows(input_shape@) {
                None => r == Err::<EvalPlan, EvalError>(EvalError::Rank(input_shape@.len() as usize)),
                Some((n, c)) => if c != self.data.feat_c {
                    r == Err::<EvalPlan, EvalError>(EvalError::FeatureMismatch { expected: self.data.feat_c, got: c })
                } else {
                    r == Ok::<EvalPlan, EvalError>(EvalPlan {
                        rows: n,
                        features: c,
                        scoring: spec_scoring(self.data.eff_e, self.data.labels.spec_len(), self.data.intercept_count()),
                    })
                },
            },
    {
        let (n, c) = match input_rows_of(input_shape) {
            Ok(rc) => rc,
            Err(err) => {
                return Err(err);
            },
        };
        if c != self.data.feat_c {
            return Err(EvalError::FeatureMismatch { expected: self.data.feat_c, got: c });
        }
        Ok(EvalPlan { rows: n, features: c, scoring: self.scoring_plan() })
    }

    /// The labels of the classes picked for each sample (`0` or the empty
    /// string for a class past the last label).
    pub fn labels_from_argmax(&self, argmax: &Vec<usize>) -> (r: ClassLabels)
        ensures
            crate::labels::mapped_labels(self.data.labels, argmax@, r),
    {
        self.data.labels.labels_from_argmax(argmax)
    }

    /// The shapes of the outputs for `rows` inputs: one label per input, and
    /// one score per input and class.
    pub fn output_shapes(&self, rows: usize) -> (r: (usize, (usize, usize)))
        ensures
            r == (rows, (rows, self.data.labels.spec_len() as usize)),
    {
        (rows, (rows, self.n_classes()))
    }
}

/// Why a serialized linear classifier could not be loaded.
#[derive(Debug)]
pub enum LoadError {
    PostTransform(PostTransformError),
    Dims(DimError),
}

/// `r` is the outcome of loading a classifier from these serialized parts:
/// an unknown post-transform is refused with the error its parse gives, else
/// the coefficient layout is inferred from their shape.
pub open spec fn classifier_load_outcome<W>(
    labels: ClassLabels,
    coefficients: Seq<W>,
    coefficient_shape: Seq<usize>,
    intercepts: Option<Vec<W>>,
    multi_class: i64,
    post_transform: Seq<char>,
    r: Result<LinearClassifier<W>, LoadError>,
) -> bool {
    &&& spec_parse_lc(post_transform) is None ==> (r matches Err(LoadError::PostTransform(e))
            && lc_parse_error(post_transform, e))
    &&& spec_parse_lc(post_transform) is Some ==> match r {
        Ok(op) => {
            &&& Some(op.post_transform) == spec_parse_lc(post_transform)
            &&& op.multi_class == multi_class
            &&& shaped_dims(coefficient_shape, coefficients.len(), labels.spec_len())
                    == Ok::<(usize, usize), DimError>((op.data.eff_e, op.data.feat_c))
            &&& op.data.well_formed()
            &&& op.data.labels == labels
            &&& op.data.coefficients@ == coefficients
            &&& op.data.coefficient_shape@ == coefficient_shape
            &&& op.data.intercepts == intercepts
        },
        Err(LoadError::Dims(e)) => shaped_dims(coefficient_shape, coefficients.len(), labels.spec_len())
            == Err::<(usize, usize), DimError>(e),
        Err(LoadError::PostTransform(_)) => false,
    }
}

/// Loads a serialized linear classifier: its post-transform is parsed, then
/// the layout of its coefficients is inferred from their shape.
pub fn load<W: Copy>(
    labels: ClassLabels,
    coefficients: Vec<W>,
    coefficient_shape: Vec<usize>,
    intercepts: Option<Vec<W>>,
    multi_class: i64,
    post_transform: &str,
) -> (r: Result<LinearClassifier<W>, LoadError>)
    requires
        coefficient_shape@.len() == 2 ==> coefficient_shape@[0] * coefficient_shape@[1] <= usize::MAX,
        coefficient_shape@.len() == 1 && labels.spec_len() != 2 ==> labels.spec_len() != 0,
    ensures
        classifier_load_outcome(labels, coefficients@, coefficient_shape@, intercepts, multi_class, post_transform@, r),
{
    let post_transform = match parse_post_transform(post_transform) {
        Ok(p) => p,
        Err(e) => {
            return Err(LoadError::PostTransform(e));
        },
    };
    match LinearClassifierData::from_shaped(labels, coefficients, coefficient_shape, intercepts) {
        Ok(data) => Ok(LinearClassifier { data, multi_class, post_transform }),
        Err(e) => Err(LoadError::Dims(e)),
    }
}

/// The parts a linear classifier is serialized as.
pub struct SerializedClassifier<W> {
    pub labels: ClassLabels,
    pub coefficients: Vec<W>,
    pub coefficient_shape: Vec<usize>,
    pub intercepts: Option<Vec<W>>,
    pub multi_class: i64,
    pub post_transform: &'static str,
}

impl<W> LinearClassifier<W> {
    /// Serializes the classifier: its labels, its coefficients with their
    /// shape, its intercepts, `multi_class` and the name of its
    /// post-transform.
    pub fn dump(self) -> (r: SerializedClassifier<W>)
        ensures
            r.labels == self.data.labels,
            r.coefficients@ == self.data.coefficients@,
            r.coefficient_shape@ == self.data.coefficient_shape@,
            r.intercepts == self.data.intercepts,
            r.multi_class == self.multi_class,
            r.post_transform@ == crate::attributes::lc_name(self.post_transform),
    {
        let post_transform = crate::attributes::post_transform_name(self.post_transform);
        SerializedClassifier {
            labels: self.data.labels,
            coefficients: self.data.coefficients,
            coefficient_shape: self.data.coefficient_shape,
            intercepts: self.data.intercepts,
            multi_class: self.multi_class,
            post_transform,
        }
    }
}

/// Loading what a classifier was serialized as gives the classifier back,
/// when its coefficient shape determines the layout it has.
pub proof fn lemma_classifier_dump_load<W>(
    op: LinearClassifier<W>,
    labels: ClassLabels,
    coefficients: Seq<W>,
    coefficient_shape: Seq<usize>,
    intercepts: Option<Vec<W>>,
    multi_class: i64,
    post_transform: Seq<char>,
    r: Result<LinearClassifier<W>, LoadError>,
)
    requires
        op.data.well_formed(),
        shaped_dims(op.data.coefficient_shape@, op.data.coefficients@.len(), op.data.labels.spec_len())
            == Ok::<(usize, usize), DimError>((op.data.eff_e, op.data.feat_c)),
        labels == op.data.labels,
        coefficients == op.data.coefficients@,
        coefficient_shape == op.data.coefficient_shape@,
        intercepts == op.data.intercepts,
        multi_class == op.multi_class,
        post_transform == crate::attributes::lc_name(op.post_transform),
        classifier_load_outcome(labels, coefficients, coefficient_shape, intercepts, multi_class, post_transform, r),
    ensures
        (r matches Ok(back) && {
            &&& back.data.labels == op.data.labels
            &&& back.data.coefficients@ == op.data.coefficients@
            &&& back.data.coefficient_shape@ == op.data.coefficient_shape@
            &&& back.data.intercepts == op.data.intercepts
            &&& back.data.eff_e == op.data.eff_e
            &&& back.data.feat_c == op.data.feat_c
            &&& back.data.coefficients_t@ == op.data.coefficients_t@
            &&& back.multi_class == op.multi_class
            &&& back.post_transform == op.post_transform
        }),
{
    crate::attributes::lemma_post_transform_round_trip(op.post_transform);
}

// ---------------------------------------------------------------------------
// Laws of the coefficient layout and of scoring
// ---------------------------------------------------------------------------

/// Coefficients given as an `r x c` matrix holding all `r * c` of them are
/// read as `r` weight vectors of `c` features, whatever the number of
/// classes; a flat vector is one weight vector for two classes, else one
/// per class when the classes divide it; every accepted layout covers the
/// coefficients exactly.
pub proof fn lemma_shaped_layout(shape: Seq<usize>, len: nat, e: nat)
    requires
        len <= usize::MAX,
        e <= usize::MAX,
    ensures
        shape.len() == 2 && shape[0] * shape[1] == len ==> shaped_dims(shape, len, e)
            == Ok::<(usize, usize), DimError>((shape[0], shape[1])),
        shape.len() == 1 && e == 2 ==> shaped_dims(shape, len, e)
            == Ok::<(usize, usize), DimError>((1, len as usize)),
        shape.len() == 1 && e != 2 && e > 0 && len % e == 0
            ==> shaped_dims(shape, len, e) == Ok::<(usize, usize), DimError>((e as usize, (len / e) as usize)),
        shaped_dims(shape, len, e) matches Ok((v, f)) ==> (shape.len() == 2 || e == 2 || e > 0 ==> v * f == len),
{
    if shape.len() == 1 && e != 2 && e > 0 && len % e == 0 {
        vstd::arithmetic::div_mod::lemma_fundamental_div_mod(len as int, e as int);
        vstd::arithmetic::div_mod::lemma_div_is_ordered_by_denominator(len as int, 1, e as int);
        assert(len / e <= len);
        assert(e * (len / e) == len);
    }
}

/// With `n` intercepts, flat coefficients form `n` weight vectors, one per
/// intercept, whatever the classes and `multi_class`: `total` coefficients
/// that `n` divides split into `(n, total / n)`. Without intercepts a
/// one-vs-rest binary classifier has one weight vector of all the
/// coefficients, and otherwise there is one per class when the classes
/// divide the coefficients. Every accepted layout covers the coefficients
/// exactly.
pub proof fn lemma_flat_layout(intercepts: Option<usize>, e: nat, multi_class: int, total: nat)
    requires
        total <= usize::MAX,
        e <= usize::MAX,
    ensures
        intercepts matches Some(n) ==> (n > 0 && total % (n as nat) == 0 ==> flat_dims(intercepts, e, multi_class, total)
            == Ok::<(usize, usize), DimError>((n, (total / (n as nat)) as usize))),
        intercepts matches Some(n) ==> (n > 0 && total % (n as nat) != 0 ==> flat_dims(intercepts, e, multi_class, total) is Err),
        intercepts is None && e == 2 && multi_class == 0 ==> flat_dims(intercepts, e, multi_class, total)
            == Ok::<(usize, usize), DimError>((1, total as usize)),
        intercepts is None && !(e == 2 && multi_class == 0) && e > 0 && total % e == 0
            ==> flat_dims(intercepts, e, multi_class, total) == Ok::<(usize, usize), DimError>((e as usize, (total / e) as usize)),
        intercepts is None && !(e == 2 && multi_class == 0) && e > 0 && total % e != 0
            ==> flat_dims(intercepts, e, multi_class, total) == Err::<(usize, usize), DimError>(
                DimError::CannotInfer { len: total as usize, classes: e as usize }),
        flat_dims(intercepts, e, multi_class, total) matches Ok((v, f)) ==> v * f == total,
        flat_dims(intercepts, e, multi_class, total) matches Ok((v, f)) ==> (intercepts matches Some(n) ==> v == n),
{
    let fv = flat_vectors(intercepts, e, multi_class, total);
    if fv is Some {
        let v = fv.unwrap();
        assert(v <= usize::MAX);
        if v > 0 {
            vstd::arithmetic::div_mod::lemma_fundamental_div_mod(total as int, v as int);
            vstd::arithmetic::div_mod::lemma_div_is_ordered_by_denominator(total as int, 1, v as int);
            vstd::arithmetic::div_mod::lemma_mod_bound(total as int, v as int);
            assert(total / v <= total);
            if total % v != 0 {
                assert(v * (total / v) != total);
            } else {
                assert(v * (total / v) == total);
                let a = v as usize;
                let b = (total / v) as usize;
                assert(a as nat == v);
                assert(b as nat == total / v);
                assert(flat_dims(intercepts, e, multi_class, total) == Ok::<(usize, usize), DimError>((a, b)));
                assert(a * b == total);
                if v == 1 {
                    assert(total / v == total);
                }
            }
        } else {
            assert(v * (total / v) == 0);
            if total == 0 {
                let b = (total / v) as usize;
                assert(flat_dims(intercepts, e, multi_class, total) == Ok::<(usize, usize), DimError>((0usize, b)));
                assert(0usize * b == 0);
            }
        }
    }
}

/// The fused single-vector scoring is used only for one weight vector and
/// two classes: with any other number of weight vectors, every weight
/// vector is scored, with no binary expansion. Intercepts are added one
/// per score only when there is one per weight vector, broadcast only when
/// a single intercept meets a single weight vector, and never when there
/// are none.
pub proof fn lemma_scoring_uses_every_vector(eff_e: usize, e: nat, intercepts: Option<usize>)
    ensures
        spec_scoring(eff_e, e, intercepts) is FusedBinary ==> eff_e == 1 && e == 2 && intercepts != Some(2usize),
        eff_e != 1 ==> spec_scoring(eff_e, e, intercepts) matches ScoringPlan::General {
            expand_binary: false, binary_intercepts: false, .. },
        spec_scoring(eff_e, e, intercepts) matches ScoringPlan::FusedBinary { bias } ==> (bias <==> intercepts == Some(1usize)),
        spec_scoring(eff_e, e, intercepts) matches ScoringPlan::General { intercepts: InterceptUse::PerScore, .. }
            ==> intercepts == Some(eff_e),
        spec_scoring(eff_e, e, intercepts) matches ScoringPlan::General { intercepts: InterceptUse::Broadcast, .. }
            ==> intercepts == Some(1usize) && eff_e == 1,
        spec_scoring(eff_e, e, intercepts) matches ScoringPlan::General { binary_intercepts: true, .. }
            ==> intercepts == Some(2usize) && eff_e == 1 && e == 2,
        intercepts is None ==> (spec_scoring(eff_e, e, intercepts) matches ScoringPlan::General {
            intercepts: InterceptUse::Unused, .. } || spec_scoring(eff_e, e, intercepts) matches ScoringPlan::FusedBinary {
            bias: false }),
        eff_e != 1 && intercepts == Some(eff_e) ==> spec_scoring(eff_e, e, intercepts) matches ScoringPlan::General {
            intercepts: InterceptUse::PerScore, .. },
{
}

} // verus!
