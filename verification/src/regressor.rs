//! The linear regressor operator: coefficient dimensions, its data, and the
//! shape checks and intercept handling of its evaluation.

use vstd::prelude::*;
use crate::attributes::{PostTransformLR, parse_post_transform_lr, spec_parse_lr};
use crate::classifier::{DimError, EvalError, InterceptUse, input_rows, input_rows_of};
use crate::layout::{transposed, transpose};

verus! {

/// `(targets, features)` of regressor coefficients given with their shape:
/// the two dimensions of a matrix, or `targets` rows of a flat vector; the
/// rows must be the targets and cover every coefficient.
pub open spec fn regressor_dims(shape: Seq<usize>, len: nat, targets: usize) -> Result<(usize, usize), DimError> {
    let rows_cols: Option<(usize, usize)> = if shape.len() == 2 {
        Some((shape[0], shape[1]))
    } else if shape.len() == 1 {
        Some((targets, (len / (if targets == 0 { 1 } else { targets as nat })) as usize))
    } else {
        None
    };
    match rows_cols {
        None => Err(DimError::UnsupportedRank(shape.len() as usize)),
        Some((t, f)) => if t != targets {
            Err(DimError::TargetMismatch { expected: targets, got: t })
        } else if t * f != len {
            Err(DimError::Inconsistent { rows: t, columns: f, len: len as usize })
        } else {
            Ok((t, f))
        },
    }
}

/// Coefficients and intercepts of a linear regressor, with the weights also
/// kept feature-major.
pub struct LinearRegressorData<W> {
    /// Row-major `targets x feat_c` weights.
    pub coefficients: Vec<W>,
    /// The shape the coefficients were given with.
    pub coefficient_shape: Vec<usize>,
    /// One intercept per target, or one for all.
    pub intercepts: Option<Vec<W>>,
    pub targets: usize,
    pub feat_c: usize,
    /// The transpose of `coefficients`: `feat_c x targets`.
    pub coefficients_t: Vec<W>,
}

impl<W> LinearRegressorData<W> {
    /// The weights form a `targets x feat_c` matrix and `coefficients_t` is
    /// its transpose.
    pub open spec fn well_formed(&self) -> bool {
        &&& self.targets * self.feat_c == self.coefficients@.len()
        &&& self.coefficients_t@ == transposed(self.coefficients@, self.targets as nat, self.feat_c as nat)
    }
}

impl<W: Copy> LinearRegressorData<W> {
    /// Regressor data for `targets` targets from coefficients given with
    /// their shape.
    pub fn new(
        coefficients: Vec<W>,
        coefficient_shape: Vec<usize>,
        intercepts: Option<Vec<W>>,
        targets: usize,
    ) -> (r: Result<Self, DimError>)
        requires
            coefficient_shape@.len() == 2 ==> coefficient_shape@[0] * coefficient_shape@[1] <= usize::MAX,
        ensures
            match r {
                Ok(d) => {
                    &&& regressor_dims(coefficient_shape@, coefficients@.len(), targets) == Ok::<(usize, usize), DimError>((d.targets, d.feat_c))
                    &&& d.well_formed()
                    &&& d.coefficients@ == coefficients@
                    &&& d.coefficient_shape@ == coefficient_shape@
                    &&& d.intercepts == intercepts
                },
                Err(err) => regressor_dims(coefficient_shape@, coefficients@.len(), targets) == Err::<(usize, usize), DimError>(err),
            },
    {
        let len = coefficients.len();
        let (t, feat_c) = if coefficient_shape.len() == 2 {
            (coefficient_shape[0], coefficient_shape[1])
        } else if coefficient_shape.len() == 1 {
            let divisor = if targets == 0 { 1 } else { targets };
            (targets, len / divisor)
        } else {
            return Err(DimError::UnsupportedRank(coefficient_shape.len()));
        };
        if t != targets {
            return Err(DimError::TargetMismatch { expected: targets, got: t });
        }
        proof {
            if coefficient_shape@.len() == 1 {
                let d = if targets == 0 { 1int } else { targets as int };
                vstd::arithmetic::div_mod::lemma_fundamental_div_mod(len as int, d);
                vstd::arithmetic::div_mod::lemma_mod_bound(len as int, d);
                if targets == 0 {
                    assert(t * feat_c == 0);
                } else {
                    vstd::arithmetic::mul::lemma_mul_is_commutative(t as int, feat_c as int);
                }
            }
        }
        if t * feat_c != len {
            return Err(DimError::Inconsistent { rows: t, columns: feat_c, len });
        }
        let coefficients_t = transpose(&coefficients, t, feat_c);
        Ok(LinearRegressorData { coefficients, coefficient_shape, intercepts, targets, feat_c, coefficients_t })
    }
}

/// The linear regressor operator.
pub struct LinearRegressorOp<W> {
    pub data: LinearRegressorData<W>,
    pub post_transform: PostTransformLR,
}

/// Rows and features of a regressor evaluation, and how its intercepts are
/// added to the `rows x targets` outputs.
#[derive(Clone, Copy, Debug, PartialEq, Eq, Structural)]
pub struct RegressorPlan {
    pub rows: usize,
    pub features: usize,
    pub intercepts: InterceptUse,
}

/// How `intercepts` intercepts enter the outputs of `targets` targets: one
/// per target, one for all, or none when their number fits neither.
pub open spec fn regressor_intercepts(intercepts: Option<usize>, targets: usize) -> InterceptUse {
    match intercepts {
        Some(n) => if n == targets {
            InterceptUse::PerScore
        } else if n == 1 {
            InterceptUse::Broadcast
        } else {
            InterceptUse::Unused
        },
        None => InterceptUse::Unused,
    }
}

impl<W> LinearRegressorOp<W> {
    /// The number of intercepts, if any are given.
    pub open spec fn intercept_count(&self) -> Option<usize> {
        match self.data.intercepts {
            Some(v) => Some(v@.len() as usize),
            None => None,
        }
    }

    /// Checks an input of the given shape against the model and decides how
    /// its intercepts are added.
    pub fn eval_plan(&self, input_shape: &Vec<usize>) -> (r: Result<RegressorPlan, EvalError>)
        ensures
            match input_rows(input_shape@) {
                None => r == Err::<RegressorPlan, EvalError>(EvalError::Rank(input_shape@.len() as usize)),
                Some((n, c)) => if c != self.data.feat_c {
                    r == Err::<RegressorPlan, EvalError>(EvalError::FeatureMismatch { expected: self.data.feat_c, got: c })
                } else {
                    r == Ok::<RegressorPlan, EvalError>(RegressorPlan {
                        rows: n,
                        features: c,
                        intercepts: regressor_intercepts(self.intercept_count(), self.data.targets),
                    })
                },
            },
    {
        let (n, c) = match input_rows_of(input_shape) {
            Ok(rc) => rc,
            Err(err) => {
                return Err(err);
            },
        };
        if c != self.data.feat_c {
            return Err(EvalError::FeatureMismatch { expected: self.data.feat_c, got: c });
        }
        let intercepts = match &self.data.intercepts {
            Some(b) => {
                if b.len() == self.data.targets {
                    InterceptUse::PerScore
                } else if b.len() == 1 {
                    InterceptUse::Broadcast
                } else {
                    InterceptUse::Unused
                }
            },
            None => InterceptUse::Unused,
        };
        Ok(RegressorPlan { rows: n, features: c, intercepts })
    }

    /// The shape of the outputs for `rows` inputs: one value per target.
    pub fn output_shape(&self, rows: usize) -> (r: (usize, usize))
        ensures
            r == (rows, self.data.targets),
    {
        (rows, self.data.targets)
    }
}


/// Why a serialized linear regressor could not be loaded.
#[derive(Debug)]
pub enum LoadError {
    /// An unknown post-transform.
    PostTransform(String),
    /// A negative number of targets, or one too large.
    TargetsOutOfRange(i64),
    Dims(DimError),
}

/// `r` is the outcome of loading a regressor from these serialized parts:
/// an unknown post-transform or a number of targets out of range is
/// refused, else the coefficients are checked against the targets.
pub open spec fn regressor_load_outcome<W>(
    coefficients: Seq<W>,
    coefficient_shape: Seq<usize>,
    intercepts: Option<Vec<W>>,
    targets: i64,
    post_transform: Seq<char>,
    r: Result<LinearRegressorOp<W>, LoadError>,
) -> bool {
    &&& spec_parse_lr(post_transform) is None ==> (r matches Err(LoadError::PostTransform(s)) && s@ == post_transform)
    &&& spec_parse_lr(post_transform) is Some && !(0 <= targets <= usize::MAX)
            ==> (r matches Err(LoadError::TargetsOutOfRange(t)) && t == targets)
    &&& spec_parse_lr(post_transform) is Some && 0 <= targets <= usize::MAX ==> match r {
        Ok(op) => {
            &&& Some(op.post_transform) == spec_parse_lr(post_transform)
            &&& regressor_dims(coefficient_shape, coefficients.len(), targets as usize)
                    == Ok::<(usize, usize), DimError>((op.data.targets, op.data.feat_c))
            &&& op.data.well_formed()
            &&& op.data.coefficients@ == coefficients
            &&& op.data.coefficient_shape@ == coefficient_shape
            &&& op.data.intercepts == intercepts
        },
        Err(LoadError::Dims(e)) => regressor_dims(coefficient_shape, coefficients.len(), targets as usize)
            == Err::<(usize, usize), DimError>(e),
        Err(_) => false,
    }
}

/// Loads a serialized linear regressor: its post-transform is parsed, its
/// number of targets converted, then the layout of its coefficients checked.
pub fn load<W: Copy>(
    coefficients: Vec<W>,
    coefficient_shape: Vec<usize>,
    intercepts: Option<Vec<W>>,
    targets: i64,
    post_transform: &str,
) -> (r: Result<LinearRegressorOp<W>, LoadError>)
    requires
        coefficient_shape@.len() == 2 ==> coefficient_shape@[0] * coefficient_shape@[1] <= usize::MAX,
    ensures
        regressor_load_outcome(coefficients@, coefficient_shape@, intercepts, targets, post_transform@, r),
{
    let post_transform = match parse_post_transform_lr(post_transform) {
        Ok(p) => p,
        Err(s) => {
            return Err(LoadError::PostTransform(s));
        },
    };
    if targets < 0 || (targets as u64) > (usize::MAX as u64) {
        return Err(LoadError::TargetsOutOfRange(targets));
    }
    let t = targets as usize;
    match LinearRegressorData::new(coefficients, coefficient_shape, intercepts, t) {
        Ok(data) => Ok(LinearRegressorOp { data, post_transform }),
        Err(e) => Err(LoadError::Dims(e)),
    }
}


/// The parts a linear regressor is serialized as.
pub struct SerializedRegressor<W> {
    pub coefficients: Vec<W>,
    pub coefficient_shape: Vec<usize>,
    pub intercepts: Option<Vec<W>>,
    pub targets: i64,
    pub post_transform: &'static str,
}

impl<W> LinearRegressorOp<W> {
    /// Serializes the regressor: its coefficients with their shape, its
    /// intercepts, its number of targets (as a signed integer) and the name
    /// of its post-transform.
    pub fn dump(self) -> (r: SerializedRegressor<W>)
        ensures
            r.coefficients@ == self.data.coefficients@,
            r.coefficient_shape@ == self.data.coefficient_shape@,
            r.intercepts == self.data.intercepts,
            r.targets == self.data.targets as i64,
            r.post_transform@ == crate::attributes::lr_name(self.post_transform),
    {
        let post_transform = crate::attributes::post_transform_lr_name(self.post_transform);
        SerializedRegressor {
            coefficients: self.data.coefficients,
            coefficient_shape: self.data.coefficient_shape,
            intercepts: self.data.intercepts,
            targets: #[verifier::truncate] (self.data.targets as i64),
            post_transform,
        }
    }
}

/// Loading what a regressor was serialized as gives the regressor back,
/// when its shape determines its layout and its number of targets is a
/// signed 64-bit integer.
pub proof fn lemma_regressor_dump_load<W>(
    op: LinearRegressorOp<W>,
    coefficients: Seq<W>,
    coefficient_shape: Seq<usize>,
    targets: i64,
    post_transform: Seq<char>,
    r: Result<LinearRegressorOp<W>, LoadError>,
)
    requires
        op.data.well_formed(),
        regressor_dims(op.data.coefficient_shape@, op.data.coefficients@.len(), op.data.targets)
            == Ok::<(usize, usize), DimError>((op.data.targets, op.data.feat_c)),
        op.data.targets <= i64::MAX,
        coefficients == op.data.coefficients@,
        coefficient_shape == op.data.coefficient_shape@,
        targets == op.data.targets as i64,
        post_transform == crate::attributes::lr_name(op.post_transform),
        regressor_load_outcome(coefficients, coefficient_shape, op.data.intercepts, targets, post_transform, r),
    ensures
        (r matches Ok(back) && {
            &&& back.data.coefficients@ == op.data.coefficients@
            &&& back.data.coefficient_shape@ == op.data.coefficient_shape@
            &&& back.data.intercepts == op.data.intercepts
            &&& back.data.targets == op.data.targets
            &&& back.data.feat_c == op.data.feat_c
            &&& back.data.coefficients_t@ == op.data.coefficients_t@
            &&& back.post_transform == op.post_transform
        }),
{
    crate::attributes::lemma_post_transform_lr_round_trip(op.post_transform);
}

/// Regressor coefficients are read as one row per target: flat
/// coefficients whose length `t > 0` targets divide form `t` rows of
/// `len / t` features, and an `r x c` matrix holding all `r * c`
/// coefficients is accepted exactly when `r` is the number of targets.
/// Every accepted layout has one row per target and covers the
/// coefficients exactly.
pub proof fn lemma_regressor_layout(shape: Seq<usize>, len: nat, targets: usize)
    requires
        len <= usize::MAX,
    ensures
        shape.len() == 1 && targets > 0 && len % (targets as nat) == 0
            ==> regressor_dims(shape, len, targets) == Ok::<(usize, usize), DimError>((targets, (len / (targets as nat)) as usize)),
        shape.len() == 2 && shape[0] * shape[1] == len && shape[0] == targets
            ==> regressor_dims(shape, len, targets) == Ok::<(usize, usize), DimError>((shape[0], shape[1])),
        shape.len() == 2 && shape[0] != targets ==> regressor_dims(shape, len, targets)
            == Err::<(usize, usize), DimError>(DimError::TargetMismatch { expected: targets, got: shape[0] }),
        regressor_dims(shape, len, targets) matches Ok((t, f)) ==> t == targets && t * f == len,
{
    if shape.len() == 1 && targets > 0 {
        vstd::arithmetic::div_mod::lemma_fundamental_div_mod(len as int, targets as int);
        vstd::arithmetic::div_mod::lemma_div_is_ordered_by_denominator(len as int, 1, targets as int);
        assert(len / (targets as nat) <= len);
    }
}

/// A regressor adds intercepts only when it has them: without intercepts
/// none is added; one per target is added exactly when there is one per
/// target, and a shared one only from a single intercept.
pub proof fn lemma_regressor_intercepts(intercepts: Option<usize>, targets: usize)
    ensures
        intercepts is None ==> regressor_intercepts(intercepts, targets) == InterceptUse::Unused,
        intercepts == Some(targets) ==> regressor_intercepts(intercepts, targets) == InterceptUse::PerScore,
        regressor_intercepts(intercepts, targets) == InterceptUse::PerScore ==> intercepts == Some(targets),
        regressor_intercepts(intercepts, targets) == InterceptUse::Broadcast
            ==> intercepts == Some(1usize) && targets != 1,
{
}

} // verus!
