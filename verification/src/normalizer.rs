//! The normalizer operator: how its input splits into rows.

use vstd::prelude::*;
use crate::attributes::NormKind;

verus! {

/// The product of a list of dimensions.
pub open spec fn product(s: Seq<usize>) -> nat
    decreases s.len(),
{
    if s.len() == 0 {
        1
    } else {
        product(s.drop_last()) * (s.last() as nat)
    }
}

/// The normalizer operator: scales each row (along the last axis) by the
/// inverse of its max, L1 or L2 norm.
#[derive(Clone, Copy, Debug, PartialEq, Eq, Structural)]
pub struct Normalizer {
    pub kind: NormKind,
}

/// Why an input cannot be normalized.
#[derive(Clone, Copy, Debug, PartialEq, Eq, Structural)]
pub enum NormalizerError {
    /// Scalars have no row to normalize.
    ScalarInput,
}

impl Normalizer {
    /// `(rows, row length)` of an input of the given shape: the rows run
    /// along the last axis, and there are as many as the other axes hold.
    pub fn row_layout(&self, shape: &Vec<usize>) -> (r: Result<(usize, usize), NormalizerError>)
        requires
            forall|k: int| 0 <= k < shape@.len() ==> #[trigger] product(shape@.subrange(0, k)) <= usize::MAX,
        ensures
            shape@.len() == 0 ==> r == Err::<(usize, usize), NormalizerError>(NormalizerError::ScalarInput),
            shape@.len() > 0 ==> r == Ok::<(usize, usize), NormalizerError>(
                (product(shape@.drop_last()) as usize, shape@.last())),
    {
        let rank = shape.len();
        if rank == 0 {
            return Err(NormalizerError::ScalarInput);
        }
        let c = shape[rank - 1];
        let mut outer: usize = 1;
        let mut k: usize = 0;
        assert(shape@.subrange(0, 0) =~= Seq::<usize>::empty());
        while k < rank - 1
            invariant
                rank == shape@.len(),
                rank > 0,
                k <= rank - 1,
                outer == product(shape@.subrange(0, k as int)),
                forall|j: int| 0 <= j < shape@.len() ==> #[trigger] product(shape@.subrange(0, j)) <= usize::MAX,
            decreases rank - 1 - k,
        {
            proof {
                assert(shape@.subrange(0, k as int + 1).drop_last() =~= shape@.subrange(0, k as int));
                assert(product(shape@.subrange(0, k as int + 1)) <= usize::MAX);
            }
            outer = outer * shape[k];
            k = k + 1;
        }
        assert(shape@.subrange(0, rank as int - 1) =~= shape@.drop_last());
        Ok((outer, c))
    }
}

} // verus!
