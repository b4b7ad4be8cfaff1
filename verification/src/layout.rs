//! Coefficient layouts: row-major to feature-major transposition and the
//! zero-padded tiled packing used by the matrix-product kernels.

use vstd::prelude::*;
use vstd::arithmetic::div_mod::*;
use vstd::arithmetic::mul::*;

verus! {

/// The transpose of a row-major `rows x cols` matrix, as a row-major
/// `cols x rows` matrix: element `i` of the result is element
/// `(i % rows, i / rows)` of the input.
pub open spec fn transposed<T>(s: Seq<T>, rows: nat, cols: nat) -> Seq<T> {
    Seq::new(rows * cols, |i: int| s[(i % (rows as int)) * (cols as int) + i / (rows as int)])
}

/// `r * cols + c` addresses the matrix when `r < rows` and `c < cols`.
pub proof fn lemma_index_in_bounds(r: int, c: int, rows: int, cols: int)
    requires
        0 <= r < rows,
        0 <= c < cols,
    ensures
        0 <= r * cols + c < rows * cols,
{
    assert(r * cols + c < rows * cols) by (nonlinear_arith)
        requires 0 <= r < rows, 0 <= c < cols;
    assert(0 <= r * cols) by (nonlinear_arith)
        requires 0 <= r, 0 <= cols;
}

/// Quotient and remainder of `q * d + r` by `d` when `r < d`.
pub proof fn lemma_div_mod_of(q: int, d: int, r: int)
    requires
        0 <= q,
        0 <= r < d,
    ensures
        (q * d + r) / d == q,
        (q * d + r) % d == r,
{
    lemma_fundamental_div_mod_converse(q * d + r, d, q, r);
}

/// Pointwise statement of `transposed`: the element at row `r`, column `c`
/// of the input is found at row `c`, column `r` of the transpose.
pub proof fn lemma_transposed_at<T>(s: Seq<T>, rows: nat, cols: nat, r: int, c: int)
    requires
        0 <= r < rows,
        0 <= c < cols,
    ensures
        0 <= c * rows + r < rows * cols,
        transposed(s, rows, cols)[c * (rows as int) + r] == s[r * (cols as int) + c],
{
    lemma_index_in_bounds(c, r, cols as int, rows as int);
    lemma_mul_is_commutative(rows as int, cols as int);
    lemma_div_mod_of(c, rows as int, r);
}

/// Transposing twice gives back the original matrix.
pub proof fn lemma_transpose_involution<T>(s: Seq<T>, rows: nat, cols: nat)
    requires
        s.len() == rows * cols,
    ensures
        transposed(transposed(s, rows, cols), cols, rows) == s,
{
    let t = transposed(s, rows, cols);
    let u = transposed(t, cols, rows);
    lemma_mul_is_commutative(rows as int, cols as int);
    assert forall|i: int| 0 <= i < s.len() implies u[i] == s[i] by {
        let r = i / (cols as int);
        let c = i % (cols as int);
        lemma_fundamental_div_mod(i, cols as int);
        lemma_mod_bound(i, cols as int);
        assert(0 <= r < rows) by {
            let cc = cols as int;
            let rr = rows as int;
            assert(i == cc * r + c);
            assert(0 <= r < rr) by (nonlinear_arith)
                requires i == cc * r + c, 0 <= c < cc, 0 <= i < rr * cc;
        }
        lemma_mul_is_commutative(r, cols as int);
        // u[i] = t[(i % cols) * rows + i / cols] = t[c * rows + r] = s[r * cols + c] = s[i]
        lemma_transposed_at(s, rows, cols, r, c);
    }
    assert(u =~= s);
}

/// Transposes a row-major `rows x cols` matrix into a row-major
/// `cols x rows` matrix.
pub fn transpose<T: Copy>(src: &Vec<T>, rows: usize, cols: usize) -> (out: Vec<T>)
    requires
        src.len() == rows * cols,
    ensures
        out@ == transposed(src@, rows as nat, cols as nat),
{
    let mut out: Vec<T> = Vec::new();
    let ghost total = rows * cols;
    let mut f: usize = 0;
    while f < cols
        invariant
            src.len() == rows * cols,
            total == rows * cols,
            f <= cols,
            out.len() == f * rows,
            forall|i: int| 0 <= i < out.len() ==>
                #[trigger] out@[i] == src@[(i % (rows as int)) * (cols as int) + i / (rows as int)],
        decreases cols - f,
    {
        let mut r: usize = 0;
        while r < rows
            invariant
                src.len() == rows * cols,
                f < cols,
                r <= rows,
                out.len() == f * rows + r,
                forall|i: int| 0 <= i < out.len() ==>
                    #[trigger] out@[i] == src@[(i % (rows as int)) * (cols as int) + i / (rows as int)],
            decreases rows - r,
        {
            proof {
                lemma_index_in_bounds(r as int, f as int, rows as int, cols as int);
                lemma_div_mod_of(f as int, rows as int, r as int);
                lemma_mul_is_commutative(f as int, rows as int);
            }
            let x = src[r * cols + f];
            out.push(x);
            r = r + 1;
        }
        proof {
            lemma_mul_is_distributive_add_other_way(rows as int, f as int, 1);
        }
        f = f + 1;
    }
    proof {
        lemma_mul_is_commutative(rows as int, cols as int);
    }
    assert(out@ =~= transposed(src@, rows as nat, cols as nat));
    out
}


/// `e` rounded up to a multiple of `tile`.
pub open spec fn round_up(e: nat, tile: nat) -> nat {
    (((e + tile - 1) / (tile as int)) * tile) as nat
}

/// Properties of `round_up`: a multiple of the tile, at least `e`, and less
/// than one tile above it.
pub proof fn lemma_round_up(e: nat, tile: nat)
    requires
        tile > 0,
    ensures
        round_up(e, tile) % tile == 0,
        e <= round_up(e, tile) < e + tile,
{
    let t = tile as int;
    let q = (e + t - 1) / t;
    lemma_fundamental_div_mod(e + t - 1, t);
    lemma_mod_bound(e + t - 1, t);
    lemma_div_pos_is_pos(e + t - 1, t);
    lemma_mod_multiples_basic(q, t);
    assert(q * t == t * q) by { lemma_mul_is_commutative(q, t); }
}

/// The packed layout: `c` rows of `ep` slots; slot `j` of row `k` holds
/// element `(k, j)` of the `c x e` source when `j < e`, and `pad` otherwise.
pub open spec fn packed_rows<T>(s: Seq<T>, c: nat, e: nat, ep: nat, pad: T) -> Seq<T> {
    Seq::new(c * ep, |i: int|
        if i % (ep as int) < e { s[(i / (ep as int)) * (e as int) + i % (ep as int)] } else { pad })
}

/// Pointwise statement of `packed_rows`.
pub proof fn lemma_packed_rows_at<T>(s: Seq<T>, c: nat, e: nat, ep: nat, pad: T, k: int, j: int)
    requires
        0 <= k < c,
        0 <= j < ep,
    ensures
        0 <= k * ep + j < c * ep,
        packed_rows(s, c, e, ep, pad)[k * (ep as int) + j] == if j < e {
            s[k * (e as int) + j]
        } else {
            pad
        },
{
    lemma_index_in_bounds(k, j, c as int, ep as int);
    lemma_div_mod_of(k, ep as int, j);
}

/// Weights of a `c x e` feature-major matrix packed for the tiled product:
/// each of the `c` rows is widened to `e_padded` slots, a multiple of
/// `tile_e`, and the extra slots hold zero.
pub struct MatmulTiled<T> {
    pub c: usize,
    pub e: usize,
    pub e_padded: usize,
    pub tile_e: usize,
    pub packed: Vec<T>,
}

impl<T> MatmulTiled<T> {
    /// The packing invariant, relative to the padding value.
    pub open spec fn well_formed(&self, pad: T) -> bool {
        &&& self.tile_e > 0
        &&& self.e_padded == round_up(self.e as nat, self.tile_e as nat)
        &&& self.packed@.len() == self.c * self.e_padded
        &&& forall|k: int, j: int| 0 <= k < self.c && self.e <= j < self.e_padded ==>
                #[trigger] self.packed@[k * (self.e_padded as int) + j] == pad
    }
}

impl<T: Copy> MatmulTiled<T> {
    /// Packs the row-major `c x e` matrix `coef_t` (one row per feature) into
    /// rows of `round_up(e, tile_e)` slots, filling the padding with `pad`.
    pub fn new_from_transposed(coef_t: &Vec<T>, c: usize, e: usize, tile_e: usize, pad: T) -> (res: Self)
        requires
            tile_e > 0,
            coef_t.len() == c * e,
            e + tile_e - 1 <= usize::MAX,
            c * round_up(e as nat, tile_e as nat) <= usize::MAX,
        ensures
            res.c == c,
            res.e == e,
            res.tile_e == tile_e,
            res.e_padded == round_up(e as nat, tile_e as nat),
            res.packed@ == packed_rows(coef_t@, c as nat, e as nat, res.e_padded as nat, pad),
            res.well_formed(pad),
    {
        proof {
            lemma_round_up(e as nat, tile_e as nat);
        }
        let e_padded = (e + (tile_e - 1)) / tile_e * tile_e;
        let ghost ep = e_padded as int;
        let mut buf: Vec<T> = Vec::new();
        let mut k: usize = 0;
        while k < c
            invariant
                coef_t.len() == c * e,
                e_padded == round_up(e as nat, tile_e as nat),
                e <= e_padded,
                ep == e_padded,
                c * e_padded <= usize::MAX,
                k <= c,
                buf.len() == k * e_padded,
                forall|i: int| 0 <= i < buf.len() ==> #[trigger] buf@[i] == if i % ep < e {
                    coef_t@[(i / ep) * (e as int) + i % ep]
                } else {
                    pad
                },
            decreases c - k,
        {
            proof {
                assert(k * e_padded + e_padded <= c * e_padded) by (nonlinear_arith)
                    requires k < c;
            }
            let mut j: usize = 0;
            while j < e_padded
                invariant
                    coef_t.len() == c * e,
                    e <= e_padded,
                    ep == e_padded,
                    k < c,
                    k * e_padded + e_padded <= c * e_padded,
                    c * e_padded <= usize::MAX,
                    j <= e_padded,
                    buf.len() == k * e_padded + j,
                    forall|i: int| 0 <= i < buf.len() ==> #[trigger] buf@[i] == if i % ep < e {
                        coef_t@[(i / ep) * (e as int) + i % ep]
                    } else {
                        pad
                    },
                decreases e_padded - j,
            {
                proof {
                    lemma_div_mod_of(k as int, ep, j as int);
                    lemma_mul_is_commutative(k as int, ep);
                }
                if j < e {
                    proof {
                        lemma_index_in_bounds(k as int, j as int, c as int, e as int);
                    }
                    let x = coef_t[k * e + j];
                    buf.push(x);
                } else {
                    buf.push(pad);
                }
                j = j + 1;
            }
            proof {
                lemma_mul_is_distributive_add_other_way(e_padded as int, k as int, 1);
            }
            k = k + 1;
        }
        assert(buf@ =~= packed_rows(coef_t@, c as nat, e as nat, e_padded as nat, pad));
        let res = MatmulTiled { c, e, e_padded, tile_e, packed: buf };
        assert forall|kk: int, j: int| 0 <= kk < c && e <= j < e_padded implies
            #[trigger] res.packed@[kk * (e_padded as int) + j] == pad by {
            lemma_packed_rows_at(coef_t@, c as nat, e as nat, e_padded as nat, pad, kk, j);
        }
        res
    }
}


/// The offset of element `(r, c)` of a strided matrix whose first element
/// is at `base`.
pub open spec fn strided_offset(base: int, r: int, c: int, s0: int, s1: int) -> int {
    base + r * s0 + c * s1
}

/// Every element of a `rows x cols` strided view starting at `base`, with
/// row stride `s0` and column stride `s1` (in elements, possibly negative),
/// lies inside a buffer
/// of `len` elements, and its row and column parts fit a signed offset.
pub open spec fn strides_in_bounds(base: int, rows: nat, cols: nat, s0: int, s1: int, len: nat) -> bool {
    forall|r: int, c: int| 0 <= r < rows && 0 <= c < cols ==> {
        &&& 0 <= #[trigger] strided_offset(base, r, c, s0, s1) < len
        &&& isize::MIN <= r * s0 <= isize::MAX
        &&& isize::MIN <= c * s1 <= isize::MAX
        &&& isize::MIN <= base + r * s0 <= isize::MAX
    }
}

/// The rows of a strided view, laid out densely: element `(r, c)` of the
/// view goes to position `r * cols + c`.
pub fn gather_rows<T: Copy>(input: &Vec<T>, base: usize, rows: usize, cols: usize, s0: isize, s1: isize) -> (out: Vec<T>)
    requires
        strides_in_bounds(base as int, rows as nat, cols as nat, s0 as int, s1 as int, input@.len()),
        rows * cols <= usize::MAX,
        rows <= isize::MAX,
        cols <= isize::MAX,
        input@.len() <= isize::MAX,
    ensures
        out@.len() == rows * cols,
        forall|r: int, c: int| 0 <= r < rows && 0 <= c < cols ==>
            #[trigger] out@[r * (cols as int) + c] == input@[strided_offset(base as int, r, c, s0 as int, s1 as int)],
{
    let mut out: Vec<T> = Vec::new();
    let mut r: usize = 0;
    while r < rows
        invariant
            strides_in_bounds(base as int, rows as nat, cols as nat, s0 as int, s1 as int, input@.len()),
            rows * cols <= usize::MAX,
            rows <= isize::MAX,
            cols <= isize::MAX,
            input@.len() <= isize::MAX,
            r <= rows,
            out@.len() == r * cols,
            forall|i: int, j: int| 0 <= i < r && 0 <= j < cols ==>
                #[trigger] out@[i * (cols as int) + j] == input@[strided_offset(base as int, i, j, s0 as int, s1 as int)],
        decreases rows - r,
    {
        let mut c: usize = 0;
        while c < cols
            invariant
                strides_in_bounds(base as int, rows as nat, cols as nat, s0 as int, s1 as int, input@.len()),
                rows * cols <= usize::MAX,
                rows <= isize::MAX,
                cols <= isize::MAX,
                input@.len() <= isize::MAX,
                r < rows,
                c <= cols,
                out@.len() == r * cols + c,
                forall|i: int, j: int| 0 <= i < r && 0 <= j < cols ==>
                    #[trigger] out@[i * (cols as int) + j] == input@[strided_offset(base as int, i, j, s0 as int, s1 as int)],
                forall|j: int| 0 <= j < c ==>
                    #[trigger] out@[r * (cols as int) + j] == input@[strided_offset(base as int, r as int, j, s0 as int, s1 as int)],
            decreases cols - c,
        {
            assert(0 <= strided_offset(base as int, r as int, c as int, s0 as int, s1 as int) < input@.len());
            assert(0 <= strided_offset(base as int, 0, 0, s0 as int, s1 as int) < input@.len());
            assert(isize::MIN <= base + (r as int) * (s0 as int) <= isize::MAX);
            assert(isize::MIN <= (r as int) * (s0 as int) <= isize::MAX);
            assert(isize::MIN <= (c as int) * (s1 as int) <= isize::MAX);
            let off = (base as isize) + (r as isize) * s0 + (c as isize) * s1;
            let x = input[off as usize];
            let ghost before = out@;
            out.push(x);
            proof {
                assert forall|i: int, j: int| 0 <= i < r && 0 <= j < cols implies
                    #[trigger] out@[i * (cols as int) + j] == input@[strided_offset(base as int, i, j, s0 as int, s1 as int)] by {
                    lemma_index_in_bounds(i, j, r as int, cols as int);
                    assert(out@[i * (cols as int) + j] == before[i * (cols as int) + j]);
                }
            }
            c = c + 1;
        }
        proof {
            lemma_mul_is_distributive_add_other_way(cols as int, r as int, 1);
            assert forall|i: int, j: int| 0 <= i < r + 1 && 0 <= j < cols implies
                #[trigger] out@[i * (cols as int) + j] == input@[strided_offset(base as int, i, j, s0 as int, s1 as int)] by {
                if i == r as int {
                } else {
                    lemma_index_in_bounds(i, j, r as int, cols as int);
                }
            }
        }
        r = r + 1;
    }
    out
}

} // verus!
