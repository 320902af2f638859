//! Sizes of the Q8_1 scratch area that activations are quantized into.

use vstd::arithmetic::div_mod::{lemma_fundamental_div_mod, lemma_mod_multiples_basic};
use vstd::arithmetic::mul::lemma_mul_inequality;
use vstd::prelude::*;

verus! {

/// Quants in one Q8_1 block.
pub const Q8_1_BLOCK_SIZE: usize = 32;

/// Bytes of one Q8_1 block: two halves and one byte for each quant.
pub const Q8_1_TYPE_SIZE: usize = 36;

/// Row length that the matrix kernels work in, in elements.
pub const MATRIX_ROW_PADDING: usize = 512;

/// `p` rounded up to a multiple of `q`.
pub open spec fn padded(p: nat, q: nat) -> nat
    recommends
        q > 0,
{
    (((p + q - 1) as nat) / q) * q
}

/// Bytes of one activation row of `k` elements, quantized and padded.
pub open spec fn row_bytes(k: nat) -> nat {
    padded(k, MATRIX_ROW_PADDING as nat) / (Q8_1_BLOCK_SIZE as nat) * (Q8_1_TYPE_SIZE as nat)
}

/// Bytes that a call with `b_size` activation rows of `k` elements puts in the scratch area.
pub open spec fn scratch_bytes(b_size: nat, k: nat) -> nat {
    b_size * row_bytes(k)
}

/// Bytes to set aside for calls with one row of up to `max_k` elements.
pub open spec fn max_scratch_bytes(max_k: nat) -> nat {
    (max_k + MATRIX_ROW_PADDING as nat) / (Q8_1_BLOCK_SIZE as nat) * (Q8_1_TYPE_SIZE as nat)
}

/// Rounds `p` up to a multiple of `q`.
pub fn pad(p: usize, q: usize) -> (r: usize)
    requires
        q > 0,
        padded(p as nat, q as nat) <= usize::MAX,
    ensures
        r == padded(p as nat, q as nat),
        r % q == 0,
        p <= r < p + q,
{
    proof {
        law_padded_is_least_multiple(p as nat, q as nat, p as nat);
    }
    let whole: usize = p / q;
    let rest: usize = p % q;
    proof {
        lemma_fundamental_div_mod(p as int, q as int);
        lemma_ceiling(p as nat, q as nat);
        assert(whole * q <= p) by (nonlinear_arith)
            requires
                p == q * whole + rest,
                rest >= 0,
        ;
    }
    if rest == 0 {
        whole * q
    } else {
        assert((whole + 1) * q == padded(p as nat, q as nat));
        (whole + 1) * q
    }
}

/// The rounded quotient is the quotient, plus one where there is a remainder.
proof fn lemma_ceiling(p: nat, q: nat)
    requires
        q > 0,
    ensures
        padded(p, q) == (if p % q == 0 {
            p / q
        } else {
            p / q + 1
        }) * q,
{
    let w = p / q;
    let s = p % q;
    lemma_fundamental_div_mod(p as int, q as int);
    let c = (p + q - 1) as nat / q;
    let d = (p + q - 1) as nat % q;
    lemma_fundamental_div_mod((p + q - 1) as int, q as int);
    if s == 0 {
        assert(c == w) by (nonlinear_arith)
            requires
                p == q * w,
                p + q - 1 == q * c + d,
                0 <= d < q,
                q > 0,
        ;
    } else {
        assert(c == w + 1) by (nonlinear_arith)
            requires
                p == q * w + s,
                0 < s < q,
                p + q - 1 == q * c + d,
                0 <= d < q,
                q > 0,
        ;
    }
}

/// Rounding up gives the least multiple of `q` that is not below `p`: it is a multiple, it is
/// less than one step above `p`, and no multiple `m` that reaches `p` lies below it.
pub proof fn law_padded_is_least_multiple(p: nat, q: nat, m: nat)
    requires
        q > 0,
    ensures
        padded(p, q) % q == 0,
        p <= padded(p, q) < p + q,
        p <= m && m % q == 0 ==> padded(p, q) <= m,
{
    lemma_ceiling(p, q);
    let w = p / q;
    let s = p % q;
    let c = (p + q - 1) as nat / q;
    lemma_fundamental_div_mod(p as int, q as int);
    lemma_mod_multiples_basic(c as int, q as int);
    assert(w * q == q * w && (w + 1) * q == q * w + q) by (nonlinear_arith);
    if p <= m && m % q == 0 {
        lemma_fundamental_div_mod(m as int, q as int);
        let n = m / q;
        assert(n * q == q * n) by (nonlinear_arith);
        if s != 0 {
            assert(n >= w + 1) by (nonlinear_arith)
                requires
                    q * w + s <= q * n,
                    0 < s,
                    q > 0,
            ;
            lemma_mul_inequality((w + 1) as int, n as int, q as int);
        }
    }
}

/// Rounding up leaves a multiple of `q` as it is.
pub proof fn law_padded_keeps_multiples(p: nat, q: nat)
    requires
        q > 0,
        p % q == 0,
    ensures
        padded(p, q) == p,
{
    law_padded_is_least_multiple(p, q, p);
}

/// A longer row is never padded to fewer elements.
pub proof fn law_padded_is_monotone(p1: nat, p2: nat, q: nat)
    requires
        q > 0,
        p1 <= p2,
    ensures
        padded(p1, q) <= padded(p2, q),
{
    law_padded_is_least_multiple(p2, q, p2);
    law_padded_is_least_multiple(p1, q, padded(p2, q));
}

/// A padded row is made of whole Q8_1 blocks, so its bytes hold every element of the padded row.
pub proof fn law_padded_row_is_whole_blocks(k: nat)
    ensures
        padded(k, MATRIX_ROW_PADDING as nat) % (Q8_1_BLOCK_SIZE as nat) == 0,
        row_bytes(k) * Q8_1_BLOCK_SIZE == padded(k, MATRIX_ROW_PADDING as nat) * Q8_1_TYPE_SIZE,
        row_bytes(k) * 32 == padded(k, 512) * 36,
{
    law_padded_is_least_multiple(k, MATRIX_ROW_PADDING as nat, k);
}

/// What is set aside for `max_k` is enough for a call with one row of any length up to `max_k`.
pub proof fn law_max_scratch_covers_single_rows(k: nat, max_k: nat)
    requires
        k <= max_k,
    ensures
        scratch_bytes(1, k) <= max_scratch_bytes(max_k),
{
    law_padded_is_least_multiple(k, MATRIX_ROW_PADDING as nat, k);
    assert(scratch_bytes(1, k) == row_bytes(k));
}

/// Neither more rows nor longer rows ever need fewer scratch bytes.
pub proof fn law_scratch_is_monotone(b1: nat, k1: nat, b2: nat, k2: nat)
    requires
        b1 <= b2,
        k1 <= k2,
    ensures
        scratch_bytes(b1, k1) <= scratch_bytes(b2, k2),
{
    law_padded_is_monotone(k1, k2, MATRIX_ROW_PADDING as nat);
    assert(b1 * row_bytes(k1) <= b2 * row_bytes(k2)) by (nonlinear_arith)
        requires
            b1 <= b2,
            row_bytes(k1) <= row_bytes(k2),
    ;
}

/// Upper bound of the scratch bytes of a single-row call whose row has up to `max_k` elements:
/// `((max_k + MATRIX_ROW_PADDING) / 32) * 36`.
pub fn max_scratch_bytes_for_k(max_k: usize) -> (r: usize)
    requires
        max_scratch_bytes(max_k as nat) <= usize::MAX,
    ensures
        r == max_scratch_bytes(max_k as nat),
        r >= scratch_bytes(1, max_k as nat),
        r == (max_k + 512) / 32 * 36,
{
    proof {
        law_max_scratch_covers_single_rows(max_k as nat, max_k as nat);
    }
    let num_blocks: usize = (max_k + MATRIX_ROW_PADDING) / Q8_1_BLOCK_SIZE;
    num_blocks * Q8_1_TYPE_SIZE
}


/// A row takes 36 bytes for every 32 elements, in steps of 512 elements: 576 bytes a step. Rows add
/// up.
pub proof fn law_scratch_is_counted_in_steps(b_size: nat, k: nat)
    ensures
        row_bytes(k) == (k + 511) / 512 * 576,
        scratch_bytes(b_size, k) == b_size * ((k + 511) / 512 * 576),
        max_scratch_bytes(k) == (k + 512) / 32 * 36,
        row_bytes(k) <= max_scratch_bytes(k) < row_bytes(k) + 612,
{
    law_padded_row_is_whole_blocks(k);
}

} // verus!
