//! Index arithmetic shared by the row-by-row image builders.

use vstd::prelude::*;

verus! {

/// Entries of earlier rows lie before the start of row `row`, and row
/// `row + 1` starts one stride after row `row`.
pub proof fn lemma_row_prefix(y: int, j: int, row: int, stride: int)
    requires
        0 <= y < row,
        0 <= j < stride,
    ensures
        0 <= y * stride + j < row * stride,
{
    assert((y + 1) * stride <= row * stride) by (nonlinear_arith)
        requires
            y + 1 <= row,
            stride >= 0,
    ;
    assert((y + 1) * stride == y * stride + stride) by (nonlinear_arith);
    assert(0 <= y * stride) by (nonlinear_arith)
        requires
            y >= 0,
            stride >= 0,
    ;
}

/// The start of the next row.
pub proof fn lemma_next_row(row: int, stride: int)
    ensures
        (row + 1) * stride == row * stride + stride,
{
    assert((row + 1) * stride == row * stride + stride) by (nonlinear_arith);
}

/// A row that starts before the last row ends within the image.
pub proof fn lemma_row_fits(row: int, height: int, stride: int)
    requires
        0 <= row < height,
        stride >= 0,
    ensures
        0 <= row * stride,
        row * stride + stride <= height * stride,
        row * stride <= (height - 1) * stride,
{
    assert(row * stride + stride <= height * stride) by (nonlinear_arith)
        requires
            row + 1 <= height,
            stride >= 0,
    ;
    assert(row * stride <= (height - 1) * stride) by (nonlinear_arith)
        requires
            row <= height - 1,
            stride >= 0,
    ;
    assert(0 <= row * stride) by (nonlinear_arith)
        requires
            row >= 0,
            stride >= 0,
    ;
}

} // verus!
