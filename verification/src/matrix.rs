//! Small computations on numbers and on three-by-three matrices.

use vstd::prelude::*;

verus! {

/// The product of two numbers that fits the type.
pub fn multiply(x: i16, y: i16) -> (product: i16)
    requires
        i16::MIN <= x * y <= i16::MAX,
    ensures
        product == x * y,
{
    x * y
}

/// The product of two numbers; `None` where it does not fit the type.
pub fn checked_multiply(x: i16, y: i16) -> (product: Option<i16>)
    ensures
        match product {
            Some(product) => product == x * y,
            None => !(i16::MIN <= x * y <= i16::MAX),
        },
{
    x.checked_mul(y)
}

/// Whether `transposed` holds the rows of `matrix` as its columns.
pub open spec fn is_transpose(matrix: [[i32; 3]; 3], transposed: [[i32; 3]; 3]) -> bool {
    forall|i: int, j: int|
        0 <= i < 3 && 0 <= j < 3 ==> #[trigger] transposed[j][i] == #[trigger] matrix[i][j]
}

/// The matrix with rows and columns exchanged.
pub fn transpose(matrix: [[i32; 3]; 3]) -> (transposed: [[i32; 3]; 3])
    ensures
        is_transpose(matrix, transposed),
{
    [
        [matrix[0][0], matrix[1][0], matrix[2][0]],
        [matrix[0][1], matrix[1][1], matrix[2][1]],
        [matrix[0][2], matrix[1][2], matrix[2][2]],
    ]
}

/// Exchanging rows and columns twice gives the matrix back.
pub proof fn lemma_transpose_twice(
    matrix: [[i32; 3]; 3],
    once: [[i32; 3]; 3],
    twice: [[i32; 3]; 3],
)
    requires
        is_transpose(matrix, once),
        is_transpose(once, twice),
    ensures
        forall|i: int, j: int| 0 <= i < 3 && 0 <= j < 3 ==> #[trigger] twice[i][j] == matrix[i][j],
{
    assert forall|i: int, j: int| 0 <= i < 3 && 0 <= j < 3 implies #[trigger] twice[i][j]
        == matrix[i][j] by {
        assert(twice[i][j] == once[j][i]);
        assert(once[j][i] == matrix[i][j]);
    }
}

} // verus!
