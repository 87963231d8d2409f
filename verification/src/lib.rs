//! A small dense linear solver: square systems `A * x = b`, given as an
//! augmented `n x (n + 1)` matrix, reduced by Gaussian elimination without
//! pivoting, with an exact element-wise residual on success.

pub mod error;
pub mod matrix;
pub mod rational;
