//! A small, dimension-generic linear-algebra library: fixed-size vectors and
//! matrices, points, and lines, over exact integer scalars.
//!
//! Dimensions are part of each type (`Vector<N>`, `Matrix<M, N>`), so values of
//! mismatched size can never be combined: the mismatch is rejected when the
//! program is built, not at run time. Every operation carries a contract that
//! pins its result down exactly, and the algebraic laws of the operations
//! (commutativity of the dot product, antisymmetry of the cross product,
//! identity and associativity of matrix multiplication) are proved.

pub mod display;
pub mod line;
pub mod matrix;
pub mod point;
pub mod sums;
pub mod vector;
