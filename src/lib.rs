//! A numbering puzzle on a square grid: a 1 is placed on some cell, and each
//! following number is placed by jumping from the last one, over two cells
//! along a row or column or over one cell along a diagonal, onto an empty
//! cell. The puzzle is won when every cell holds a number.
pub mod direction;
pub mod error;
pub mod model;
pub mod board;
