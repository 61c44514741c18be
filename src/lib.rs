//! An abelian sandpile on a bounded grid with an absorbing edge and fixed
//! rain sources, advanced one generation at a time.

pub mod grid;
pub mod rule;
pub mod sums;
pub mod driver;
pub mod render;
pub mod laws;
