//! Display engine for a 5x5 LED dot matrix: a row-multiplexed scanner over a
//! pixel buffer, and a digit scroller that decides which glyph the matrix
//! shows and for how long.

pub mod digits;
pub mod glyph;
pub mod matrix;
pub mod scroller;
pub mod timeout;
