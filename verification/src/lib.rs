//! A cellular-automaton engine on a toroidal (wrap-around) grid.
//!
//! Cells follow Conway-style rules extended with an "age since death"
//! counter; each full sweep over the grid also yields one color token per
//! cell, so a renderer can replay the stream as a fading image.

pub mod grid;
pub mod laws;
pub mod state;
