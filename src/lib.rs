//! Boltzmann sampling of objects described by a context-free combinatorial
//! grammar: the grammar model and the size-controlled random expansion.

pub mod grammar;
pub mod randgen;
