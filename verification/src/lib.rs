//! An evolving population of grid creatures whose behaviour is compiled from
//! a genetic bitstring.

pub mod creature;
pub mod export;
pub mod genome;
pub mod neuron;
pub mod random;
pub mod renderer;
pub mod sequences;
pub mod simulation;
pub mod text;
pub mod vector2d;
