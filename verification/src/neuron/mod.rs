//! The nervous system of a creature: its wiring and how it is compiled
//! from a genome.

pub mod action_neuron;
pub mod bands;
pub mod brain;
pub mod connection;
pub mod connection_type;
pub mod sensory_neuron;
pub mod trimming;
pub mod wiring;

pub use brain::Brain;
pub use connection::Connection;
pub use connection_type::{ConnectionType, InternalNeuronID};
