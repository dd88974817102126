//! The catalogue of action outputs.

use vstd::prelude::*;

verus! {

/// What a creature can do.
#[derive(PartialEq, Eq, Hash, Debug, Clone, Copy, Structural)]
pub enum ActionNeuron {
    MoveNorth,
    MoveSouth,
    MoveEast,
    MoveWest,
}

/// Number of members of the action catalogue.
pub const TOTAL_ACTION_NEURON_VARIANT: usize = 4;

impl ActionNeuron {
    /// The member at position `id` of the catalogue, in declaration order.
    pub open spec fn spec_from_id(id: int) -> Option<Self> {
        if id == 0 {
            Some(ActionNeuron::MoveNorth)
        } else if id == 1 {
            Some(ActionNeuron::MoveSouth)
        } else if id == 2 {
            Some(ActionNeuron::MoveEast)
        } else if id == 3 {
            Some(ActionNeuron::MoveWest)
        } else {
            None
        }
    }

    /// Position of this member in the catalogue.
    pub open spec fn spec_id(self) -> int {
        match self {
            ActionNeuron::MoveNorth => 0,
            ActionNeuron::MoveSouth => 1,
            ActionNeuron::MoveEast => 2,
            ActionNeuron::MoveWest => 3,
        }
    }

    pub fn from_id(id: usize) -> (neuron: Option<Self>)
        ensures
            neuron == Self::spec_from_id(id as int),
            neuron is Some <==> id < TOTAL_ACTION_NEURON_VARIANT,
            neuron matches Some(n) ==> n.spec_id() == id,
    {
        match id {
            0 => Some(ActionNeuron::MoveNorth),
            1 => Some(ActionNeuron::MoveSouth),
            2 => Some(ActionNeuron::MoveEast),
            3 => Some(ActionNeuron::MoveWest),
            _ => None,
        }
    }

    /// Position of this member in the catalogue.
    pub fn id(&self) -> (id: usize)
        ensures
            id == self.spec_id(),
            id < TOTAL_ACTION_NEURON_VARIANT,
            Self::spec_from_id(id as int) == Some(*self),
    {
        match self {
            ActionNeuron::MoveNorth => 0,
            ActionNeuron::MoveSouth => 1,
            ActionNeuron::MoveEast => 2,
            ActionNeuron::MoveWest => 3,
        }
    }
}

} // verus!
