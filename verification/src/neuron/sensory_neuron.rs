//! The catalogue of sensory inputs.

use vstd::prelude::*;

verus! {

/// What a creature can perceive.
#[derive(PartialEq, Eq, Hash, Debug, Clone, Copy, Structural)]
pub enum SensoryNeuron {
    Random,
    DistToBarrierNorth,
    DistToBarrierSouth,
    DistToBarrierEast,
    DistToBarrierWest,
}

/// Number of members of the sensory catalogue.
pub const TOTAL_SENSORY_NEURON_VARIANT: usize = 5;

impl SensoryNeuron {
    /// The member at position `id` of the catalogue, in declaration order.
    pub open spec fn spec_from_id(id: int) -> Option<Self> {
        if id == 0 {
            Some(SensoryNeuron::Random)
        } else if id == 1 {
            Some(SensoryNeuron::DistToBarrierNorth)
        } else if id == 2 {
            Some(SensoryNeuron::DistToBarrierSouth)
        } else if id == 3 {
            Some(SensoryNeuron::DistToBarrierEast)
        } else if id == 4 {
            Some(SensoryNeuron::DistToBarrierWest)
        } else {
            None
        }
    }

    /// Position of this member in the catalogue.
    pub open spec fn spec_id(self) -> int {
        match self {
            SensoryNeuron::Random => 0,
            SensoryNeuron::DistToBarrierNorth => 1,
            SensoryNeuron::DistToBarrierSouth => 2,
            SensoryNeuron::DistToBarrierEast => 3,
            SensoryNeuron::DistToBarrierWest => 4,
        }
    }

    pub fn from_id(id: usize) -> (neuron: Option<Self>)
        ensures
            neuron == Self::spec_from_id(id as int),
            neuron is Some <==> id < TOTAL_SENSORY_NEURON_VARIANT,
            neuron matches Some(n) ==> n.spec_id() == id,
    {
        match id {
            0 => Some(SensoryNeuron::Random),
            1 => Some(SensoryNeuron::DistToBarrierNorth),
            2 => Some(SensoryNeuron::DistToBarrierSouth),
            3 => Some(SensoryNeuron::DistToBarrierEast),
            4 => Some(SensoryNeuron::DistToBarrierWest),
            _ => None,
        }
    }

    /// Position of this member in the catalogue.
    pub fn id(&self) -> (id: usize)
        ensures
            id == self.spec_id(),
            id < TOTAL_SENSORY_NEURON_VARIANT,
            Self::spec_from_id(id as int) == Some(*self),
    {
        match self {
            SensoryNeuron::Random => 0,
            SensoryNeuron::DistToBarrierNorth => 1,
            SensoryNeuron::DistToBarrierSouth => 2,
            SensoryNeuron::DistToBarrierEast => 3,
            SensoryNeuron::DistToBarrierWest => 4,
        }
    }
}

} // verus!
