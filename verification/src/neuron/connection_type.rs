//! The four kinds of connection and the order in which they fire.

use super::action_neuron::ActionNeuron;
use super::sensory_neuron::SensoryNeuron;
use core::cmp::Ordering;
use vstd::prelude::*;
use vstd::std_specs::cmp::PartialOrdSpecImpl;

verus! {

/// Index of an internal neuron.
pub type InternalNeuronID = usize;

/// Which class of node a connection reads from and which it writes to.
#[derive(PartialEq, Eq, Debug, Clone, Copy, Structural)]
#[allow(inconsistent_fields)]
pub enum ConnectionType {
    SensoryToAction { source: SensoryNeuron, sink: ActionNeuron },
    SensoryToInternal { source: SensoryNeuron, sink: InternalNeuronID },
    InternalToInternal { source: InternalNeuronID, sink: InternalNeuronID },
    InternalToAction { source: InternalNeuronID, sink: ActionNeuron },
}

impl ConnectionType {
    /// Position of the band this kind fires in: sensory-to-action first, then
    /// sensory-to-internal, internal-to-internal, and internal-to-action last.
    pub open spec fn band(self) -> int {
        match self {
            ConnectionType::SensoryToAction { .. } => 0,
            ConnectionType::SensoryToInternal { .. } => 1,
            ConnectionType::InternalToInternal { .. } => 2,
            ConnectionType::InternalToAction { .. } => 3,
        }
    }

    /// How two kinds compare: by band alone, whatever their endpoints.
    pub open spec fn band_order(self, other: Self) -> Ordering {
        if self.band() < other.band() {
            Ordering::Less
        } else if self.band() == other.band() {
            Ordering::Equal
        } else {
            Ordering::Greater
        }
    }

    /// Kind selector of this variant, as a gene encodes it.
    pub fn kind_id(&self) -> (id: u8)
        ensures
            id == self.band(),
    {
        match self {
            ConnectionType::SensoryToAction { .. } => 0,
            ConnectionType::SensoryToInternal { .. } => 1,
            ConnectionType::InternalToInternal { .. } => 2,
            ConnectionType::InternalToAction { .. } => 3,
        }
    }
}

impl PartialOrd for ConnectionType {
    fn partial_cmp(&self, other: &Self) -> (order: Option<Ordering>) {
        match (self, other) {
            (
                ConnectionType::SensoryToAction { .. },
                ConnectionType::SensoryToAction { .. },
            ) => Some(Ordering::Equal),
            (ConnectionType::SensoryToAction { .. }, _) => Some(Ordering::Less),
            (
                ConnectionType::SensoryToInternal { .. },
                ConnectionType::SensoryToAction { .. },
            ) => Some(Ordering::Greater),
            (
                ConnectionType::SensoryToInternal { .. },
                ConnectionType::SensoryToInternal { .. },
            ) => Some(Ordering::Equal),
            (ConnectionType::SensoryToInternal { .. }, _) => Some(Ordering::Less),
            (
                ConnectionType::InternalToInternal { .. },
                ConnectionType::InternalToAction { .. },
            ) => Some(Ordering::Less),
            (
                ConnectionType::InternalToInternal { .. },
                ConnectionType::InternalToInternal { .. },
            ) => Some(Ordering::Equal),
            (ConnectionType::InternalToInternal { .. }, _) => Some(Ordering::Greater),
            (
                ConnectionType::InternalToAction { .. },
                ConnectionType::InternalToAction { .. },
            ) => Some(Ordering::Equal),
            (ConnectionType::InternalToAction { .. }, _) => Some(Ordering::Greater),
        }
    }
}

impl PartialOrdSpecImpl for ConnectionType {
    open spec fn obeys_partial_cmp_spec() -> bool {
        true
    }

    open spec fn partial_cmp_spec(&self, other: &Self) -> Option<Ordering> {
        Some(self.band_order(*other))
    }
}

} // verus!
