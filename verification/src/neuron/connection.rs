//! Decoding one gene into one weighted connection.

use super::action_neuron::{ActionNeuron, TOTAL_ACTION_NEURON_VARIANT};
use super::connection_type::{ConnectionType, InternalNeuronID};
use super::sensory_neuron::{SensoryNeuron, TOTAL_SENSORY_NEURON_VARIANT};
use crate::genome::Gene;
use vstd::prelude::*;

verus! {

/// Number of internal neuron slots of every brain.
pub const MAX_INTERNAL_NEURONS: usize = 4;

/// The two most significant bits of a gene: which kind of connection it encodes.
pub open spec fn gene_selector(gene: Gene) -> int {
    gene as int / 16384
}

/// The five bits below the selector: the source index before reduction.
pub open spec fn gene_source(gene: Gene) -> int {
    (gene as int / 512) % 32
}

/// The five bits below the source: the sink index before reduction.
pub open spec fn gene_sink(gene: Gene) -> int {
    (gene as int / 16) % 32
}

/// The four least significant bits, read as a weight between -8 and 7.
pub open spec fn gene_weight(gene: Gene) -> int {
    gene as int % 16 - 8
}

/// The sensory neuron that a raw five-bit index selects.
pub open spec fn sensory_endpoint(raw: int) -> SensoryNeuron {
    SensoryNeuron::spec_from_id(raw % 5).unwrap()
}

/// The action neuron that a raw five-bit index selects.
pub open spec fn action_endpoint(raw: int) -> ActionNeuron {
    ActionNeuron::spec_from_id(raw % 4).unwrap()
}

/// The internal neuron that a raw five-bit index selects.
pub open spec fn internal_endpoint(raw: int) -> InternalNeuronID {
    (raw % 4) as usize
}

/// The kind and endpoints that a gene encodes, each index reduced modulo the
/// size of the catalogue it points into.
pub open spec fn gene_connection_type(gene: Gene) -> ConnectionType {
    let source = gene_source(gene);
    let sink = gene_sink(gene);
    if gene_selector(gene) == 0 {
        ConnectionType::SensoryToAction {
            source: sensory_endpoint(source),
            sink: action_endpoint(sink),
        }
    } else if gene_selector(gene) == 1 {
        ConnectionType::SensoryToInternal {
            source: sensory_endpoint(source),
            sink: internal_endpoint(sink),
        }
    } else if gene_selector(gene) == 2 {
        ConnectionType::InternalToInternal {
            source: internal_endpoint(source),
            sink: internal_endpoint(sink),
        }
    } else {
        ConnectionType::InternalToAction {
            source: internal_endpoint(source),
            sink: action_endpoint(sink),
        }
    }
}

/// Every internal endpoint of the kind names an existing slot.
pub open spec fn endpoints_in_range(kind: ConnectionType) -> bool {
    match kind {
        ConnectionType::SensoryToAction { .. } => true,
        ConnectionType::SensoryToInternal { sink, .. } => sink < MAX_INTERNAL_NEURONS,
        ConnectionType::InternalToInternal { source, sink } => source < MAX_INTERNAL_NEURONS && sink
            < MAX_INTERNAL_NEURONS,
        ConnectionType::InternalToAction { source, .. } => source < MAX_INTERNAL_NEURONS,
    }
}

/// A typed connection with its weight.
#[derive(Debug, Clone, Copy, PartialEq, Eq)]
pub struct Connection {
    connection_type: ConnectionType,
    weight: i8,
}

impl Connection {
    /// Kind and endpoints of this connection.
    pub closed spec fn kind(self) -> ConnectionType {
        self.connection_type
    }

    /// Weight of this connection.
    pub closed spec fn strength(self) -> int {
        self.weight as int
    }

    /// What holds of every connection: its internal endpoints name existing
    /// slots, and its weight is one that four bits encode.
    #[verifier::type_invariant]
    pub open spec fn well_formed(self) -> bool {
        &&& endpoints_in_range(self.kind())
        &&& -8 <= self.strength() <= 7
    }

    /// The connection that a gene encodes.
    pub closed spec fn decoded(gene: Gene) -> Connection {
        Connection { connection_type: gene_connection_type(gene), weight: gene_weight(gene) as i8 }
    }

    /// Decodes a gene. Every gene decodes: the indices are reduced into range.
    pub fn from_gene(gene: Gene) -> (connection: Self)
        ensures
            connection == Self::decoded(gene),
            connection.kind() == gene_connection_type(gene),
            connection.strength() == gene_weight(gene),
    {
        let conn_type_id = gene >> 14;
        let source_id = ((gene >> 9) & 0b11_11_1) as usize;
        let sink_id = ((gene >> 4) & 0b11_11_1) as usize;
        let raw_weight = (gene & 0xF) as i8;
        proof {
            assert(gene >> 14 == gene / 16384) by (bit_vector);
            assert((gene >> 9) & 0b11_11_1 == (gene / 512) % 32) by (bit_vector);
            assert((gene >> 4) & 0b11_11_1 == (gene / 16) % 32) by (bit_vector);
            assert(gene & 0xF == gene % 16) by (bit_vector);
        }
        let weight: i8 = raw_weight - 8;
        let conn_type = if conn_type_id == 0 {
            ConnectionType::SensoryToAction {
                source: SensoryNeuron::from_id(source_id % TOTAL_SENSORY_NEURON_VARIANT).unwrap(),
                sink: ActionNeuron::from_id(sink_id % TOTAL_ACTION_NEURON_VARIANT).unwrap(),
            }
        } else if conn_type_id == 1 {
            ConnectionType::SensoryToInternal {
                source: SensoryNeuron::from_id(source_id % TOTAL_SENSORY_NEURON_VARIANT).unwrap(),
                sink: sink_id % MAX_INTERNAL_NEURONS,
            }
        } else if conn_type_id == 2 {
            ConnectionType::InternalToInternal {
                source: source_id % MAX_INTERNAL_NEURONS,
                sink: sink_id % MAX_INTERNAL_NEURONS,
            }
        } else {
            ConnectionType::InternalToAction {
                source: source_id % MAX_INTERNAL_NEURONS,
                sink: ActionNeuron::from_id(sink_id % TOTAL_ACTION_NEURON_VARIANT).unwrap(),
            }
        };
        Self { connection_type: conn_type, weight }
    }

    pub fn connection_type(&self) -> (kind: &ConnectionType)
        ensures
            *kind == self.kind(),
            endpoints_in_range(*kind),
    {
        proof {
            use_type_invariant(self);
        }
        &self.connection_type
    }

    pub fn weight(&self) -> (weight: i8)
        ensures
            weight == self.strength(),
            -8 <= weight <= 7,
    {
        proof {
            use_type_invariant(self);
        }
        self.weight
    }
}

/// Decoding reproduces the documented fields of a gene: the selector picks the
/// kind, each index is the raw five-bit field reduced modulo the size of the
/// catalogue it points into, and the weight is the raw four-bit field minus 8.
pub proof fn decoded_gene_fields(gene: Gene)
    ensures
        0 <= gene_selector(gene) <= 3,
        0 <= gene_source(gene) < 32,
        0 <= gene_sink(gene) < 32,
        -8 <= gene_weight(gene) <= 7,
        gene as int == gene_selector(gene) * 16384 + gene_source(gene) * 512 + gene_sink(gene) * 16
            + (gene_weight(gene) + 8),
        Connection::decoded(gene).kind() == gene_connection_type(gene),
        Connection::decoded(gene).kind().band() == gene_selector(gene),
        Connection::decoded(gene).strength() == gene_weight(gene),
        endpoints_in_range(Connection::decoded(gene).kind()),
{
}

} // verus!
