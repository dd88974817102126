//! The compiled brain of a creature.

use super::action_neuron::{ActionNeuron, TOTAL_ACTION_NEURON_VARIANT};
use super::bands::{banded, banded_is_banded, filter_keeps_bands, is_banded, order_connections};
use super::connection::Connection;
use super::connection_type::ConnectionType;
use super::sensory_neuron::{SensoryNeuron, TOTAL_SENSORY_NEURON_VARIANT};
use super::wiring::{is_stable, live_in, pruned, pruned_is_stable};
use crate::genome::{Gene, Genome};
use crate::sequences::filter_push;
use vstd::prelude::*;

verus! {

/// An ordered, pruned list of connections.
pub struct Brain {
    connections: Vec<Connection>,
}

impl View for Brain {
    type V = Seq<Connection>;

    /// The connections of the brain, in the order in which they fire.
    closed spec fn view(&self) -> Seq<Connection> {
        self.connections@
    }
}

/// Every gene of a genome decoded, in the order of the genome.
pub open spec fn decoded_wiring(genes: Seq<Gene>) -> Seq<Connection> {
    Seq::new(genes.len(), |i: int| Connection::decoded(genes[i]))
}

/// The wiring of the brain that a genome compiles to: every gene decoded,
/// the connections laid out in bands, and the dead ones removed.
pub open spec fn compiled(genes: Seq<Gene>) -> Seq<Connection> {
    pruned(banded(decoded_wiring(genes)))
}

/// The connection reads the sensor.
pub open spec fn reads_sensor(kind: ConnectionType, sensor: SensoryNeuron) -> bool {
    match kind {
        ConnectionType::SensoryToAction { source, .. } => source == sensor,
        ConnectionType::SensoryToInternal { source, .. } => source == sensor,
        _ => false,
    }
}

/// The connection drives the action.
pub open spec fn drives_action(kind: ConnectionType, action: ActionNeuron) -> bool {
    match kind {
        ConnectionType::SensoryToAction { sink, .. } => sink == action,
        ConnectionType::InternalToAction { sink, .. } => sink == action,
        _ => false,
    }
}

/// Some connection of the wiring reads the sensor.
pub open spec fn senses(wiring: Seq<Connection>, sensor: SensoryNeuron) -> bool {
    exists|i: int| 0 <= i < wiring.len() && reads_sensor(#[trigger] wiring[i].kind(), sensor)
}

/// Some connection of the wiring drives the action.
pub open spec fn acts(wiring: Seq<Connection>, action: ActionNeuron) -> bool {
    exists|i: int| 0 <= i < wiring.len() && drives_action(#[trigger] wiring[i].kind(), action)
}

/// The sensory catalogue, in declaration order.
pub open spec fn sensory_catalogue() -> Seq<SensoryNeuron> {
    Seq::new(
        TOTAL_SENSORY_NEURON_VARIANT as nat,
        |id: int| SensoryNeuron::spec_from_id(id).unwrap(),
    )
}

/// The action catalogue, in declaration order.
pub open spec fn action_catalogue() -> Seq<ActionNeuron> {
    Seq::new(
        TOTAL_ACTION_NEURON_VARIANT as nat,
        |id: int| ActionNeuron::spec_from_id(id).unwrap(),
    )
}

/// The sensors that the wiring reads, in catalogue order.
pub open spec fn wired_sensors(wiring: Seq<Connection>) -> Seq<SensoryNeuron> {
    sensory_catalogue().filter(|sensor: SensoryNeuron| senses(wiring, sensor))
}

/// The actions that the wiring drives, in catalogue order.
pub open spec fn wired_actions(wiring: Seq<Connection>) -> Seq<ActionNeuron> {
    action_catalogue().filter(|action: ActionNeuron| acts(wiring, action))
}

/// A compiled wiring is in band order, and every connection in it can
/// influence an action.
pub proof fn compiled_is_ordered_and_stable(genes: Seq<Gene>)
    ensures
        is_banded(compiled(genes)),
        is_stable(compiled(genes)),
{
    let ordered = banded(decoded_wiring(genes));
    banded_is_banded(decoded_wiring(genes));
    filter_keeps_bands(ordered, live_in(ordered));
    pruned_is_stable(ordered);
}

impl Brain {
    /// What holds of every brain: its connections stand in band order, and
    /// each of them can influence an action.
    #[verifier::type_invariant]
    pub open spec fn well_formed(self) -> bool {
        &&& is_banded(self@)
        &&& is_stable(self@)
    }

    pub fn connections(&self) -> (connections: &Vec<Connection>)
        ensures
            connections@ == self@,
            is_banded(connections@),
            is_stable(connections@),
    {
        proof {
            use_type_invariant(self);
        }
        &self.connections
    }

    /// Compiles a genome into a brain.
    pub fn from_genome(genome: &Genome) -> (brain: Self)
        ensures
            brain@ == compiled(genome@),
            is_banded(brain@),
            is_stable(brain@),
    {
        let genes = genome.genes();
        let mut connections: Vec<Connection> = Vec::new();
        let total = genes.len();
        let mut i: usize = 0;
        while i < total
            invariant
                total == genes@.len(),
                i <= total,
                connections@.len() == i,
                forall|j: int| 0 <= j < i ==> connections@[j] == Connection::decoded(genes@[j]),
            decreases total - i,
        {
            connections.push(Connection::from_gene(genes[i]));
            i = i + 1;
        }
        proof {
            assert(connections@ =~= decoded_wiring(genome@));
            compiled_is_ordered_and_stable(genome@);
        }
        let ordered = order_connections(&connections);
        let pruned_connections = Self::prune(ordered);
        Brain { connections: pruned_connections }
    }

    /// Notes which sensor a connection reads and which action it drives.
    fn gather_sensory_and_action_neurons(
        conn: &Connection,
        sensory_neuron_map: &mut [bool; TOTAL_SENSORY_NEURON_VARIANT],
        action_neuron_map: &mut [bool; TOTAL_ACTION_NEURON_VARIANT],
    )
        ensures
            forall|id: int|
                0 <= id < TOTAL_SENSORY_NEURON_VARIANT ==> #[trigger] final(sensory_neuron_map)[id]
                    == (old(sensory_neuron_map)[id] || reads_sensor(
                    conn.kind(),
                    SensoryNeuron::spec_from_id(id).unwrap(),
                )),
            forall|id: int|
                0 <= id < TOTAL_ACTION_NEURON_VARIANT ==> #[trigger] final(action_neuron_map)[id]
                    == (old(action_neuron_map)[id] || drives_action(
                    conn.kind(),
                    ActionNeuron::spec_from_id(id).unwrap(),
                )),
    {
        match *conn.connection_type() {
            ConnectionType::SensoryToInternal { source, .. } => {
                sensory_neuron_map[source.id()] = true;
            },
            ConnectionType::SensoryToAction { source, sink } => {
                sensory_neuron_map[source.id()] = true;
                action_neuron_map[sink.id()] = true;
            },
            ConnectionType::InternalToAction { sink, .. } => {
                action_neuron_map[sink.id()] = true;
            },
            ConnectionType::InternalToInternal { .. } => {},
        }
    }

    /// The sensory and action neurons that the brain is wired to, each once
    /// and in catalogue order. These are the neurons that hold a value during
    /// a tick; each starts a tick empty.
    pub fn neurons_empty_value_map(&self) -> (neurons: (Vec<SensoryNeuron>, Vec<ActionNeuron>))
        ensures
            neurons.0@ == wired_sensors(self@),
            neurons.1@ == wired_actions(self@),
    {
        let mut sensory_neuron_map = [false; TOTAL_SENSORY_NEURON_VARIANT];
        let mut action_neuron_map = [false; TOTAL_ACTION_NEURON_VARIANT];
        let total = self.connections.len();
        let mut i: usize = 0;
        while i < total
            invariant
                total == self.connections@.len(),
                i <= total,
                forall|id: int|
                    0 <= id < TOTAL_SENSORY_NEURON_VARIANT ==> #[trigger] sensory_neuron_map[id]
                        == senses(
                        self.connections@.subrange(0, i as int),
                        SensoryNeuron::spec_from_id(id).unwrap(),
                    ),
                forall|id: int|
                    0 <= id < TOTAL_ACTION_NEURON_VARIANT ==> #[trigger] action_neuron_map[id]
                        == acts(
                        self.connections@.subrange(0, i as int),
                        ActionNeuron::spec_from_id(id).unwrap(),
                    ),
            decreases total - i,
        {
            proof {
                let seen = self.connections@.subrange(0, i as int);
                let next = self.connections@.subrange(0, i + 1);
                let conn = self.connections@[i as int];
                assert forall|sensor: SensoryNeuron|
                    senses(next, sensor) == (senses(seen, sensor) || reads_sensor(
                        conn.kind(),
                        sensor,
                    )) by {
                    if senses(seen, sensor) {
                        let k = choose|k: int|
                            0 <= k < seen.len() && reads_sensor(#[trigger] seen[k].kind(), sensor);
                        assert(next[k] == seen[k]);
                    }
                    if reads_sensor(conn.kind(), sensor) {
                        assert(next[i as int] == conn);
                    }
                    if senses(next, sensor) {
                        let k = choose|k: int|
                            0 <= k < next.len() && reads_sensor(#[trigger] next[k].kind(), sensor);
                        if k < i {
                            assert(seen[k] == next[k]);
                        }
                    }
                }
                assert forall|action: ActionNeuron|
                    acts(next, action) == (acts(seen, action) || drives_action(
                        conn.kind(),
                        action,
                    )) by {
                    if acts(seen, action) {
                        let k = choose|k: int|
                            0 <= k < seen.len() && drives_action(#[trigger] seen[k].kind(), action);
                        assert(next[k] == seen[k]);
                    }
                    if drives_action(conn.kind(), action) {
                        assert(next[i as int] == conn);
                    }
                    if acts(next, action) {
                        let k = choose|k: int|
                            0 <= k < next.len() && drives_action(#[trigger] next[k].kind(), action);
                        if k < i {
                            assert(seen[k] == next[k]);
                        }
                    }
                }
            }
            Self::gather_sensory_and_action_neurons(
                &self.connections[i],
                &mut sensory_neuron_map,
                &mut action_neuron_map,
            );
            i = i + 1;
        }
        proof {
            assert(self.connections@.subrange(0, total as int) =~= self.connections@);
        }
        let ghost wired_sensor = |sensor: SensoryNeuron| senses(self@, sensor);
        let ghost wired_action = |action: ActionNeuron| acts(self@, action);
        let mut sensors: Vec<SensoryNeuron> = Vec::new();
        let mut id: usize = 0;
        proof {
            reveal(Seq::filter);
            assert(sensory_catalogue().subrange(0, 0) =~= Seq::<SensoryNeuron>::empty());
        }
        while id < TOTAL_SENSORY_NEURON_VARIANT
            invariant
                id <= TOTAL_SENSORY_NEURON_VARIANT,
                wired_sensor == (|sensor: SensoryNeuron| senses(self@, sensor)),
                forall|id: int|
                    0 <= id < TOTAL_SENSORY_NEURON_VARIANT ==> #[trigger] sensory_neuron_map[id]
                        == senses(self@, SensoryNeuron::spec_from_id(id).unwrap()),
                sensors@ == sensory_catalogue().subrange(0, id as int).filter(wired_sensor),
            decreases TOTAL_SENSORY_NEURON_VARIANT - id,
        {
            let sensor = SensoryNeuron::from_id(id).unwrap();
            proof {
                let seen = sensory_catalogue().subrange(0, id as int);
                filter_push(seen, sensor, wired_sensor);
                assert(seen.push(sensor) =~= sensory_catalogue().subrange(0, id + 1));
            }
            if sensory_neuron_map[id] {
                sensors.push(sensor);
            }
            id = id + 1;
        }
        let mut actions: Vec<ActionNeuron> = Vec::new();
        let mut id: usize = 0;
        proof {
            reveal(Seq::filter);
            assert(action_catalogue().subrange(0, 0) =~= Seq::<ActionNeuron>::empty());
            assert(sensory_catalogue().subrange(0, TOTAL_SENSORY_NEURON_VARIANT as int)
                =~= sensory_catalogue());
        }
        while id < TOTAL_ACTION_NEURON_VARIANT
            invariant
                id <= TOTAL_ACTION_NEURON_VARIANT,
                wired_action == (|action: ActionNeuron| acts(self@, action)),
                forall|id: int|
                    0 <= id < TOTAL_ACTION_NEURON_VARIANT ==> #[trigger] action_neuron_map[id]
                        == acts(self@, ActionNeuron::spec_from_id(id).unwrap()),
                actions@ == action_catalogue().subrange(0, id as int).filter(wired_action),
            decreases TOTAL_ACTION_NEURON_VARIANT - id,
        {
            let action = ActionNeuron::from_id(id).unwrap();
            proof {
                let seen = action_catalogue().subrange(0, id as int);
                filter_push(seen, action, wired_action);
                assert(seen.push(action) =~= action_catalogue().subrange(0, id + 1));
            }
            if action_neuron_map[id] {
                actions.push(action);
            }
            id = id + 1;
        }
        proof {
            assert(action_catalogue().subrange(0, TOTAL_ACTION_NEURON_VARIANT as int)
                =~= action_catalogue());
        }
        (sensors, actions)
    }
}

} // verus!
