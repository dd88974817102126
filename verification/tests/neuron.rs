use biosim::genome::Genome;
use biosim::neuron::action_neuron::{ActionNeuron, TOTAL_ACTION_NEURON_VARIANT};
use biosim::neuron::bands::order_connections;
use biosim::neuron::connection::MAX_INTERNAL_NEURONS;
use biosim::neuron::sensory_neuron::{SensoryNeuron, TOTAL_SENSORY_NEURON_VARIANT};
use biosim::neuron::{Brain, Connection, ConnectionType};

const SENSORY_TO_ACTION: u16 = 0;
const SENSORY_TO_INTERNAL: u16 = 1;
const INTERNAL_TO_INTERNAL: u16 = 2;
const INTERNAL_TO_ACTION: u16 = 3;

fn gene(kind: u16, source: u16, sink: u16, raw_weight: u16) -> u16 {
    (kind << 14) | (source << 9) | (sink << 4) | raw_weight
}

fn genome_of(genes: &[u16]) -> Genome {
    let mut bytes = Vec::new();
    for gene in genes {
        bytes.push((gene & 0xff) as u8);
        bytes.push((gene >> 8) as u8);
    }
    Genome::from_byte_slice(&bytes)
}

fn wiring_of(genes: &[u16]) -> Vec<Connection> {
    genes.iter().map(|gene| Connection::from_gene(*gene)).collect()
}

#[test]
fn test_enum_from_id() {
    let variant_a = ActionNeuron::from_id(0);
    let variant_b = ActionNeuron::from_id(1);
    let variant_c = ActionNeuron::from_id(2);

    assert_eq!(variant_a, Some(ActionNeuron::MoveNorth));
    assert_eq!(variant_b, Some(ActionNeuron::MoveSouth));
    assert_eq!(variant_c, Some(ActionNeuron::MoveEast));

    let out_of_range = ActionNeuron::from_id(10);
    assert_eq!(out_of_range, None);
}

#[test]
fn catalogues_are_numbered_in_declaration_order() {
    assert_eq!(TOTAL_SENSORY_NEURON_VARIANT, 5);
    assert_eq!(TOTAL_ACTION_NEURON_VARIANT, 4);
    assert_eq!(SensoryNeuron::from_id(0), Some(SensoryNeuron::Random));
    assert_eq!(SensoryNeuron::from_id(1), Some(SensoryNeuron::DistToBarrierNorth));
    assert_eq!(SensoryNeuron::from_id(2), Some(SensoryNeuron::DistToBarrierSouth));
    assert_eq!(SensoryNeuron::from_id(3), Some(SensoryNeuron::DistToBarrierEast));
    assert_eq!(SensoryNeuron::from_id(4), Some(SensoryNeuron::DistToBarrierWest));
    assert_eq!(SensoryNeuron::from_id(5), None);
    assert_eq!(ActionNeuron::from_id(3), Some(ActionNeuron::MoveWest));
    assert_eq!(ActionNeuron::from_id(4), None);
    for id in 0..TOTAL_SENSORY_NEURON_VARIANT {
        assert_eq!(SensoryNeuron::from_id(id).unwrap().id(), id);
    }
    for id in 0..TOTAL_ACTION_NEURON_VARIANT {
        assert_eq!(ActionNeuron::from_id(id).unwrap().id(), id);
    }
}

#[test]
fn test_connection_type_partial_ord() {
    let conn1 = ConnectionType::SensoryToAction {
        source: SensoryNeuron::DistToBarrierEast,
        sink: ActionNeuron::MoveEast,
    };

    let conn2 = ConnectionType::SensoryToInternal {
        source: SensoryNeuron::DistToBarrierEast,
        sink: 10,
    };

    let conn3 = ConnectionType::InternalToInternal { source: 2, sink: 4 };

    let conn4 = ConnectionType::InternalToAction { source: 9, sink: ActionNeuron::MoveEast };

    assert!(conn1 < conn2);
    assert!(conn2 < conn3);
    assert!(conn3 < conn4);
}

#[test]
fn kinds_of_one_band_compare_equal_whatever_their_endpoints() {
    let a = ConnectionType::InternalToInternal { source: 0, sink: 1 };
    let b = ConnectionType::InternalToInternal { source: 3, sink: 2 };
    assert_eq!(a.partial_cmp(&b), Some(std::cmp::Ordering::Equal));
    assert!(a != b);
    let c = ConnectionType::SensoryToAction {
        source: SensoryNeuron::Random,
        sink: ActionNeuron::MoveWest,
    };
    assert_eq!(b.partial_cmp(&c), Some(std::cmp::Ordering::Greater));
    assert_eq!(c.partial_cmp(&b), Some(std::cmp::Ordering::Less));
    assert_eq!(c.kind_id(), 0);
    assert_eq!(b.kind_id(), 2);
}

#[test]
fn gene_fields_are_read_from_the_top() {
    // 11 00110 01011 1111: internal 6 % 4 = 2 to action 11 % 4 = 3, weight 15 - 8
    let connection = Connection::from_gene(0b11_00110_01011_1111);
    assert_eq!(
        *connection.connection_type(),
        ConnectionType::InternalToAction { source: 2, sink: ActionNeuron::MoveWest }
    );
    assert_eq!(connection.weight(), 7);

    // 00 00111 00110 0000: sensor 7 % 5 = 2 to action 6 % 4 = 2, weight 0 - 8
    let connection = Connection::from_gene(0b00_00111_00110_0000);
    assert_eq!(
        *connection.connection_type(),
        ConnectionType::SensoryToAction {
            source: SensoryNeuron::DistToBarrierSouth,
            sink: ActionNeuron::MoveEast
        }
    );
    assert_eq!(connection.weight(), -8);

    // 01 11111 11111 1000: sensor 31 % 5 = 1 to internal 31 % 4 = 3, weight 0
    let connection = Connection::from_gene(0b01_11111_11111_1000);
    assert_eq!(
        *connection.connection_type(),
        ConnectionType::SensoryToInternal { source: SensoryNeuron::DistToBarrierNorth, sink: 3 }
    );
    assert_eq!(connection.weight(), 0);

    // 10 00101 00010 1001: internal 5 % 4 = 1 to internal 2, weight 1
    let connection = Connection::from_gene(0b10_00101_00010_1001);
    assert_eq!(
        *connection.connection_type(),
        ConnectionType::InternalToInternal { source: 1, sink: 2 }
    );
    assert_eq!(connection.weight(), 1);
}

#[test]
fn every_gene_decodes_to_its_documented_fields() {
    for gene in 0..=u16::MAX {
        let connection = Connection::from_gene(gene);
        let source = ((gene >> 9) & 31) as usize;
        let sink = ((gene >> 4) & 31) as usize;
        let expected = match gene >> 14 {
            0 => ConnectionType::SensoryToAction {
                source: SensoryNeuron::from_id(source % 5).unwrap(),
                sink: ActionNeuron::from_id(sink % 4).unwrap(),
            },
            1 => ConnectionType::SensoryToInternal {
                source: SensoryNeuron::from_id(source % 5).unwrap(),
                sink: sink % MAX_INTERNAL_NEURONS,
            },
            2 => ConnectionType::InternalToInternal {
                source: source % MAX_INTERNAL_NEURONS,
                sink: sink % MAX_INTERNAL_NEURONS,
            },
            _ => ConnectionType::InternalToAction {
                source: source % MAX_INTERNAL_NEURONS,
                sink: ActionNeuron::from_id(sink % 4).unwrap(),
            },
        };
        assert_eq!(*connection.connection_type(), expected);
        assert_eq!(connection.connection_type().kind_id() as u16, gene >> 14);
        assert_eq!(connection.weight() as i32, (gene & 15) as i32 - 8);
    }
}

#[test]
fn brain_from_genome() {
    let genes = [
        gene(INTERNAL_TO_ACTION, 1, 0, 9),   // internal 1 -> MoveNorth, stays
        gene(INTERNAL_TO_INTERNAL, 2, 3, 8), // internal 2 is not fed: goes
        gene(SENSORY_TO_INTERNAL, 0, 0, 10), // Random -> internal 0, stays
        gene(INTERNAL_TO_ACTION, 2, 2, 1),   // internal 2 is not fed: goes
        gene(INTERNAL_TO_INTERNAL, 1, 1, 3), // internal 1 to itself, stays with the rest
        gene(SENSORY_TO_ACTION, 4, 3, 15),   // stays whatever happens
        gene(SENSORY_TO_INTERNAL, 2, 3, 0),  // internal 3 is not read: goes
        gene(INTERNAL_TO_INTERNAL, 0, 1, 12), // internal 0 -> internal 1, stays
    ];
    let brain = Brain::from_genome(&genome_of(&genes));
    let expected = wiring_of(&[genes[5], genes[2], genes[4], genes[7], genes[0]]);
    assert_eq!(brain.connections(), &expected);
}

#[test]
fn connections_fire_in_band_order() {
    let genes = [
        gene(INTERNAL_TO_ACTION, 0, 1, 1),
        gene(INTERNAL_TO_INTERNAL, 0, 1, 2),
        gene(SENSORY_TO_INTERNAL, 1, 0, 3),
        gene(SENSORY_TO_ACTION, 2, 2, 4),
        gene(INTERNAL_TO_ACTION, 1, 3, 5),
        gene(SENSORY_TO_INTERNAL, 3, 1, 6),
        gene(SENSORY_TO_ACTION, 0, 0, 7),
        gene(INTERNAL_TO_INTERNAL, 1, 0, 8),
    ];
    let brain = Brain::from_genome(&genome_of(&genes));
    let expected = wiring_of(&[
        genes[3], genes[6], genes[2], genes[5], genes[1], genes[7], genes[0], genes[4],
    ]);
    assert_eq!(brain.connections(), &expected);
    let bands: Vec<u8> =
        brain.connections().iter().map(|c| c.connection_type().kind_id()).collect();
    assert_eq!(bands, vec![0, 0, 1, 1, 2, 2, 3, 3]);
}

#[test]
fn dead_ends_are_removed_one_after_the_other() {
    // a chain that reaches no action: removing its end kills the link before it
    let chain = wiring_of(&[
        gene(SENSORY_TO_INTERNAL, 0, 0, 8),
        gene(INTERNAL_TO_INTERNAL, 0, 1, 8),
        gene(INTERNAL_TO_INTERNAL, 1, 2, 8),
        gene(INTERNAL_TO_INTERNAL, 2, 3, 8),
    ]);
    assert_eq!(Brain::prune(chain), vec![]);

    // a chain that no sensor feeds
    let chain = wiring_of(&[
        gene(INTERNAL_TO_INTERNAL, 0, 1, 8),
        gene(INTERNAL_TO_INTERNAL, 1, 2, 8),
        gene(INTERNAL_TO_ACTION, 2, 0, 8),
    ]);
    assert_eq!(Brain::prune(chain), vec![]);

    // the same chains joined: everything stays
    let joined = wiring_of(&[
        gene(SENSORY_TO_INTERNAL, 0, 0, 8),
        gene(INTERNAL_TO_INTERNAL, 0, 1, 8),
        gene(INTERNAL_TO_INTERNAL, 1, 2, 8),
        gene(INTERNAL_TO_ACTION, 2, 0, 8),
    ]);
    assert_eq!(Brain::prune(joined.clone()), joined);
}

#[test]
fn loop_to_itself_keeps_no_neuron_alive() {
    // the loop is the only output of internal 0
    let wiring = wiring_of(&[
        gene(SENSORY_TO_INTERNAL, 0, 0, 8),
        gene(INTERNAL_TO_INTERNAL, 0, 0, 8),
    ]);
    assert_eq!(Brain::prune(wiring), vec![]);

    // the loop is the only input of internal 0
    let wiring = wiring_of(&[
        gene(INTERNAL_TO_INTERNAL, 0, 0, 8),
        gene(INTERNAL_TO_ACTION, 0, 1, 8),
    ]);
    assert_eq!(Brain::prune(wiring), vec![]);

    // with an input and an output of its own the neuron keeps its loop
    let wiring = wiring_of(&[
        gene(SENSORY_TO_INTERNAL, 0, 0, 8),
        gene(INTERNAL_TO_INTERNAL, 0, 0, 8),
        gene(INTERNAL_TO_ACTION, 0, 1, 8),
    ]);
    assert_eq!(Brain::prune(wiring.clone()), wiring);
}

#[test]
fn neurons_that_feed_each_other_support_each_other() {
    let wiring = wiring_of(&[
        gene(INTERNAL_TO_INTERNAL, 0, 1, 8),
        gene(INTERNAL_TO_INTERNAL, 1, 0, 8),
    ]);
    assert_eq!(Brain::prune(wiring.clone()), wiring);
}

#[test]
fn sensor_wired_to_an_action_always_stays() {
    let wiring = wiring_of(&[
        gene(SENSORY_TO_ACTION, 0, 0, 0),
        gene(SENSORY_TO_INTERNAL, 1, 2, 0),
        gene(SENSORY_TO_ACTION, 3, 1, 0),
    ]);
    let expected = wiring_of(&[gene(SENSORY_TO_ACTION, 0, 0, 0), gene(SENSORY_TO_ACTION, 3, 1, 0)]);
    assert_eq!(Brain::prune(wiring), expected);
}

#[test]
fn pruning_again_changes_nothing() {
    let genes = [
        gene(SENSORY_TO_ACTION, 1, 1, 3),
        gene(SENSORY_TO_INTERNAL, 0, 0, 10),
        gene(SENSORY_TO_INTERNAL, 2, 3, 0),
        gene(INTERNAL_TO_INTERNAL, 2, 3, 8),
        gene(INTERNAL_TO_INTERNAL, 0, 1, 12),
        gene(INTERNAL_TO_INTERNAL, 3, 2, 12),
        gene(INTERNAL_TO_INTERNAL, 1, 1, 3),
        gene(INTERNAL_TO_ACTION, 1, 0, 9),
        gene(INTERNAL_TO_ACTION, 2, 2, 1),
    ];
    let once = Brain::prune(wiring_of(&genes));
    let twice = Brain::prune(once.clone());
    assert_eq!(once, twice);
    // internal 2 and 3 feed each other, a sensor feeds 3 and 2 drives an action
    assert_eq!(once, wiring_of(&genes));

    for seed in 0..200u16 {
        let genes: Vec<u16> = (0..12u16)
            .map(|i| seed.wrapping_mul(2654).wrapping_add(i.wrapping_mul(40503)) ^ (i << 11))
            .collect();
        let brain = Brain::from_genome(&genome_of(&genes));
        let again = Brain::prune(brain.connections().clone());
        assert_eq!(&again, brain.connections());
    }
}

#[test]
fn duplicate_genes_give_duplicate_connections() {
    let genes = [gene(SENSORY_TO_ACTION, 0, 0, 8), gene(SENSORY_TO_ACTION, 0, 0, 8)];
    let brain = Brain::from_genome(&genome_of(&genes));
    assert_eq!(brain.connections().len(), 2);
}

#[test]
fn brain_lists_the_neurons_it_is_wired_to() {
    let genes = [
        gene(SENSORY_TO_ACTION, 4, 3, 15),   // DistToBarrierWest -> MoveWest
        gene(SENSORY_TO_INTERNAL, 0, 0, 10), // Random -> internal 0
        gene(INTERNAL_TO_ACTION, 0, 1, 9),   // internal 0 -> MoveSouth
        gene(SENSORY_TO_INTERNAL, 2, 3, 0),  // goes: internal 3 is not read
        gene(SENSORY_TO_ACTION, 4, 1, 1),    // DistToBarrierWest -> MoveSouth
    ];
    let brain = Brain::from_genome(&genome_of(&genes));
    let (sensors, actions) = brain.neurons_empty_value_map();
    assert_eq!(sensors, vec![SensoryNeuron::Random, SensoryNeuron::DistToBarrierWest]);
    assert_eq!(actions, vec![ActionNeuron::MoveSouth, ActionNeuron::MoveWest]);
}

#[test]
fn empty_genome_compiles_to_an_empty_brain() {
    let brain = Brain::from_genome(&genome_of(&[]));
    assert!(brain.connections().is_empty());
    let (sensors, actions) = brain.neurons_empty_value_map();
    assert!(sensors.is_empty());
    assert!(actions.is_empty());
}

/// Whether a connection of the wiring feeds, and whether one drains, the
/// internal neuron. A connection from a neuron to itself does neither.
fn fed_and_drained(wiring: &[Connection], node: usize) -> (bool, bool) {
    let mut fed = false;
    let mut drained = false;
    for connection in wiring {
        match *connection.connection_type() {
            ConnectionType::SensoryToInternal { sink, .. } => fed |= sink == node,
            ConnectionType::InternalToAction { source, .. } => drained |= source == node,
            ConnectionType::InternalToInternal { source, sink } if source != sink => {
                fed |= sink == node;
                drained |= source == node;
            }
            _ => {}
        }
    }
    (fed, drained)
}

/// Removes useless connections round after round, every round judging by
/// what the round before left.
fn pruned_by_rounds(mut wiring: Vec<Connection>) -> Vec<Connection> {
    loop {
        let rest: Vec<Connection> = wiring
            .iter()
            .filter(|connection| match *connection.connection_type() {
                ConnectionType::SensoryToAction { .. } => true,
                ConnectionType::SensoryToInternal { sink, .. } => fed_and_drained(&wiring, sink).1,
                ConnectionType::InternalToAction { source, .. } => {
                    fed_and_drained(&wiring, source).0
                }
                ConnectionType::InternalToInternal { source, sink } => {
                    fed_and_drained(&wiring, source).0 && fed_and_drained(&wiring, sink).1
                }
            })
            .copied()
            .collect();
        if rest.len() == wiring.len() {
            return wiring;
        }
        wiring = rest;
    }
}

fn scrambled_genes(seed: u16, count: u16) -> Vec<u16> {
    let mut state = seed.wrapping_mul(25173).wrapping_add(13849);
    (0..count)
        .map(|_| {
            state = state.wrapping_mul(25173).wrapping_add(13849);
            // favour the kinds with internal endpoints: only those can be dead
            if state % 5 == 0 {
                state
            } else if state >> 14 == 0 {
                state | 0x8000
            } else {
                state
            }
        })
        .collect()
}

#[test]
fn pruning_is_removal_in_rounds() {
    for seed in 0..2000u16 {
        for count in [1u16, 2, 3, 5, 8, 13] {
            let wiring = wiring_of(&scrambled_genes(seed, count));
            assert_eq!(Brain::prune(wiring.clone()), pruned_by_rounds(wiring));
        }
    }
}

#[test]
fn brain_is_the_ordered_wiring_pruned() {
    for seed in 0..500u16 {
        let genes = scrambled_genes(seed, 16);
        let brain = Brain::from_genome(&genome_of(&genes));
        let ordered = order_connections(&wiring_of(&genes));
        let mut by_band = wiring_of(&genes);
        by_band.sort_by_key(|connection| connection.connection_type().kind_id());
        assert_eq!(ordered, by_band);
        assert_eq!(brain.connections(), &pruned_by_rounds(ordered));
    }
}
