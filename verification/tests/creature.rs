use biosim::creature::{Creature, SensoryInput, Step};
use biosim::genome::{Genome, GenomeError};
use biosim::neuron::sensory_neuron::SensoryNeuron;
use biosim::random::CreatureRng;
use biosim::renderer::Color;
use biosim::simulation::{Signal, Simulation};
use biosim::vector2d::Vector2D;
use rand::{Rng, SeedableRng};

fn gen_simulation() -> Simulation {
    Simulation::new(100, 100, 5, [0; 32], 10)
}

/// A genome that wires every sensor straight to an action.
fn all_sensors() -> Genome {
    let mut bytes = Vec::new();
    for source in 0..5u16 {
        let gene: u16 = source << 9;
        bytes.push((gene & 0xff) as u8);
        bytes.push((gene >> 8) as u8);
    }
    Genome::from_byte_slice(&bytes)
}

fn gen_creature() -> Creature {
    Creature::new(Vector2D::new(4, 10), all_sensors(), CreatureRng::from_seed([0; 32])).unwrap()
}

fn creature_at(x: usize, y: usize) -> Creature {
    Creature::new(
        Vector2D::new(x, y),
        Genome::from_byte_slice(&[0; 20]),
        CreatureRng::from_seed([0; 32]),
    )
    .unwrap()
}

/// The number that a sensor holds for an input.
fn sensor_value(input: SensoryInput, rng: &mut CreatureRng) -> f64 {
    match input {
        SensoryInput::Random => rng.gen_range(-1.0..=1.0),
        SensoryInput::Distance { coordinate, extent, complemented: false } => {
            coordinate as f64 / extent as f64
        }
        SensoryInput::Distance { coordinate, extent, complemented: true } => {
            1.0 - (coordinate as f64 / extent as f64)
        }
    }
}

#[test]
fn test_gathering_sensory_data() {
    let mut creature = gen_creature();
    let sim = gen_simulation();

    let inputs = creature.gather_sensory_data(&sim);
    let mut sensory_data = std::collections::HashMap::new();
    for (neuron, input) in inputs {
        sensory_data.insert(neuron, sensor_value(input, creature.rng_mut()));
    }

    assert_eq!(sensory_data[&SensoryNeuron::Random], 0.6738395137652948);

    assert_eq!(sensory_data[&SensoryNeuron::DistToBarrierNorth], 0.1);
    assert_eq!(sensory_data[&SensoryNeuron::DistToBarrierSouth], 1.0 - 0.1);
    assert_eq!(sensory_data[&SensoryNeuron::DistToBarrierWest], 0.04);
    assert_eq!(sensory_data[&SensoryNeuron::DistToBarrierEast], 1.0 - 0.04);
}

#[test]
fn sensors_are_fed_with_exact_fractions() {
    let creature = gen_creature();
    let sim = Simulation::new(50, 20, 0, [0; 32], 10);
    let inputs = creature.gather_sensory_data(&sim);
    assert_eq!(
        inputs,
        vec![
            (SensoryNeuron::Random, SensoryInput::Random),
            (
                SensoryNeuron::DistToBarrierNorth,
                SensoryInput::Distance { coordinate: 10, extent: 20, complemented: false }
            ),
            (
                SensoryNeuron::DistToBarrierSouth,
                SensoryInput::Distance { coordinate: 10, extent: 20, complemented: true }
            ),
            (
                SensoryNeuron::DistToBarrierEast,
                SensoryInput::Distance { coordinate: 4, extent: 50, complemented: true }
            ),
            (
                SensoryNeuron::DistToBarrierWest,
                SensoryInput::Distance { coordinate: 4, extent: 50, complemented: false }
            ),
        ]
    );
}

#[test]
fn only_wired_sensors_are_fed() {
    // ten genes of zero: Random -> MoveNorth, ten times
    let creature = creature_at(1, 1);
    let sim = gen_simulation();
    assert_eq!(
        creature.gather_sensory_data(&sim),
        vec![(SensoryNeuron::Random, SensoryInput::Random)]
    );
}

#[test]
fn distances_on_the_field_are_between_zero_and_one() {
    let sim = Simulation::new(7, 5, 0, [0; 32], 10);
    for x in 0..7 {
        for y in 0..5 {
            let creature =
                Creature::new(Vector2D::new(x, y), all_sensors(), CreatureRng::from_seed([1; 32]))
                    .unwrap();
            let mut rng = CreatureRng::from_seed([2; 32]);
            for (neuron, input) in creature.gather_sensory_data(&sim) {
                let value = sensor_value(input, &mut rng);
                if neuron == SensoryNeuron::Random {
                    assert!(-1.0 <= value && value <= 1.0);
                } else {
                    assert!(0.0 <= value && value <= 1.0);
                    match input {
                        SensoryInput::Distance { coordinate, extent, .. } => {
                            assert!(coordinate < extent)
                        }
                        SensoryInput::Random => panic!("a distance sensor is fed with a distance"),
                    }
                }
            }
        }
    }
}

#[test]
fn creature_keeps_what_it_was_made_with() {
    let creature = Creature::new(
        Vector2D::new(3, 8),
        Genome::from_byte_slice(&[100, 34, 90, 210]),
        CreatureRng::from_seed([0; 32]),
    )
    .unwrap();
    assert_eq!(*creature.position(), Vector2D::new(3, 8));
    assert_eq!(creature.color(), Color::new(90, 34, 100));
    assert_eq!(creature.genome().genes(), &vec![0x2264, 0xd25a]);
    assert_eq!(creature.brain().connections().len(), 1);
}

#[test]
fn genome_without_a_gene_pair_makes_no_creature() {
    let made = Creature::new(
        Vector2D::new(0, 0),
        Genome::from_byte_slice(&[1, 2]),
        CreatureRng::from_seed([0; 32]),
    );
    assert_eq!(made.err(), Some(GenomeError::EmptyGenome));
}

#[test]
fn creature_generator_is_the_one_it_was_given() {
    let mut creature = creature_at(0, 0);
    let mut twin = CreatureRng::from_seed([0; 32]);
    let drawn: u64 = creature.rng_mut().gen();
    let expected: u64 = twin.gen();
    assert_eq!(drawn, expected);
}

#[test]
fn move_to_a_free_cell_is_signalled() {
    let mut sim = Simulation::new(3, 3, 0, [0; 32], 10);
    assert!(sim.spawn(creature_at(1, 1)).is_ok());
    let creature = &sim.creatures()[0];
    let at = Vector2D::new(1, 1);

    let moves = [
        (Step::Forward, Step::Stay, Vector2D::new(2, 1)),
        (Step::Backward, Step::Stay, Vector2D::new(0, 1)),
        (Step::Stay, Step::Forward, Vector2D::new(1, 2)),
        (Step::Stay, Step::Backward, Vector2D::new(1, 0)),
        (Step::Forward, Step::Forward, Vector2D::new(2, 2)),
        (Step::Backward, Step::Backward, Vector2D::new(0, 0)),
        (Step::Forward, Step::Backward, Vector2D::new(2, 0)),
        (Step::Backward, Step::Forward, Vector2D::new(0, 2)),
    ];
    for (x, y, to) in moves {
        assert_eq!(
            creature.execute_actions(Vector2D::new(x, y), &sim),
            vec![Signal::PositionChanged { old: at, new: to }]
        );
    }
}

#[test]
fn no_move_no_signal() {
    let mut sim = Simulation::new(3, 3, 0, [0; 32], 10);
    assert!(sim.spawn(creature_at(1, 1)).is_ok());
    let creature = &sim.creatures()[0];
    assert_eq!(creature.execute_actions(Vector2D::new(Step::Stay, Step::Stay), &sim), vec![]);
}

#[test]
fn move_off_the_field_is_not_signalled() {
    let mut sim = Simulation::new(2, 2, 0, [0; 32], 10);
    assert!(sim.spawn(creature_at(0, 0)).is_ok());
    assert!(sim.spawn(creature_at(1, 1)).is_ok());
    let low = &sim.creatures()[0];
    assert_eq!(low.execute_actions(Vector2D::new(Step::Backward, Step::Stay), &sim), vec![]);
    assert_eq!(low.execute_actions(Vector2D::new(Step::Stay, Step::Backward), &sim), vec![]);
    assert_eq!(low.execute_actions(Vector2D::new(Step::Backward, Step::Forward), &sim), vec![]);
    let high = &sim.creatures()[1];
    assert_eq!(high.execute_actions(Vector2D::new(Step::Forward, Step::Stay), &sim), vec![]);
    assert_eq!(high.execute_actions(Vector2D::new(Step::Stay, Step::Forward), &sim), vec![]);
}

#[test]
fn move_to_a_taken_cell_is_not_signalled() {
    let mut sim = Simulation::new(3, 1, 0, [0; 32], 10);
    assert!(sim.spawn(creature_at(0, 0)).is_ok());
    assert!(sim.spawn(creature_at(1, 0)).is_ok());
    let creature = &sim.creatures()[0];
    assert_eq!(creature.execute_actions(Vector2D::new(Step::Forward, Step::Stay), &sim), vec![]);
    let other = &sim.creatures()[1];
    assert_eq!(other.execute_actions(Vector2D::new(Step::Backward, Step::Stay), &sim), vec![]);
    assert_eq!(
        other.execute_actions(Vector2D::new(Step::Forward, Step::Stay), &sim),
        vec![Signal::PositionChanged { old: Vector2D::new(1, 0), new: Vector2D::new(2, 0) }]
    );
}
