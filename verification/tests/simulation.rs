use biosim::creature::{Creature, Step};
use biosim::genome::{Genome, GenomeError};
use biosim::random::CreatureRng;
use biosim::simulation::Simulation;
use biosim::vector2d::Vector2D;
use rand::{Rng, SeedableRng};

fn creature_at(x: usize, y: usize) -> Creature {
    Creature::new(
        Vector2D::new(x, y),
        Genome::from_byte_slice(&[0; 10]),
        CreatureRng::from_seed([7; 32]),
    )
    .unwrap()
}

fn positions(sim: &Simulation) -> Vec<Vector2D<usize>> {
    sim.creatures().iter().map(|creature| *creature.position()).collect()
}

fn occupied_cells(sim: &Simulation) -> Vec<Vector2D<usize>> {
    let mut cells = Vec::new();
    for x in 0..sim.field_width() {
        for y in 0..sim.field_height() {
            if sim.is_position_occupied(&Vector2D::new(x, y)) == Some(true) {
                cells.push(Vector2D::new(x, y));
            }
        }
    }
    cells
}

fn stay() -> Vector2D<Step> {
    Vector2D::new(Step::Stay, Step::Stay)
}

fn east() -> Vector2D<Step> {
    Vector2D::new(Step::Forward, Step::Stay)
}

fn west() -> Vector2D<Step> {
    Vector2D::new(Step::Backward, Step::Stay)
}

fn south() -> Vector2D<Step> {
    Vector2D::new(Step::Stay, Step::Forward)
}

#[test]
fn simulation_get_field_width() {
    let sim = Simulation::new(100, 100, 20, [0; 32], 4);
    assert_eq!(sim.field_width(), 100);
}

#[test]
fn simulation_get_field_height() {
    let sim = Simulation::new(100, 100, 20, [0; 32], 4);
    assert_eq!(sim.field_height(), 100);
}

#[test]
fn see_position_occupancy() {
    let creature = Creature::new(
        Vector2D::new(100, 100),
        Genome::from_byte_slice(&[0; 10]),
        CreatureRng::from_entropy(),
    )
    .unwrap();

    let mut sim = Simulation::new(200, 200, 1, [0; 32], 4);
    assert!(sim.spawn(creature).is_ok());

    println!("{:?}", sim.creatures()[0].position());

    assert_eq!(sim.is_position_occupied(&Vector2D::new(100, 100)), Some(true));
    assert_eq!(sim.is_position_occupied(&Vector2D::new(10, 10)), Some(false));
}

#[test]
fn cell_off_the_field_is_neither_free_nor_taken() {
    let sim = Simulation::new(4, 3, 0, [0; 32], 4);
    assert_eq!(sim.is_position_occupied(&Vector2D::new(3, 2)), Some(false));
    assert_eq!(sim.is_position_occupied(&Vector2D::new(4, 2)), None);
    assert_eq!(sim.is_position_occupied(&Vector2D::new(3, 3)), None);
    assert_eq!(sim.is_position_occupied(&Vector2D::new(usize::MAX, 0)), None);
}

#[test]
fn new_world_is_empty() {
    let sim = Simulation::new(6, 4, 3, [0; 32], 8);
    assert_eq!(sim.field_width(), 6);
    assert_eq!(sim.field_height(), 4);
    assert!(sim.creatures().is_empty());
    assert!(occupied_cells(&sim).is_empty());
}

#[test]
fn spawn_refuses_taken_cells_and_cells_off_the_field() {
    let mut sim = Simulation::new(2, 2, 0, [0; 32], 4);
    assert!(sim.spawn(creature_at(1, 0)).is_ok());
    let refused = sim.spawn(creature_at(1, 0));
    assert_eq!(refused.err().map(|creature| *creature.position()), Some(Vector2D::new(1, 0)));
    let refused = sim.spawn(creature_at(2, 0));
    assert_eq!(refused.err().map(|creature| *creature.position()), Some(Vector2D::new(2, 0)));
    assert_eq!(positions(&sim), vec![Vector2D::new(1, 0)]);
    assert_eq!(occupied_cells(&sim), vec![Vector2D::new(1, 0)]);
}

#[test]
fn init_puts_every_creature_on_a_cell_of_its_own() {
    let mut sim = Simulation::new(5, 4, 20, [3; 32], 6);
    assert_eq!(sim.init(), Ok(()));
    assert_eq!(sim.creatures().len(), 20);

    let mut cells = positions(&sim);
    for cell in &cells {
        assert!(cell.x < 5 && cell.y < 4);
    }
    cells.sort_by_key(|cell| (cell.x, cell.y));
    assert_eq!(cells, occupied_cells(&sim));
    cells.dedup();
    assert_eq!(cells.len(), 20);
}

#[test]
fn init_draws_the_genes_of_every_creature() {
    let mut sim = Simulation::new(50, 50, 30, [0; 32], 8);
    assert_eq!(sim.init(), Ok(()));
    assert_eq!(sim.creatures().len(), 30);
    for creature in sim.creatures() {
        assert_eq!(creature.genome().genes().len(), 8);
        assert!(creature.genome().genes().iter().any(|gene| *gene != 0));
    }
    let first = sim.creatures()[0].genome().genes();
    assert!(sim.creatures().iter().any(|creature| creature.genome().genes() != first));
}

#[test]
fn init_with_too_few_genes_puts_nobody_on_the_field() {
    let mut sim = Simulation::new(5, 5, 3, [0; 32], 1);
    assert_eq!(sim.init(), Err(GenomeError::EmptyGenome));
    assert!(sim.creatures().is_empty());
    assert!(occupied_cells(&sim).is_empty());

    let mut sim = Simulation::new(5, 5, 3, [0; 32], 0);
    assert_eq!(sim.init(), Err(GenomeError::EmptyGenome));
    assert!(sim.creatures().is_empty());
}

#[test]
fn init_of_a_world_without_creatures_succeeds() {
    let mut sim = Simulation::new(5, 5, 0, [0; 32], 1);
    assert_eq!(sim.init(), Ok(()));
    assert!(sim.creatures().is_empty());
}

#[test]
fn every_creature_gets_a_stream_of_its_own() {
    let mut sim = Simulation::new(10, 10, 4, [0; 32], 4);
    assert_eq!(sim.init(), Ok(()));
    let mut drawn = Vec::new();
    for index in 0..4 {
        let number: u64 = sim.creature_rng(index).gen();
        drawn.push(number);
    }
    let mut distinct = drawn.clone();
    distinct.sort();
    distinct.dedup();
    assert_eq!(distinct.len(), 4);
}

#[test]
fn same_seed_same_world() {
    let mut first = Simulation::new(30, 20, 40, [9; 32], 8);
    let mut second = Simulation::new(30, 20, 40, [9; 32], 8);
    assert_eq!(first.init(), Ok(()));
    assert_eq!(second.init(), Ok(()));

    assert_eq!(positions(&first), positions(&second));
    for (a, b) in first.creatures().iter().zip(second.creatures().iter()) {
        assert_eq!(a.genome().genes(), b.genome().genes());
        assert_eq!(a.color(), b.color());
        assert_eq!(a.brain().connections(), b.brain().connections());
    }
    for index in 0..40 {
        let a: u64 = first.creature_rng(index).gen();
        let b: u64 = second.creature_rng(index).gen();
        assert_eq!(a, b);
    }

    let plan = [east(), south(), west(), stay(), Vector2D::new(Step::Backward, Step::Backward)];
    for tick in 0..25 {
        let movements: Vec<Vector2D<Step>> =
            (0..40).map(|creature| plan[(creature * 7 + tick * 3) % plan.len()]).collect();
        first.step(&movements);
        second.step(&movements);
        assert_eq!(positions(&first), positions(&second));
        let mut cells = positions(&first);
        cells.sort_by_key(|cell| (cell.x, cell.y));
        assert_eq!(cells, occupied_cells(&first));
        cells.dedup();
        assert_eq!(cells.len(), 40);
    }
}

#[test]
fn other_seed_other_world() {
    let mut first = Simulation::new(30, 20, 40, [9; 32], 8);
    let mut second = Simulation::new(30, 20, 40, [8; 32], 8);
    assert_eq!(first.init(), Ok(()));
    assert_eq!(second.init(), Ok(()));
    assert!(positions(&first) != positions(&second));
}

#[test]
fn step_moves_creatures_to_free_cells() {
    let mut sim = Simulation::new(4, 4, 0, [0; 32], 4);
    assert!(sim.spawn(creature_at(0, 0)).is_ok());
    assert!(sim.spawn(creature_at(3, 3)).is_ok());
    sim.step(&vec![Vector2D::new(Step::Forward, Step::Forward), west()]);
    assert_eq!(positions(&sim), vec![Vector2D::new(1, 1), Vector2D::new(2, 3)]);
    assert_eq!(occupied_cells(&sim), vec![Vector2D::new(1, 1), Vector2D::new(2, 3)]);
}

#[test]
fn creature_without_a_movement_stays() {
    let mut sim = Simulation::new(4, 4, 0, [0; 32], 4);
    assert!(sim.spawn(creature_at(0, 0)).is_ok());
    assert!(sim.spawn(creature_at(3, 3)).is_ok());
    sim.step(&vec![east()]);
    assert_eq!(positions(&sim), vec![Vector2D::new(1, 0), Vector2D::new(3, 3)]);
    sim.step(&vec![]);
    assert_eq!(positions(&sim), vec![Vector2D::new(1, 0), Vector2D::new(3, 3)]);
    sim.step(&vec![stay(), stay(), east(), east()]);
    assert_eq!(positions(&sim), vec![Vector2D::new(1, 0), Vector2D::new(3, 3)]);
}

#[test]
fn creature_at_the_wall_stays() {
    let mut sim = Simulation::new(2, 2, 0, [0; 32], 4);
    assert!(sim.spawn(creature_at(0, 0)).is_ok());
    assert!(sim.spawn(creature_at(1, 1)).is_ok());
    sim.step(&vec![west(), south()]);
    assert_eq!(positions(&sim), vec![Vector2D::new(0, 0), Vector2D::new(1, 1)]);
    assert_eq!(occupied_cells(&sim), vec![Vector2D::new(0, 0), Vector2D::new(1, 1)]);
}

#[test]
fn two_creatures_cannot_take_the_same_cell() {
    let mut sim = Simulation::new(3, 1, 0, [0; 32], 4);
    assert!(sim.spawn(creature_at(0, 0)).is_ok());
    assert!(sim.spawn(creature_at(2, 0)).is_ok());

    // both see the cell between them free, and both ask for it
    sim.step(&vec![east(), west()]);

    // the first to ask gets it, the other stays where it was
    assert_eq!(positions(&sim), vec![Vector2D::new(1, 0), Vector2D::new(2, 0)]);
    assert_eq!(sim.is_position_occupied(&Vector2D::new(0, 0)), Some(false));
    assert_eq!(sim.is_position_occupied(&Vector2D::new(1, 0)), Some(true));
    assert_eq!(sim.is_position_occupied(&Vector2D::new(2, 0)), Some(true));
}

#[test]
fn creature_does_not_see_a_cell_vacated_in_the_same_tick() {
    // the creature behind asks first
    let mut sim = Simulation::new(3, 1, 0, [0; 32], 4);
    assert!(sim.spawn(creature_at(0, 0)).is_ok());
    assert!(sim.spawn(creature_at(1, 0)).is_ok());
    sim.step(&vec![east(), east()]);
    assert_eq!(positions(&sim), vec![Vector2D::new(0, 0), Vector2D::new(2, 0)]);
    assert_eq!(occupied_cells(&sim), vec![Vector2D::new(0, 0), Vector2D::new(2, 0)]);

    // the creature in front asks first
    let mut sim = Simulation::new(3, 1, 0, [0; 32], 4);
    assert!(sim.spawn(creature_at(1, 0)).is_ok());
    assert!(sim.spawn(creature_at(0, 0)).is_ok());
    sim.step(&vec![east(), east()]);
    assert_eq!(positions(&sim), vec![Vector2D::new(2, 0), Vector2D::new(0, 0)]);
    assert_eq!(occupied_cells(&sim), vec![Vector2D::new(0, 0), Vector2D::new(2, 0)]);

    // in the next tick the cell is seen free
    sim.step(&vec![stay(), east()]);
    assert_eq!(positions(&sim), vec![Vector2D::new(2, 0), Vector2D::new(1, 0)]);
}

#[test]
fn step_leaves_genes_and_generators_alone() {
    let mut sim = Simulation::new(4, 4, 0, [0; 32], 4);
    assert!(sim.spawn(creature_at(0, 0)).is_ok());
    let genes = sim.creatures()[0].genome().genes().clone();
    let color = sim.creatures()[0].color();
    sim.step(&vec![east()]);
    assert_eq!(sim.creatures()[0].genome().genes(), &genes);
    assert_eq!(sim.creatures()[0].color(), color);
    let drawn: u64 = sim.creature_rng(0).gen();
    let expected: u64 = CreatureRng::from_seed([7; 32]).gen();
    assert_eq!(drawn, expected);
}
