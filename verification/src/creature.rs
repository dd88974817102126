//! A creature: a body on the grid, the genome it was born with, and the
//! brain compiled from it.

use crate::genome::{fingerprint, Gene, Genome, GenomeError};
use crate::neuron::action_neuron::ActionNeuron;
use crate::neuron::brain::{compiled, wired_actions, wired_sensors, Brain};
use crate::neuron::sensory_neuron::SensoryNeuron;
use crate::random::CreatureRng;
use crate::renderer::Color;
use crate::simulation::{in_field, Signal, Simulation};
use crate::vector2d::Vector2D;
use vstd::prelude::*;

verus! {

/// What a creature does along one axis in one tick.
#[derive(Debug, PartialEq, Eq, Clone, Copy, Structural)]
pub enum Step {
    /// One cell towards the lower coordinates: west, or north.
    Backward,
    /// No move.
    Stay,
    /// One cell towards the higher coordinates: east, or south.
    Forward,
}

impl Step {
    /// The change of the coordinate.
    pub open spec fn delta(self) -> int {
        match self {
            Step::Backward => -1,
            Step::Stay => 0,
            Step::Forward => 1,
        }
    }
}

/// What a sensor is fed with, before it becomes a number between -1 and 1.
#[derive(Debug, PartialEq, Eq, Clone, Copy, Structural)]
pub enum SensoryInput {
    /// A number to be drawn from the creature's own generator.
    Random,
    /// The part `coordinate / extent` of the field that lies between a wall
    /// and the creature, or, where `complemented` is set, the rest of the
    /// field: `1 - coordinate / extent`.
    Distance { coordinate: usize, extent: usize, complemented: bool },
}

impl SensoryInput {
    /// The numerator of the fraction of `extent` that the input stands for.
    pub open spec fn numerator(self) -> int {
        match self {
            SensoryInput::Random => 0,
            SensoryInput::Distance { coordinate, extent, complemented } => if complemented {
                extent - coordinate
            } else {
                coordinate as int
            },
        }
    }

    /// The denominator of the fraction that the input stands for.
    pub open spec fn denominator(self) -> int {
        match self {
            SensoryInput::Random => 1,
            SensoryInput::Distance { extent, .. } => extent as int,
        }
    }
}

/// What a sensor of a creature at `position` is fed with in a field of the
/// given size.
pub open spec fn sensed(
    neuron: SensoryNeuron,
    position: Vector2D<usize>,
    field_width: usize,
    field_height: usize,
) -> SensoryInput {
    match neuron {
        SensoryNeuron::Random => SensoryInput::Random,
        SensoryNeuron::DistToBarrierNorth => SensoryInput::Distance {
            coordinate: position.y,
            extent: field_height,
            complemented: false,
        },
        SensoryNeuron::DistToBarrierSouth => SensoryInput::Distance {
            coordinate: position.y,
            extent: field_height,
            complemented: true,
        },
        SensoryNeuron::DistToBarrierWest => SensoryInput::Distance {
            coordinate: position.x,
            extent: field_width,
            complemented: false,
        },
        SensoryNeuron::DistToBarrierEast => SensoryInput::Distance {
            coordinate: position.x,
            extent: field_width,
            complemented: true,
        },
    }
}

/// The distance to a wall, taken from a cell of the field, is a fraction
/// between 0 and 1 of the extent of the field.
pub proof fn distance_is_a_proper_fraction(
    neuron: SensoryNeuron,
    position: Vector2D<usize>,
    field_width: usize,
    field_height: usize,
)
    requires
        in_field(position, field_width, field_height),
        neuron != SensoryNeuron::Random,
    ensures
        sensed(neuron, position, field_width, field_height) is Distance,
        sensed(neuron, position, field_width, field_height).denominator() > 0,
        0 <= sensed(neuron, position, field_width, field_height).numerator() <= sensed(
            neuron,
            position,
            field_width,
            field_height,
        ).denominator(),
{
}

/// The cell that a move from `position` leads to. It may lie off the field.
pub open spec fn destination(position: Vector2D<usize>, movement: Vector2D<Step>) -> (int, int) {
    (position.x + movement.x.delta(), position.y + movement.y.delta())
}

/// The cell that a move from `position` leads to, where it is a cell of the
/// field.
pub open spec fn target(
    position: Vector2D<usize>,
    movement: Vector2D<Step>,
    field_width: usize,
    field_height: usize,
) -> Option<Vector2D<usize>> {
    let (x, y) = destination(position, movement);
    if 0 <= x < field_width && 0 <= y < field_height {
        Some(Vector2D { x: x as usize, y: y as usize })
    } else {
        None
    }
}

/// What a creature at `position` asks for when it wants to make the move,
/// in a field where creatures stand on `occupied`: the move, if it leads to
/// another cell, that cell lies on the field and nobody stands on it; else nothing.
pub open spec fn proposal(
    position: Vector2D<usize>,
    movement: Vector2D<Step>,
    occupied: Seq<Vector2D<usize>>,
    field_width: usize,
    field_height: usize,
) -> Option<Signal> {
    match target(position, movement, field_width, field_height) {
        Some(cell) => if cell != position && !occupied.contains(cell) {
            Some(Signal::PositionChanged { old: position, new: cell })
        } else {
            None
        },
        None => None,
    }
}

/// What a creature is, for the contracts: where it stands, its genes, and
/// its generator. Brain and colour follow from the genes.
pub struct CreatureView {
    pub position: Vector2D<usize>,
    pub genome: Seq<Gene>,
    pub rng: CreatureRng,
}

/// A genome with what it gives a creature for life.
struct Phenotype {
    genome: Genome,
    brain: Brain,
    sensory_data: Vec<SensoryNeuron>,
    action_data: Vec<ActionNeuron>,
    color: Color,
}

impl Phenotype {
    /// Brain and colour are those of the genome, and the neurons that values
    /// are kept for are those the brain is wired to.
    #[verifier::type_invariant]
    closed spec fn well_formed(self) -> bool {
        &&& self.genome@.len() >= 2
        &&& self.brain@ == compiled(self.genome@)
        &&& self.color@ == fingerprint(self.genome@)
        &&& self.sensory_data@ == wired_sensors(self.brain@)
        &&& self.action_data@ == wired_actions(self.brain@)
    }
}

/// One creature.
pub struct Creature {
    position: Vector2D<usize>,
    phenotype: Phenotype,
    rng: CreatureRng,
}

impl View for Creature {
    type V = CreatureView;

    closed spec fn view(&self) -> CreatureView {
        CreatureView { position: self.position, genome: self.phenotype.genome@, rng: self.rng }
    }
}

impl Creature {
    /// The colour of the creature.
    pub closed spec fn color_view(&self) -> Color {
        self.phenotype.color
    }


    /// A creature at `position` with the brain and the colour of its genome.
    /// A genome of fewer than two genes makes no creature.
    pub fn new(position: Vector2D<usize>, genome: Genome, unique_stream_rng: CreatureRng) -> (made:
        Result<Self, GenomeError>)
        ensures
            genome@.len() < 2 ==> made is Err && made->Err_0 == GenomeError::EmptyGenome,
            genome@.len() >= 2 ==> made is Ok && made->Ok_0@ == (CreatureView {
                position,
                genome: genome@,
                rng: unique_stream_rng,
            }),
    {
        let color = match genome.generate_color() {
            Ok(color) => color,
            Err(error) => {
                return Err(error);
            },
        };
        let brain = Brain::from_genome(&genome);
        let (sensory_data, action_data) = brain.neurons_empty_value_map();
        let phenotype = Phenotype { genome, brain, sensory_data, action_data, color };
        Ok(Self { position, phenotype, rng: unique_stream_rng })
    }

    pub fn position(&self) -> (position: &Vector2D<usize>)
        ensures
            *position == self@.position,
    {
        &self.position
    }

    pub fn color(&self) -> (color: Color)
        ensures
            color == self.color_view(),
            color@ == fingerprint(self@.genome),
    {
        proof {
            use_type_invariant(&self.phenotype);
        }
        self.phenotype.color
    }

    pub fn brain(&self) -> (brain: &Brain)
        ensures
            brain@ == compiled(self@.genome),
    {
        proof {
            use_type_invariant(&self.phenotype);
        }
        &self.phenotype.brain
    }

    pub fn genome(&self) -> (genome: &Genome)
        ensures
            genome@ == self@.genome,
            genome@.len() >= 2,
    {
        proof {
            use_type_invariant(&self.phenotype);
        }
        &self.phenotype.genome
    }

    /// The sensors that the creature holds a value for: those its brain reads.
    pub fn sensory_neurons(&self) -> (neurons: &Vec<SensoryNeuron>)
        ensures
            neurons@ == wired_sensors(compiled(self@.genome)),
    {
        proof {
            use_type_invariant(&self.phenotype);
        }
        &self.phenotype.sensory_data
    }

    /// The actions that the creature holds a value for: those its brain drives.
    pub fn action_neurons(&self) -> (neurons: &Vec<ActionNeuron>)
        ensures
            neurons@ == wired_actions(compiled(self@.genome)),
    {
        proof {
            use_type_invariant(&self.phenotype);
        }
        &self.phenotype.action_data
    }

    /// The creature's own generator, to draw from.
    pub fn rng_mut(&mut self) -> (rng: &mut CreatureRng)
        ensures
            *rng == old(self)@.rng,
            final(self)@ == (CreatureView { rng: *final(rng), ..old(self)@ }),
    {
        &mut self.rng
    }

    /// What every sensor that the brain reads is fed with this tick, in
    /// catalogue order.
    pub fn gather_sensory_data(&self, sim: &Simulation) -> (data: Vec<
        (SensoryNeuron, SensoryInput),
    >)
        ensures
            data@.len() == wired_sensors(compiled(self@.genome)).len(),
            forall|i: int|
                0 <= i < data@.len() ==> (#[trigger] data@[i]).0 == wired_sensors(
                    compiled(self@.genome),
                )[i] && data@[i].1 == sensed(
                    data@[i].0,
                    self@.position,
                    sim.width(),
                    sim.height(),
                ),
    {
        proof {
            use_type_invariant(&self.phenotype);
        }
        let mut data: Vec<(SensoryNeuron, SensoryInput)> = Vec::new();
        let total = self.phenotype.sensory_data.len();
        let mut i: usize = 0;
        while i < total
            invariant
                total == self.phenotype.sensory_data@.len(),
                i <= total,
                data@.len() == i,
                forall|k: int|
                    0 <= k < i ==> (#[trigger] data@[k]).0 == self.phenotype.sensory_data@[k]
                        && data@[k].1 == sensed(
                        data@[k].0,
                        self.position,
                        sim.width(),
                        sim.height(),
                    ),
            decreases total - i,
        {
            let neuron = self.phenotype.sensory_data[i];
            let input = match neuron {
                SensoryNeuron::Random => SensoryInput::Random,
                SensoryNeuron::DistToBarrierNorth => SensoryInput::Distance {
                    coordinate: self.position.y,
                    extent: sim.field_height(),
                    complemented: false,
                },
                SensoryNeuron::DistToBarrierSouth => SensoryInput::Distance {
                    coordinate: self.position.y,
                    extent: sim.field_height(),
                    complemented: true,
                },
                SensoryNeuron::DistToBarrierWest => SensoryInput::Distance {
                    coordinate: self.position.x,
                    extent: sim.field_width(),
                    complemented: false,
                },
                SensoryNeuron::DistToBarrierEast => SensoryInput::Distance {
                    coordinate: self.position.x,
                    extent: sim.field_width(),
                    complemented: true,
                },
            };
            data.push((neuron, input));
            i = i + 1;
        }
        data
    }

    /// The signals that the creature sends when it wants to make the move:
    /// one, or none.
    pub fn execute_actions(&self, movement: Vector2D<Step>, sim: &Simulation) -> (signals: Vec<
        Signal,
    >)
        requires
            sim.wf(),
        ensures
            signals@ == match proposal(
                self@.position,
                movement,
                sim.positions(),
                sim.width(),
                sim.height(),
            ) {
                Some(signal) => seq![signal],
                None => Seq::empty(),
            },
    {
        let mut signals: Vec<Signal> = Vec::new();
        if let Some(pos_change) = self.process_raw_movement_value(movement, sim) {
            signals.push(pos_change);
            assert(signals@ =~= seq![pos_change]);
        }
        signals
    }

    /// Turns the wish to move into a signal, if the move can be made.
    fn process_raw_movement_value(&self, movement: Vector2D<Step>, sim: &Simulation) -> (signal:
        Option<Signal>)
        requires
            sim.wf(),
        ensures
            signal == proposal(
                self@.position,
                movement,
                sim.positions(),
                sim.width(),
                sim.height(),
            ),
    {
        let new_x = match movement.x {
            Step::Backward => self.position.x.checked_sub(1),
            Step::Stay => Some(self.position.x),
            Step::Forward => self.position.x.checked_add(1),
        };
        let new_y = match movement.y {
            Step::Backward => self.position.y.checked_sub(1),
            Step::Stay => Some(self.position.y),
            Step::Forward => self.position.y.checked_add(1),
        };
        if let (Some(x), Some(y)) = (new_x, new_y) {
            let new_position = Vector2D::new(x, y);
            if new_position != self.position {
                if let Some(false) = sim.is_position_occupied(&new_position) {
                    return Some(Signal::PositionChanged { old: self.position, new: new_position });
                }
            }
        }
        None
    }

    /// Puts the creature on another cell.
    pub(crate) fn move_to(&mut self, position: Vector2D<usize>)
        ensures
            final(self)@ == (CreatureView { position, ..old(self)@ }),
    {
        self.position = position;
    }
}

} // verus!
