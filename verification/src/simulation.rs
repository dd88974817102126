//! The world: a field of cells, the creatures on it, and the tick.
//!
//! A tick has two phases. First every creature decides, seeing the field as
//! it was when the tick began. Then the decisions are carried out one after
//! the other, in the order of the creatures; a move to a cell that another
//! creature has taken in the meantime is dropped. So no two creatures ever
//! stand on one cell.

use crate::creature::{proposal, Creature, CreatureView, Step};
use crate::genome::{Genome, GenomeError};
use crate::random::{
    choose_multiple, creature_rng_from_seed, fill_bytes, is_selection, next_seed, set_stream,
    world_rng_from_seed, CreatureRng, RngSeed, WorldRng,
};
use crate::renderer::Color;
use crate::vector2d::Vector2D;
use vstd::prelude::*;

verus! {

/// What a creature asks of the world.
#[derive(Debug, PartialEq, Eq, Clone, Copy, Structural)]
pub enum Signal {
    /// The creature on cell `old` wants to stand on cell `new`.
    PositionChanged { old: Vector2D<usize>, new: Vector2D<usize> },
}

/// The cell lies on a field of the given size.
pub open spec fn in_field(cell: Vector2D<usize>, field_width: usize, field_height: usize) -> bool {
    cell.x < field_width && cell.y < field_height
}

/// The move that creature number `i` wants to make: the one given for it,
/// and none where none is given.
pub open spec fn movement_of(movements: Seq<Vector2D<Step>>, i: int) -> Vector2D<Step> {
    if 0 <= i < movements.len() {
        movements[i]
    } else {
        Vector2D { x: Step::Stay, y: Step::Stay }
    }
}

/// Where the creatures stand after a signal of creature number `creature`
/// was carried out. The creature moves if it still stands where the signal
/// says, and the cell it asks for lies on the field and is free. Else
/// nothing changes.
pub open spec fn applied(
    positions: Seq<Vector2D<usize>>,
    creature: int,
    signal: Signal,
    field_width: usize,
    field_height: usize,
) -> Seq<Vector2D<usize>> {
    match signal {
        Signal::PositionChanged { old, new } => if 0 <= creature < positions.len()
            && positions[creature] == old && in_field(new, field_width, field_height)
            && !positions.contains(new) {
            positions.update(creature, new)
        } else {
            positions
        },
    }
}

/// Where the creatures stand after the signals of one creature were carried
/// out, one after the other.
pub open spec fn applied_all(
    positions: Seq<Vector2D<usize>>,
    creature: int,
    signals: Seq<Signal>,
    field_width: usize,
    field_height: usize,
) -> Seq<Vector2D<usize>>
    decreases signals.len(),
{
    if signals.len() == 0 {
        positions
    } else {
        applied(
            applied_all(positions, creature, signals.drop_last(), field_width, field_height),
            creature,
            signals.last(),
            field_width,
            field_height,
        )
    }
}

/// Where the creatures stand after what was proposed was carried out,
/// creature by creature: `proposals[i]` is what creature number `i` asked for.
pub open spec fn committed(
    positions: Seq<Vector2D<usize>>,
    proposals: Seq<Option<Signal>>,
    field_width: usize,
    field_height: usize,
) -> Seq<Vector2D<usize>>
    decreases proposals.len(),
{
    if proposals.len() == 0 {
        positions
    } else {
        let before = committed(positions, proposals.drop_last(), field_width, field_height);
        match proposals.last() {
            Some(signal) => applied(
                before,
                proposals.len() - 1,
                signal,
                field_width,
                field_height,
            ),
            None => before,
        }
    }
}

/// What the creatures ask for in a tick. Every one decides by where the
/// creatures stand when the tick begins.
pub open spec fn proposals_of(
    positions: Seq<Vector2D<usize>>,
    movements: Seq<Vector2D<Step>>,
    field_width: usize,
    field_height: usize,
) -> Seq<Option<Signal>> {
    Seq::new(
        positions.len(),
        |i: int|
            proposal(positions[i], movement_of(movements, i), positions, field_width, field_height),
    )
}

/// Where the creatures stand after a tick in which they want to make the
/// given moves.
pub open spec fn tick(
    positions: Seq<Vector2D<usize>>,
    movements: Seq<Vector2D<Step>>,
    field_width: usize,
    field_height: usize,
) -> Seq<Vector2D<usize>> {
    committed(
        positions,
        proposals_of(positions, movements, field_width, field_height),
        field_width,
        field_height,
    )
}

/// All creatures stand on the field, no two on the same cell.
pub open spec fn apart_on_field(
    positions: Seq<Vector2D<usize>>,
    field_width: usize,
    field_height: usize,
) -> bool {
    &&& positions.no_duplicates()
    &&& forall|i: int|
        0 <= i < positions.len() ==> in_field(#[trigger] positions[i], field_width, field_height)
}

/// Carrying out a signal keeps the creatures on the field and apart, and
/// moves nobody but the creature that sent it.
pub proof fn applied_keeps_apart(
    positions: Seq<Vector2D<usize>>,
    creature: int,
    signal: Signal,
    field_width: usize,
    field_height: usize,
)
    requires
        apart_on_field(positions, field_width, field_height),
    ensures
        apart_on_field(
            applied(positions, creature, signal, field_width, field_height),
            field_width,
            field_height,
        ),
        applied(positions, creature, signal, field_width, field_height).len() == positions.len(),
        forall|i: int|
            0 <= i < positions.len() && i != creature ==> applied(
                positions,
                creature,
                signal,
                field_width,
                field_height,
            )[i] == positions[i],
{
}

/// Carrying out what was proposed keeps the creatures on the field and apart.
pub proof fn committed_keeps_apart(
    positions: Seq<Vector2D<usize>>,
    proposals: Seq<Option<Signal>>,
    field_width: usize,
    field_height: usize,
)
    requires
        apart_on_field(positions, field_width, field_height),
    ensures
        apart_on_field(
            committed(positions, proposals, field_width, field_height),
            field_width,
            field_height,
        ),
        committed(positions, proposals, field_width, field_height).len() == positions.len(),
    decreases proposals.len(),
{
    if proposals.len() > 0 {
        committed_keeps_apart(positions, proposals.drop_last(), field_width, field_height);
        let before = committed(positions, proposals.drop_last(), field_width, field_height);
        match proposals.last() {
            Some(signal) => {
                applied_keeps_apart(
                    before,
                    proposals.len() - 1,
                    signal,
                    field_width,
                    field_height,
                );
            },
            None => {},
        }
    }
}

/// What carrying out the first `count` proposals does to creature number
/// `i`: until its own proposal is reached it stands where it stood; after,
/// it stands there still or on the cell it asked for.
proof fn committed_moves_as_proposed(
    positions: Seq<Vector2D<usize>>,
    proposals: Seq<Option<Signal>>,
    field_width: usize,
    field_height: usize,
    count: int,
    i: int,
)
    requires
        apart_on_field(positions, field_width, field_height),
        0 <= count <= proposals.len(),
        0 <= i < positions.len(),
    ensures
        committed(positions, proposals.subrange(0, count), field_width, field_height).len()
            == positions.len(),
        i >= count ==> committed(
            positions,
            proposals.subrange(0, count),
            field_width,
            field_height,
        )[i] == positions[i],
        i < count ==> committed(
            positions,
            proposals.subrange(0, count),
            field_width,
            field_height,
        )[i] == positions[i] || (proposals[i] matches Some(
            Signal::PositionChanged { old: left, new: entered },
        ) && left == positions[i] && entered == committed(
            positions,
            proposals.subrange(0, count),
            field_width,
            field_height,
        )[i]),
    decreases count,
{
    let done = proposals.subrange(0, count);
    if count > 0 {
        committed_moves_as_proposed(positions, proposals, field_width, field_height, count - 1, i);
        assert(done.drop_last() =~= proposals.subrange(0, count - 1));
        assert(done.last() == proposals[count - 1]);
        let before = committed(positions, done.drop_last(), field_width, field_height);
        committed_keeps_apart(positions, done.drop_last(), field_width, field_height);
        match done.last() {
            Some(signal) => {
                applied_keeps_apart(before, count - 1, signal, field_width, field_height);
            },
            None => {},
        }
    }
}

/// In a tick a creature moves only as it proposed by the field it saw when
/// the tick began: after the tick it stands where it stood, or on the cell
/// that it asked for then.
pub proof fn tick_moves_as_proposed(
    positions: Seq<Vector2D<usize>>,
    movements: Seq<Vector2D<Step>>,
    field_width: usize,
    field_height: usize,
    i: int,
)
    requires
        apart_on_field(positions, field_width, field_height),
        0 <= i < positions.len(),
    ensures
        tick(positions, movements, field_width, field_height)[i] == positions[i] || proposal(
            positions[i],
            movement_of(movements, i),
            positions,
            field_width,
            field_height,
        ) == Some(
            Signal::PositionChanged {
                old: positions[i],
                new: tick(positions, movements, field_width, field_height)[i],
            },
        ),
{
    let proposals = proposals_of(positions, movements, field_width, field_height);
    committed_moves_as_proposed(
        positions,
        proposals,
        field_width,
        field_height,
        proposals.len() as int,
        i,
    );
    assert(proposals.subrange(0, proposals.len() as int) =~= proposals);
}

/// After a tick no two creatures stand on one cell, whatever moves they
/// wanted to make, and every creature stands on the field.
pub proof fn tick_keeps_apart(
    positions: Seq<Vector2D<usize>>,
    movements: Seq<Vector2D<Step>>,
    field_width: usize,
    field_height: usize,
)
    requires
        apart_on_field(positions, field_width, field_height),
    ensures
        apart_on_field(
            tick(positions, movements, field_width, field_height),
            field_width,
            field_height,
        ),
        tick(positions, movements, field_width, field_height).len() == positions.len(),
{
    committed_keeps_apart(
        positions,
        proposals_of(positions, movements, field_width, field_height),
        field_width,
        field_height,
    );
}

/// Items chosen from different places of a sequence that holds nothing twice
/// are items of the sequence, and no two of them are the same.
pub proof fn selection_is_apart<T>(items: Seq<T>, chosen: Seq<T>)
    requires
        items.no_duplicates(),
        exists|picks: Seq<int>| is_selection(picks, items, chosen),
    ensures
        chosen.no_duplicates(),
        forall|k: int| 0 <= k < chosen.len() ==> items.contains(#[trigger] chosen[k]),
{
    let picks = choose|picks: Seq<int>| is_selection(picks, items, chosen);
    assert forall|i: int, j: int|
        0 <= i < chosen.len() && 0 <= j < chosen.len() && i != j implies chosen[i]
        != chosen[j] by {
        assert(picks[i] != picks[j]);
        assert(chosen[i] == items[picks[i]] && chosen[j] == items[picks[j]]);
    }
    assert forall|k: int| 0 <= k < chosen.len() implies items.contains(#[trigger] chosen[k]) by {
        assert(items[picks[k]] == chosen[k]);
    }
}

/// The world.
pub struct Simulation {
    field_width: usize,
    field_height: usize,
    occupancy_map: Vec<Vec<bool>>,
    all_field_position: Vec<Vector2D<usize>>,
    initial_total_creature: usize,
    total_genes: usize,
    creatures: Vec<Creature>,
    rng: WorldRng,
}

impl Simulation {
    /// Width of the field.
    pub closed spec fn width(&self) -> usize {
        self.field_width
    }

    /// Height of the field.
    pub closed spec fn height(&self) -> usize {
        self.field_height
    }

    /// How many creatures the world is to start with.
    pub closed spec fn requested_creatures(&self) -> usize {
        self.initial_total_creature
    }

    /// How many genes every creature gets.
    pub closed spec fn genes_per_creature(&self) -> usize {
        self.total_genes
    }

    /// The creatures, in the order in which they were made.
    pub closed spec fn population(&self) -> Seq<Creature> {
        self.creatures@
    }

    /// Where the creatures stand, in the order of the creatures.
    pub open spec fn positions(&self) -> Seq<Vector2D<usize>> {
        Seq::new(self.population().len(), |i: int| self.population()[i]@.position)
    }

    /// The colours of the creatures, in the order of the creatures.
    pub open spec fn colors(&self) -> Seq<Color> {
        Seq::new(self.population().len(), |i: int| self.population()[i].color_view())
    }

    /// The cells of the field that the occupancy map marks.
    pub closed spec fn occupied_cells(&self) -> Set<Vector2D<usize>> {
        Set::new(
            |cell: Vector2D<usize>|
                in_field(cell, self.field_width, self.field_height)
                    && self.occupancy_map@[cell.x as int]@[cell.y as int],
        )
    }

    /// The occupancy map has a place for every cell, and the list of all
    /// cells holds cells of the field, none twice, as many as the field has.
    pub closed spec fn laid_out(&self) -> bool {
        &&& self.occupancy_map@.len() == self.field_width
        &&& forall|x: int|
            0 <= x < self.field_width ==> (#[trigger] self.occupancy_map@[x])@.len()
                == self.field_height
        &&& self.all_field_position@.len() == self.field_width * self.field_height
        &&& self.all_field_position@.no_duplicates()
        &&& forall|k: int|
            0 <= k < self.all_field_position@.len() ==> in_field(
                #[trigger] self.all_field_position@[k],
                self.field_width,
                self.field_height,
            )
    }

    /// The world is in order: every creature stands on a cell of the field,
    /// no two on the same, and the occupancy map marks exactly the cells on
    /// which a creature stands.
    pub open spec fn wf(&self) -> bool {
        &&& self.laid_out()
        &&& forall|i: int|
            0 <= i < self.positions().len() ==> in_field(
                #[trigger] self.positions()[i],
                self.width(),
                self.height(),
            )
        &&& self.positions().no_duplicates()
        &&& self.occupied_cells() == self.positions().to_set()
    }

    /// An empty world. `init` fills it.
    pub fn new(
        field_width: usize,
        field_height: usize,
        initial_total_creature: usize,
        seed: RngSeed,
        total_genes: usize,
    ) -> (sim: Self)
        ensures
            sim.wf(),
            sim.width() == field_width,
            sim.height() == field_height,
            sim.requested_creatures() == initial_total_creature,
            sim.genes_per_creature() == total_genes,
            sim.population().len() == 0,
    {
        let mut occupancy_map: Vec<Vec<bool>> = Vec::new();
        let mut all_field_position: Vec<Vector2D<usize>> = Vec::new();
        let mut x: usize = 0;
        while x < field_width
            invariant
                x <= field_width,
                occupancy_map@.len() == x,
                forall|c: int|
                    0 <= c < x ==> (#[trigger] occupancy_map@[c])@.len() == field_height,
                forall|c: int, r: int|
                    0 <= c < x && 0 <= r < field_height ==> !(#[trigger] occupancy_map@[c]@[r]),
                all_field_position@.len() == x * field_height,
                all_field_position@.no_duplicates(),
                forall|k: int|
                    0 <= k < all_field_position@.len() ==> (#[trigger] all_field_position@[k]).x
                        < x && all_field_position@[k].y < field_height,
            decreases field_width - x,
        {
            let mut column: Vec<bool> = Vec::new();
            let mut y: usize = 0;
            while y < field_height
                invariant
                    x < field_width,
                    y <= field_height,
                    column@.len() == y,
                    forall|r: int| 0 <= r < y ==> !(#[trigger] column@[r]),
                    all_field_position@.len() == x * field_height + y,
                    all_field_position@.no_duplicates(),
                    forall|k: int|
                        0 <= k < all_field_position@.len() ==> {
                            &&& (#[trigger] all_field_position@[k]).y < field_height
                            &&& (all_field_position@[k].x < x || (all_field_position@[k].x == x
                                && all_field_position@[k].y < y))
                        },
                decreases field_height - y,
            {
                let pos = Vector2D::new(x, y);
                all_field_position.push(pos);
                column.push(false);
                y = y + 1;
            }
            occupancy_map.push(column);
            proof {
                assert((x + 1) * field_height == x * field_height + field_height)
                    by (nonlinear_arith);
            }
            x = x + 1;
        }
        let sim = Self {
            field_width,
            field_height,
            occupancy_map,
            all_field_position,
            creatures: Vec::new(),
            initial_total_creature,
            total_genes,
            rng: world_rng_from_seed(seed),
        };
        proof {
            assert(sim.positions() =~= Seq::<Vector2D<usize>>::empty());
            assert(sim.occupied_cells() =~= sim.positions().to_set());
        }
        sim
    }

    /// Puts the requested creatures on cells of the field, no two on the
    /// same, each with genes drawn from the generator of the world and with
    /// a generator of its own. Where the genes are too few to make a
    /// creature, none is put on the field.
    pub fn init(&mut self) -> (done: Result<(), GenomeError>)
        requires
            old(self).wf(),
            old(self).population().len() == 0,
            old(self).requested_creatures() <= old(self).width() * old(self).height(),
            old(self).genes_per_creature() * 2 <= usize::MAX,
        ensures
            final(self).wf(),
            final(self).same_setup(old(self)),
            old(self).requested_creatures() > 0 && old(self).genes_per_creature() < 2 ==> done
                == Err::<(), GenomeError>(GenomeError::EmptyGenome)
                && final(self).population().len() == 0,
            old(self).requested_creatures() == 0 || old(self).genes_per_creature() >= 2 ==> done
                is Ok && final(self).population().len() == old(self).requested_creatures(),
            forall|i: int|
                0 <= i < final(self).population().len() ==> (
                #[trigger] final(self).population()[i])@.genome.len()
                    == old(self).genes_per_creature(),
    {
        let initial_total_creature = self.initial_total_creature;
        let all_possible_coords = choose_multiple(
            &self.all_field_position,
            &mut self.rng,
            initial_total_creature,
        );
        proof {
            selection_is_apart(self.all_field_position@, all_possible_coords@);
        }
        let mut genome_byte_array = vec![0_u8; self.total_genes * 2];
        let current_gen_seed = next_seed(&mut self.rng);
        let mut i: usize = 0;
        proof {
            assert(self.positions() =~= all_possible_coords@.subrange(0, 0));
        }
        while i < initial_total_creature
            invariant
                self.wf(),
                self.same_setup(old(self)),
                initial_total_creature == self.initial_total_creature,
                all_possible_coords@.len() == initial_total_creature,
                all_possible_coords@.no_duplicates(),
                forall|k: int|
                    0 <= k < all_possible_coords@.len() ==> in_field(
                        #[trigger] all_possible_coords@[k],
                        self.field_width,
                        self.field_height,
                    ),
                genome_byte_array@.len() == self.total_genes * 2,
                i <= initial_total_creature,
                self.creatures@.len() == i,
                self.positions() == all_possible_coords@.subrange(0, i as int),
                i > 0 ==> self.total_genes >= 2,
                forall|k: int|
                    0 <= k < i ==> (#[trigger] self.creatures@[k])@.genome.len()
                        == self.total_genes,
            decreases initial_total_creature - i,
        {
            let mut creature_rng = creature_rng_from_seed(current_gen_seed);
            set_stream(&mut creature_rng, i as u64);
            fill_bytes(&mut self.rng, &mut genome_byte_array);
            let current_position = all_possible_coords[i];
            let genome = Genome::from_byte_slice(genome_byte_array.as_slice());
            let new_creature = match Creature::new(current_position, genome, creature_rng) {
                Ok(creature) => creature,
                Err(error) => {
                    return Err(error);
                },
            };
            let ghost before = self.positions();
            proof {
                assert(!before.contains(current_position)) by {
                    if before.contains(current_position) {
                        let k = choose|k: int|
                            0 <= k < before.len() && before[k] == current_position;
                        assert(all_possible_coords@[k] == all_possible_coords@[i as int]);
                    }
                }
            }
            let spawned = self.spawn(new_creature);
            proof {
                assert(self.positions() =~= all_possible_coords@.subrange(0, i + 1));
            }
            i = i + 1;
        }
        Ok(())
    }

    /// Puts a creature on the field, on the cell where it stands. A creature
    /// that stands off the field, or on a cell that is taken, is handed back.
    pub fn spawn(&mut self, creature: Creature) -> (spawned: Result<(), Creature>)
        requires
            old(self).wf(),
        ensures
            final(self).wf(),
            final(self).same_setup(old(self)),
            in_field(creature@.position, old(self).width(), old(self).height())
                && !old(self).positions().contains(creature@.position) ==> spawned is Ok
                && final(self).population() == old(self).population().push(creature),
            !in_field(creature@.position, old(self).width(), old(self).height())
                || old(self).positions().contains(creature@.position) ==> spawned == Err::<
                (),
                Creature,
            >(creature) && final(self).population() == old(self).population(),
    {
        let position = *creature.position();
        if let Some(false) = self.is_position_occupied(&position) {
            let ghost before = self.positions();
            let ghost marked = self.occupied_cells();
            self.occupancy_map[position.x][position.y] = true;
            self.creatures.push(creature);
            proof {
                let after = self.positions();
                assert(after =~= before.push(position));
                assert(self.occupied_cells() =~= marked.insert(position));
                assert(after.to_set() =~= before.to_set().insert(position)) by {
                    assert forall|cell: Vector2D<usize>|
                        after.contains(cell) <==> before.contains(cell) || cell == position by {
                        if before.contains(cell) {
                            let k = choose|k: int| 0 <= k < before.len() && before[k] == cell;
                            assert(after[k] == cell);
                        }
                        if cell == position {
                            assert(after[before.len() as int] == cell);
                        }
                    }
                }
            }
            Ok(())
        } else {
            Err(creature)
        }
    }

    pub fn creatures(&self) -> (creatures: &Vec<Creature>)
        ensures
            creatures@ == self.population(),
    {
        &self.creatures
    }

    pub fn field_width(&self) -> (width: usize)
        ensures
            width == self.width(),
    {
        self.field_width
    }

    pub fn field_height(&self) -> (height: usize)
        ensures
            height == self.height(),
    {
        self.field_height
    }

    /// Whether a creature stands on the cell. `None` says that the cell is
    /// not on the field, which is not the same as a free cell.
    pub fn is_position_occupied(&self, pos: &Vector2D<usize>) -> (occupied: Option<bool>)
        requires
            self.wf(),
        ensures
            occupied == if in_field(*pos, self.width(), self.height()) {
                Some(self.positions().contains(*pos))
            } else {
                None
            },
    {
        if pos.x >= self.field_width || pos.y >= self.field_height {
            return None;
        }
        assert(self.occupied_cells().contains(*pos) <==> self.positions().to_set().contains(*pos));
        Some(self.occupancy_map[pos.x][pos.y])
    }

    /// The two worlds have the same field and were set up alike.
    pub open spec fn same_setup(&self, other: &Self) -> bool {
        &&& self.width() == other.width()
        &&& self.height() == other.height()
        &&& self.requested_creatures() == other.requested_creatures()
        &&& self.genes_per_creature() == other.genes_per_creature()
    }

    /// The two worlds hold the same creatures, which may stand elsewhere.
    pub open spec fn same_creatures(&self, other: &Self) -> bool {
        &&& self.population().len() == other.population().len()
        &&& forall|i: int|
            0 <= i < self.population().len() ==> (#[trigger] self.population()[i])@ == (
            CreatureView { position: self.population()[i]@.position, ..other.population()[i]@ })
    }

    /// Clears the cell that a creature leaves and marks the one it enters.
    fn update_occupancy_map(&mut self, left: Vector2D<usize>, entered: Vector2D<usize>)
        requires
            old(self).laid_out(),
            in_field(left, old(self).field_width, old(self).field_height),
            in_field(entered, old(self).field_width, old(self).field_height),
        ensures
            final(self).laid_out(),
            final(self).same_setup(old(self)),
            final(self).creatures == old(self).creatures,
            final(self).rng == old(self).rng,
            final(self).all_field_position == old(self).all_field_position,
            final(self).occupied_cells() == old(self).occupied_cells().remove(left).insert(entered),
    {
        self.occupancy_map[left.x][left.y] = false;
        self.occupancy_map[entered.x][entered.y] = true;
        assert(self.occupied_cells() =~= old(self).occupied_cells().remove(left).insert(entered));
    }

    /// Carries out one signal of a creature.
    fn carry_out(&mut self, creature: usize, signal: Signal)
        requires
            old(self).wf(),
            creature < old(self).population().len(),
        ensures
            final(self).wf(),
            final(self).same_setup(old(self)),
            final(self).same_creatures(old(self)),
            final(self).positions() == applied(
                old(self).positions(),
                creature as int,
                signal,
                old(self).width(),
                old(self).height(),
            ),
    {
        let ghost before = self.positions();
        match signal {
            Signal::PositionChanged { old: left, new: entered } => {
                let stands_there = *self.creatures[creature].position() == left;
                assert(self.positions()[creature as int]
                    == self.creatures@[creature as int]@.position);
                if stands_there {
                    if let Some(false) = self.is_position_occupied(&entered) {
                        assert(in_field(before[creature as int], self.width(), self.height()));
                        self.update_occupancy_map(left, entered);
                        self.creatures[creature].move_to(entered);
                        proof {
                            let after = self.positions();
                            assert(after =~= before.update(creature as int, entered));
                            assert(before[creature as int] == left);
                            assert forall|cell: Vector2D<usize>|
                                before.to_set().remove(left).insert(entered).contains(cell)
                                    == after.to_set().contains(cell) by {
                                if cell == entered {
                                    assert(after[creature as int] == cell);
                                } else if cell == left {
                                    if after.contains(cell) {
                                        let k = choose|k: int|
                                            0 <= k < after.len() && after[k] == cell;
                                        assert(before[k] == cell);
                                    }
                                } else {
                                    if before.contains(cell) {
                                        let k = choose|k: int|
                                            0 <= k < before.len() && before[k] == cell;
                                        assert(after[k] == cell);
                                    }
                                    if after.contains(cell) {
                                        let k = choose|k: int|
                                            0 <= k < after.len() && after[k] == cell;
                                        assert(before[k] == cell);
                                    }
                                }
                            }
                            assert(self.occupied_cells() =~= after.to_set());
                            applied_keeps_apart(
                                before,
                                creature as int,
                                signal,
                                self.width(),
                                self.height(),
                            );
                        }
                    }
                }
            },
        }
    }

    /// Carries out the signals of a creature, one after the other.
    fn process_signals(&mut self, creature: usize, signals: &Vec<Signal>)
        requires
            old(self).wf(),
            creature < old(self).population().len(),
        ensures
            final(self).wf(),
            final(self).same_setup(old(self)),
            final(self).same_creatures(old(self)),
            final(self).positions() == applied_all(
                old(self).positions(),
                creature as int,
                signals@,
                old(self).width(),
                old(self).height(),
            ),
    {
        let total = signals.len();
        let mut k: usize = 0;
        while k < total
            invariant
                total == signals@.len(),
                k <= total,
                self.wf(),
                self.same_setup(old(self)),
                self.same_creatures(old(self)),
                creature < self.population().len(),
                self.positions() == applied_all(
                    old(self).positions(),
                    creature as int,
                    signals@.subrange(0, k as int),
                    old(self).width(),
                    old(self).height(),
                ),
            decreases total - k,
        {
            proof {
                assert(signals@.subrange(0, k + 1).drop_last() =~= signals@.subrange(0, k as int));
            }
            self.carry_out(creature, signals[k]);
            k = k + 1;
        }
        proof {
            assert(signals@.subrange(0, total as int) =~= signals@);
        }
    }

    /// One tick. `movements[i]` is the move that creature number `i` wants to
    /// make; a creature for which none is given stays. Every creature decides
    /// by the field as it is when the tick begins, and only then are the
    /// decisions carried out, in the order of the creatures.
    pub fn step(&mut self, movements: &Vec<Vector2D<Step>>)
        requires
            old(self).wf(),
        ensures
            final(self).wf(),
            final(self).same_setup(old(self)),
            final(self).same_creatures(old(self)),
            final(self).positions() == tick(
                old(self).positions(),
                movements@,
                old(self).width(),
                old(self).height(),
            ),
    {
        let total = self.creatures.len();
        let ghost start = self.positions();
        let ghost proposals = proposals_of(start, movements@, self.width(), self.height());
        let mut all_signals: Vec<Vec<Signal>> = Vec::new();
        let mut i: usize = 0;
        while i < total
            invariant
                self.wf(),
                *self == *old(self),
                total == self.population().len(),
                start == self.positions(),
                proposals == proposals_of(start, movements@, self.width(), self.height()),
                i <= total,
                all_signals@.len() == i,
                forall|k: int|
                    0 <= k < i ==> (#[trigger] all_signals@[k])@ == match proposals[k] {
                        Some(signal) => seq![signal],
                        None => Seq::empty(),
                    },
            decreases total - i,
        {
            let movement = if i < movements.len() {
                movements[i]
            } else {
                Vector2D::new(Step::Stay, Step::Stay)
            };
            assert(movement == movement_of(movements@, i as int));
            assert(self.positions()[i as int] == self.creatures@[i as int]@.position);
            let creature_signals = self.creatures[i].execute_actions(movement, self);
            all_signals.push(creature_signals);
            i = i + 1;
        }
        let mut i: usize = 0;
        while i < total
            invariant
                self.wf(),
                self.same_setup(old(self)),
                self.same_creatures(old(self)),
                total == self.population().len(),
                proposals.len() == total,
                i <= total,
                all_signals@.len() == total,
                forall|k: int|
                    0 <= k < total ==> (#[trigger] all_signals@[k])@ == match proposals[k] {
                        Some(signal) => seq![signal],
                        None => Seq::empty(),
                    },
                self.positions() == committed(
                    start,
                    proposals.subrange(0, i as int),
                    self.width(),
                    self.height(),
                ),
            decreases total - i,
        {
            let ghost before = self.positions();
            proof {
                reveal_with_fuel(applied_all, 2);
                assert(proposals.subrange(0, i + 1).drop_last() =~= proposals.subrange(
                    0,
                    i as int,
                ));
                match proposals[i as int] {
                    Some(signal) => {
                        assert(seq![signal].drop_last() =~= Seq::<Signal>::empty());
                    },
                    None => {},
                }
            }
            self.process_signals(i, &all_signals[i]);
            i = i + 1;
        }
        proof {
            assert(proposals.subrange(0, total as int) =~= proposals);
        }
    }

    /// The generator of creature number `index`, to draw from. Whatever is
    /// drawn, the field and the places of the creatures stay as they are.
    pub fn creature_rng(&mut self, index: usize) -> (rng: &mut CreatureRng)
        requires
            index < old(self).population().len(),
        ensures
            *rng == old(self).population()[index as int]@.rng,
            final(self).same_setup(old(self)),
            final(self).laid_out() == old(self).laid_out(),
            final(self).occupied_cells() == old(self).occupied_cells(),
            final(self).positions() == old(self).positions(),
            final(self).population().len() == old(self).population().len(),
            forall|i: int|
                0 <= i < old(self).population().len() ==> (#[trigger] final(self).population()[i])@
                    == if i == index {
                    CreatureView { rng: *final(rng), ..old(self).population()[i]@ }
                } else {
                    old(self).population()[i]@
                },
    {
        self.creatures[index].rng_mut()
    }
}

} // verus!
