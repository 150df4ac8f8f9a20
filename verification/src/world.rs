//! The world aggregate and the simulation clock.
//!
//! A world owns its grid, its population, its job probability table and a
//! step counter. One tick runs the behavior engine over every agent in
//! storage order — later agents observe tile mutations made by earlier
//! agents in the same tick — then runs the growth procedure, then advances
//! the counter.

use vstd::prelude::*;
use vstd::pervasive::VecAdditionalExecFns;
use crate::agent::Job;
use crate::agent::Peepl;
use crate::behavior::act;
use crate::behavior::agents_acted;
use crate::behavior::lemma_agents_acted_push;
use crate::grid::WorldTiles;
use crate::prob::calculate_probability;
use crate::prob::sample_probability;
use crate::prob::table_total;
use crate::prob::table_wf;
use crate::rng::random_below;
use crate::tile::Inventory;
use crate::tile::Tile;
use crate::tile::TileKind;

verus! {

/// How many residents a settlement tile holds in `pop`: the number of
/// agents whose position equals `pos`.
pub open spec fn count_at(pop: Seq<Peepl>, pos: (i64, i64)) -> nat
    decreases pop.len(),
{
    if pop.len() == 0 {
        0
    } else {
        count_at(pop.drop_last(), pos) + if pop.last().position == pos {
            1nat
        } else {
            0nat
        }
    }
}

/// How many agents of `pop` hold the job `job`.
pub open spec fn count_with_job(pop: Seq<Peepl>, job: Job) -> nat
    decreases pop.len(),
{
    if pop.len() == 0 {
        0
    } else {
        count_with_job(pop.drop_last(), job) + if pop.last().job == job {
            1nat
        } else {
            0nat
        }
    }
}

/// Whether `job` is a category of the table that a draw can actually
/// produce: one listed with a non-empty sampling interval.
pub open spec fn job_from_table(table: Seq<(Job, u64, u64)>, job: Job) -> bool {
    exists|i: int|
        0 <= i < table.len() && job == (#[trigger] table[i]).0 && table[i].1 < table[i].2
}

/// Whether `kind` is a category of the ratio list that a draw can actually
/// produce: one listed with a positive weight.
pub open spec fn kind_from_ratios(ratios: Seq<(TileKind, u64)>, kind: TileKind) -> bool {
    exists|i: int| 0 <= i < ratios.len() && kind == (#[trigger] ratios[i]).0 && ratios[i].1 > 0
}

/// How many tiles of `tiles` are of kind `kind`.
pub open spec fn count_kind(tiles: Seq<Tile>, kind: TileKind) -> nat
    decreases tiles.len(),
{
    if tiles.len() == 0 {
        0
    } else {
        count_kind(tiles.drop_last(), kind) + if tiles.last().kind == kind {
            1nat
        } else {
            0nat
        }
    }
}

/// How many births one tick's growth pass can produce at most: one chance
/// per resident pair, summed over the settlement tiles — each settlement
/// contributes half its occupancy in `pop`, rounded down.
pub open spec fn growth_capacity(tiles: Seq<Tile>, pop: Seq<Peepl>) -> nat
    decreases tiles.len(),
{
    if tiles.len() == 0 {
        0
    } else {
        growth_capacity(tiles.drop_last(), pop) + if tiles.last().kind == TileKind::Settlement {
            count_at(pop, tiles.last().position) / 2
        } else {
            0nat
        }
    }
}

/// Some tile already laid down is a settlement recording position `p`.
pub open spec fn settlement_at(tiles: Seq<Tile>, p: (i64, i64)) -> bool {
    exists|j: int|
        0 <= j < tiles.len() && (#[trigger] tiles[j]).kind == TileKind::Settlement && tiles[j].position
            == p
}

/// Laying down one more tile keeps every settlement already recorded.
proof fn lemma_settlement_at_push(tiles: Seq<Tile>, t: Tile, p: (i64, i64))
    requires
        settlement_at(tiles, p),
    ensures
        settlement_at(tiles.push(t), p),
{
    let j = choose|j: int|
        0 <= j < tiles.len() && (#[trigger] tiles[j]).kind == TileKind::Settlement
            && tiles[j].position == p;
    assert(tiles.push(t)[j] == tiles[j]);
}

/// What every tile of a freshly generated world holds: resource sites
/// start with fewer than a thousand units of raw material and nothing
/// else; open ground and settlements start empty.
pub open spec fn initial_tile_ok(t: Tile) -> bool {
    match t.kind {
        TileKind::Open => t.holding.raw_material == 0 && t.holding.processed_material == 0,
        TileKind::ResourceSite => t.holding.raw_material < 1000 && t.holding.processed_material
            == 0,
        TileKind::Settlement => t.holding.raw_material == 0 && t.holding.processed_material == 0,
    }
}

/// Counts the agents of `pop` whose position equals `pos`.
#[verifier::loop_isolation(false)]
pub fn count_residents(pop: &Vec<Peepl>, pos: (i64, i64)) -> (r: usize)
    ensures
        r == count_at(pop@, pos),
{
    let mut count: usize = 0;
    let mut i: usize = 0;
    while i < pop.len()
        invariant
            0 <= i <= pop@.len(),
            count <= i,
            count == count_at(pop@.subrange(0, i as int), pos),
        decreases pop@.len() - i,
    {
        proof {
            assert(pop@.subrange(0, i + 1).drop_last() =~= pop@.subrange(0, i as int));
            assert(pop@.subrange(0, i + 1).last() == pop@[i as int]);
        }
        if pop[i].position.0 == pos.0 && pop[i].position.1 == pos.1 {
            count = count + 1;
        }
        i = i + 1;
    }
    proof {
        assert(pop@.subrange(0, pop@.len() as int) =~= pop@);
    }
    count
}

/// The world: grid, population, job probability table and step counter,
/// owned together as the unit of simulation identity.
pub struct World {
    pub job_probabilities: Vec<(Job, u64, u64)>,
    pub tiles: WorldTiles,
    pub pop: Vec<Peepl>,
    pub steps: usize,
}

impl World {
    /// World well-formedness: the grid is well-formed, the job table is a
    /// non-empty well-formed probability table, and every agent stands on
    /// the grid.
    pub open spec fn wf(self) -> bool {
        &&& self.tiles.wf()
        &&& table_wf(self.job_probabilities@)
        &&& self.job_probabilities@.len() > 0
        &&& table_total(self.job_probabilities@) > 0
        &&& forall|i: int|
            0 <= i < self.pop@.len() ==> self.tiles.in_bounds(
                (#[trigger] self.pop@[i]).position,
            )
    }

    /// Counts the agents of this world holding the job `job`.
    #[verifier::loop_isolation(false)]
    pub fn count_job(&self, job: Job) -> (r: usize)
        ensures
            r == count_with_job(self.pop@, job),
    {
        let mut count: usize = 0;
        let mut i: usize = 0;
        while i < self.pop.len()
            invariant
                0 <= i <= self.pop@.len(),
                count <= i,
                count == count_with_job(self.pop@.subrange(0, i as int), job),
            decreases self.pop@.len() - i,
        {
            proof {
                assert(self.pop@.subrange(0, i + 1).drop_last() =~= self.pop@.subrange(
                    0,
                    i as int,
                ));
                assert(self.pop@.subrange(0, i + 1).last() == self.pop@[i as int]);
            }
            let same = match (self.pop[i].job, job) {
                (Job::Harvester, Job::Harvester) => true,
                (Job::Processor, Job::Processor) => true,
                (Job::Builder, Job::Builder) => true,
                _ => false,
            };
            if same {
                count = count + 1;
            }
            i = i + 1;
        }
        proof {
            assert(self.pop@.subrange(0, self.pop@.len() as int) =~= self.pop@);
        }
        count
    }

    /// Births one agent at `position`: the job is sampled from the job
    /// probability table with a fresh uniform draw, and the newborn
    /// carries nothing.
    pub fn birth_peep(position: (i64, i64), job_probabilities: &Vec<(Job, u64, u64)>) -> (r: Peepl)
        requires
            table_wf(job_probabilities@),
            job_probabilities@.len() > 0,
            table_total(job_probabilities@) > 0,
        ensures
            r.position == position,
            r.holding is None,
            job_from_table(job_probabilities@, r.job),
    {
        let total = job_probabilities[job_probabilities.len() - 1].2;
        let rand_job = random_below(total);
        let job_kind = sample_probability(job_probabilities, rand_job);
        Peepl { position: position, holding: None, job: job_kind }
    }

    /// Generates a square world of side `size`. Each tile's kind is
    /// sampled from the `tile_makeup` ratios; resource sites start with a
    /// random endowment of raw material below a thousand units; each
    /// settlement starts with `starting_population_per_city` freshly
    /// birthed agents standing on it. The world's job table is the
    /// cumulative table built from the `jobs` ratios. Returns `None`
    /// exactly when a ratio list has total weight zero or a total too
    /// large for the bound type.
    #[verifier::loop_isolation(false)]
    pub fn generate_world(
        size: usize,
        starting_population_per_city: usize,
        jobs: Vec<(Job, u64)>,
        tile_makeup: Vec<(TileKind, u64)>,
    ) -> (r: Option<World>)
        requires
            size < 0x8000_0000,
            size * size <= usize::MAX,
        ensures
            match r {
                Some(world) => {
                    &&& world.wf()
                    &&& world.steps == 0
                    &&& world.tiles.size == (size, size)
                    &&& forall|j: int|
                        0 <= j < world.tiles.tiles@.len() ==> initial_tile_ok(
                            #[trigger] world.tiles.tiles@[j],
                        )
                    &&& forall|j: int|
                        0 <= j < world.tiles.tiles@.len() ==> kind_from_ratios(
                            tile_makeup@,
                            (#[trigger] world.tiles.tiles@[j]).kind,
                        )
                    &&& forall|i: int|
                        0 <= i < world.pop@.len() ==> (#[trigger] world.pop@[i]).holding is None
                    &&& forall|i: int|
                        0 <= i < world.pop@.len() ==> world.tiles.tile_candidate(
                            (#[trigger] world.pop@[i]).position,
                            TileKind::Settlement,
                        )
                    &&& world.pop@.len() == starting_population_per_city * count_kind(
                        world.tiles.tiles@,
                        TileKind::Settlement,
                    )
                    &&& forall|i: int|
                        0 <= i < world.pop@.len() ==> job_from_table(
                            world.job_probabilities@,
                            (#[trigger] world.pop@[i]).job,
                        )
                    &&& world.job_probabilities@.len() == jobs@.len()
                    &&& table_total(world.job_probabilities@) == crate::prob::weight_sum(jobs@)
                    &&& forall|i: int|
                        0 <= i < jobs@.len() ==> (#[trigger] world.job_probabilities@[i]).0
                            == jobs@[i].0 && world.job_probabilities@[i].2
                            - world.job_probabilities@[i].1 == jobs@[i].1
                },
                None => {
                    ||| crate::prob::weight_sum(jobs@) == 0
                    ||| crate::prob::weight_sum(jobs@) > u64::MAX
                    ||| crate::prob::weight_sum(tile_makeup@) == 0
                    ||| crate::prob::weight_sum(tile_makeup@) > u64::MAX
                },
            },
    {
        let world_jobs = match calculate_probability(&jobs) {
            Some(t) => t,
            None => {
                return None;
            }
        };
        let tile_probs = match calculate_probability(&tile_makeup) {
            Some(t) => t,
            None => {
                return None;
            }
        };
        let mut world_tiles: Vec<Tile> = Vec::new();
        let mut world_population: Vec<Peepl> = Vec::new();
        proof {
            assert(count_kind(world_tiles@, TileKind::Settlement) == 0);
            assert(starting_population_per_city * 0nat == 0) by (nonlinear_arith);
        }
        let mut y: usize = 0;
        while y < size
            invariant
                0 <= y <= size,
                world_tiles@.len() == y * size,
                forall|j: int|
                    0 <= j < world_tiles@.len() ==> (#[trigger] world_tiles@[j]).position == (
                        (j % (size as int)) as i64,
                        (j / (size as int)) as i64,
                    ),
                forall|j: int|
                    0 <= j < world_tiles@.len() ==> initial_tile_ok(#[trigger] world_tiles@[j]),
                forall|j: int|
                    0 <= j < world_tiles@.len() ==> kind_from_ratios(
                        tile_makeup@,
                        (#[trigger] world_tiles@[j]).kind,
                    ),
                forall|j: int|
                    0 <= j < world_tiles@.len() ==> 0 <= (#[trigger] world_tiles@[j]).position.0
                        < size && 0 <= world_tiles@[j].position.1 < size,
                forall|i: int|
                    0 <= i < world_population@.len() ==> settlement_at(
                        world_tiles@,
                        (#[trigger] world_population@[i]).position,
                    ),
                forall|i: int|
                    0 <= i < world_population@.len() ==> (#[trigger] world_population@[i]).holding
                        is None,
                forall|i: int|
                    0 <= i < world_population@.len() ==> 0 <= (
                    #[trigger] world_population@[i]).position.0 < size && 0
                        <= world_population@[i].position.1 < size,
                forall|i: int|
                    0 <= i < world_population@.len() ==> job_from_table(
                        world_jobs@,
                        (#[trigger] world_population@[i]).job,
                    ),
                world_population@.len() == starting_population_per_city * count_kind(
                    world_tiles@,
                    TileKind::Settlement,
                ),
            decreases size - y,
        {
            let mut x: usize = 0;
            while x < size
                invariant
                    0 <= x <= size,
                    y < size,
                    world_tiles@.len() == y * size + x,
                    forall|j: int|
                        0 <= j < world_tiles@.len() ==> (#[trigger] world_tiles@[j]).position == (
                            (j % (size as int)) as i64,
                            (j / (size as int)) as i64,
                        ),
                    forall|j: int|
                        0 <= j < world_tiles@.len() ==> initial_tile_ok(
                            #[trigger] world_tiles@[j],
                        ),
                    forall|j: int|
                        0 <= j < world_tiles@.len() ==> kind_from_ratios(
                            tile_makeup@,
                            (#[trigger] world_tiles@[j]).kind,
                        ),
                    forall|j: int|
                        0 <= j < world_tiles@.len() ==> 0 <= (
                        #[trigger] world_tiles@[j]).position.0 < size && 0
                            <= world_tiles@[j].position.1 < size,
                    forall|i: int|
                        0 <= i < world_population@.len() ==> settlement_at(
                            world_tiles@,
                            (#[trigger] world_population@[i]).position,
                        ),
                    forall|i: int|
                        0 <= i < world_population@.len() ==> (
                        #[trigger] world_population@[i]).holding is None,
                    forall|i: int|
                        0 <= i < world_population@.len() ==> 0 <= (
                        #[trigger] world_population@[i]).position.0 < size && 0
                            <= world_population@[i].position.1 < size,
                    forall|i: int|
                        0 <= i < world_population@.len() ==> job_from_table(
                            world_jobs@,
                            (#[trigger] world_population@[i]).job,
                        ),
                    world_population@.len() == starting_population_per_city * count_kind(
                        world_tiles@,
                        TileKind::Settlement,
                    ),
                decreases size - x,
            {
                let tile_total = tile_probs[tile_probs.len() - 1].2;
                let rand_tile = random_below(tile_total);
                let tile_kind = sample_probability(&tile_probs, rand_tile);
                proof {
                    // the sampled kind is a listed category whose interval
                    // contains the draw, so its weight is positive
                    let i = choose|i: int|
                        #[trigger] crate::prob::entry_contains(tile_probs@, i, rand_tile)
                            && tile_kind == tile_probs@[i].0;
                    assert(tile_makeup@[i].1 > 0);
                    assert(kind_from_ratios(tile_makeup@, tile_kind));
                }
                let mut holding = Inventory::new();
                match tile_kind {
                    TileKind::Open => {}
                    TileKind::ResourceSite => {
                        holding.raw_material = random_below(1000);
                    }
                    TileKind::Settlement => {}
                }
                let tile = Tile {
                    kind: tile_kind,
                    position: (x as i64, y as i64),
                    holding: holding,
                };
                proof {
                    vstd::arithmetic::div_mod::lemma_fundamental_div_mod_converse(
                        (y as int) * (size as int) + (x as int),
                        size as int,
                        y as int,
                        x as int,
                    );
                    assert(world_tiles@.push(tile).drop_last() =~= world_tiles@);
                    assert(world_tiles@.push(tile).last() == tile);
                    let c = count_kind(world_tiles@, TileKind::Settlement);
                    assert(starting_population_per_city * (c + 1) == starting_population_per_city
                        * c + starting_population_per_city) by (nonlinear_arith);
                    assert forall|i: int| 0 <= i < world_population@.len() implies settlement_at(
                        world_tiles@.push(tile),
                        (#[trigger] world_population@[i]).position,
                    ) by {
                        lemma_settlement_at_push(
                            world_tiles@,
                            tile,
                            world_population@[i].position,
                        );
                    }
                }
                world_tiles.push(tile);
                if tile_kind == TileKind::Settlement {
                    proof {
                        assert(world_tiles@[world_tiles@.len() - 1] == tile);
                        assert(settlement_at(world_tiles@, (x as i64, y as i64)));
                    }
                    let ghost pop_before = world_population@.len();
                    let mut p: usize = 0;
                    while p < starting_population_per_city
                        invariant
                            0 <= p <= starting_population_per_city,
                            world_population@.len() == pop_before + p,
                            forall|i: int|
                                0 <= i < world_population@.len() ==> (
                                #[trigger] world_population@[i]).holding is None,
                            forall|i: int|
                                0 <= i < world_population@.len() ==> 0 <= (
                                #[trigger] world_population@[i]).position.0 < size && 0
                                    <= world_population@[i].position.1 < size,
                            forall|i: int|
                                0 <= i < world_population@.len() ==> job_from_table(
                                    world_jobs@,
                                    (#[trigger] world_population@[i]).job,
                                ),
                            forall|i: int|
                                0 <= i < world_population@.len() ==> settlement_at(
                                    world_tiles@,
                                    (#[trigger] world_population@[i]).position,
                                ),
                        decreases starting_population_per_city - p,
                    {
                        world_population.push(
                            World::birth_peep((x as i64, y as i64), &world_jobs),
                        );
                        p = p + 1;
                    }
                }
                x = x + 1;
            }
            proof {
                assert((y + 1) * (size as int) == y * (size as int) + size) by (nonlinear_arith);
            }
            y = y + 1;
        }
        let wt = WorldTiles { size: (size, size), tiles: world_tiles };
        proof {
            assert forall|xx: int, yy: int| 0 <= xx < size && 0 <= yy < size implies (
            #[trigger] wt.tile_at_spec(xx, yy)).position == (xx as i64, yy as i64) by {
                assert(0 <= yy * (size as int) + xx < (size as int) * (size as int))
                    by (nonlinear_arith)
                    requires
                        0 <= xx < size,
                        0 <= yy < size,
                ;
                vstd::arithmetic::div_mod::lemma_fundamental_div_mod_converse(
                    yy * (size as int) + xx,
                    size as int,
                    yy,
                    xx,
                );
            }
            assert forall|i: int| 0 <= i < world_population@.len() implies wt.tile_candidate(
                (#[trigger] world_population@[i]).position,
                TileKind::Settlement,
            ) by {
                let pos = world_population@[i].position;
                assert(settlement_at(wt.tiles@, pos));
                let j = choose|j: int|
                    0 <= j < wt.tiles@.len() && (#[trigger] wt.tiles@[j]).kind
                        == TileKind::Settlement && wt.tiles@[j].position == pos;
                let q = j / (size as int);
                let rr = j % (size as int);
                vstd::arithmetic::div_mod::lemma_fundamental_div_mod(j, size as int);
                vstd::arithmetic::div_mod::lemma_mod_division_less_than_divisor(j, size as int);
                assert(0 <= q < size) by (nonlinear_arith)
                    requires
                        j == (size as int) * q + rr,
                        0 <= rr < (size as int),
                        0 <= j < (size as int) * (size as int),
                ;
                assert(pos == (rr as i64, q as i64));
                assert((pos.1 as int) * (size as int) + (pos.0 as int) == j) by (nonlinear_arith)
                    requires
                        j == (size as int) * q + rr,
                        pos.1 as int == q,
                        pos.0 as int == rr,
                ;
                assert(wt.tile_at_spec(pos.0 as int, pos.1 as int) == wt.tiles@[j]);
            }
        }
        Some(
            World {
                job_probabilities: world_jobs,
                tiles: wt,
                pop: world_population,
                steps: 0,
            },
        )
    }

    /// One tick of the simulation clock: run the behavior engine over all
    /// agents in storage order, then the growth procedure, then advance
    /// the step counter. The agents act exactly as the behavior engine
    /// dictates, each against the grid as the agents before it left it;
    /// the grid keeps its dimensions (and, being well-formed, every tile
    /// keeps its position); no agent is ever removed or changes job;
    /// agents appended by growth carry nothing, have a job from the
    /// world's table, and stand on a settlement tile, and at most one is
    /// appended per resident pair counted at the settlements after the
    /// behavior phase.
    #[verifier::loop_isolation(false)]
    pub fn step_simulation(&mut self)
        requires
            old(self).wf(),
            old(self).steps < usize::MAX,
        ensures
            final(self).wf(),
            final(self).steps == old(self).steps + 1,
            final(self).tiles.size == old(self).tiles.size,
            final(self).job_probabilities == old(self).job_probabilities,
            old(self).pop@.len() <= final(self).pop@.len(),
            forall|i: int|
                0 <= i < old(self).pop@.len() ==> (#[trigger] final(self).pop@[i]).job
                    == old(self).pop@[i].job,
            forall|i: int|
                old(self).pop@.len() <= i < final(self).pop@.len()
                    ==> (#[trigger] final(self).pop@[i]).holding is None
                    && final(self).tiles.tile_candidate(
                    final(self).pop@[i].position,
                    TileKind::Settlement,
                ) && job_from_table(
                    final(self).job_probabilities@,
                    final(self).pop@[i].job,
                ),
            exists|mid: Seq<Peepl>|
                #[trigger] agents_acted(old(self).tiles, old(self).pop@, final(self).tiles, mid)
                    && final(self).pop@.subrange(0, old(self).pop@.len() as int) == mid
                    && final(self).pop@.len() <= mid.len() + growth_capacity(
                    final(self).tiles.tiles@,
                    mid,
                ),
            old(self).pop@.len() == 0 ==> final(self).pop@.len() == 0,
    {
        // Behavior phase: every agent acts, in storage order.
        let mut i: usize = 0;
        while i < self.pop.len()
            invariant
                0 <= i <= self.pop@.len(),
                self.tiles.wf(),
                self.tiles.size == old(self).tiles.size,
                self.pop@.len() == old(self).pop@.len(),
                self.job_probabilities == old(self).job_probabilities,
                self.steps == old(self).steps,
                forall|j: int|
                    0 <= j < self.pop@.len() ==> self.tiles.in_bounds(
                        (#[trigger] self.pop@[j]).position,
                    ),
                forall|j: int|
                    0 <= j < self.pop@.len() ==> (#[trigger] self.pop@[j]).job == old(
                        self,
                    ).pop@[j].job,
                forall|j: int|
                    i <= j < self.pop@.len() ==> #[trigger] self.pop@[j] == old(self).pop@[j],
                agents_acted(
                    old(self).tiles,
                    old(self).pop@.subrange(0, i as int),
                    self.tiles,
                    self.pop@.subrange(0, i as int),
                ),
            decreases self.pop@.len() - i,
        {
            let ghost tiles_before = self.tiles;
            let ghost pop_before = self.pop@;
            let mut peep = self.pop[i];
            act(&mut self.tiles, &mut peep);
            self.pop.set(i, peep);
            proof {
                lemma_agents_acted_push(
                    old(self).tiles,
                    old(self).pop@.subrange(0, i as int),
                    tiles_before,
                    pop_before.subrange(0, i as int),
                    old(self).pop@[i as int],
                    self.tiles,
                    peep,
                );
                assert(old(self).pop@.subrange(0, i + 1) =~= old(self).pop@.subrange(
                    0,
                    i as int,
                ).push(old(self).pop@[i as int]));
                assert(self.pop@.subrange(0, i + 1) =~= pop_before.subrange(0, i as int).push(
                    peep,
                ));
            }
            i = i + 1;
        }
        let ghost mid_pop = self.pop@;
        proof {
            assert(old(self).pop@.subrange(0, old(self).pop@.len() as int) =~= old(self).pop@);
            assert(mid_pop.subrange(0, mid_pop.len() as int) =~= mid_pop);
            assert(agents_acted(old(self).tiles, old(self).pop@, self.tiles, mid_pop));
        }
        // Growth phase: census every settlement, then draw one growth
        // chance per resident pair. Newborns join only after the full pass.
        let mut new_population: Vec<Peepl> = Vec::new();
        let w = self.tiles.size.0;
        let h = self.tiles.size.1;
        proof {
            assert(self.tiles.tiles@.subrange(0, 0) =~= Seq::<Tile>::empty());
        }
        let mut y: usize = 0;
        while y < h
            invariant
                0 <= y <= h,
                forall|k: int|
                    0 <= k < new_population@.len() ==> (#[trigger] new_population@[k]).holding
                        is None && self.tiles.tile_candidate(
                        new_population@[k].position,
                        TileKind::Settlement,
                    ) && job_from_table(self.job_probabilities@, new_population@[k].job),
                self.pop@.len() == 0 ==> new_population@.len() == 0,
                new_population@.len() <= growth_capacity(
                    self.tiles.tiles@.subrange(0, (y as int) * (w as int)),
                    self.pop@,
                ),
            decreases h - y,
        {
            let mut x: usize = 0;
            while x < w
                invariant
                    0 <= x <= w,
                    y < h,
                    forall|k: int|
                        0 <= k < new_population@.len() ==> (#[trigger] new_population@[k]).holding
                            is None && self.tiles.tile_candidate(
                            new_population@[k].position,
                            TileKind::Settlement,
                        ) && job_from_table(self.job_probabilities@, new_population@[k].job),
                    self.pop@.len() == 0 ==> new_population@.len() == 0,
                    new_population@.len() <= growth_capacity(
                        self.tiles.tiles@.subrange(0, (y as int) * (w as int) + x),
                        self.pop@,
                    ),
                decreases w - x,
            {
                let (kind, tile_pos) = {
                    let tile = self.tiles.get_tile_at_pos(x as i64, y as i64);
                    (tile.kind, tile.position)
                };
                if kind == TileKind::Settlement {
                    let occupancy = count_residents(&self.pop, tile_pos);
                    let pairs_of_peepl = occupancy / 2;
                    let ghost newborns_before = new_population@.len();
                    let mut k: usize = 0;
                    while k < pairs_of_peepl
                        invariant
                            0 <= k <= pairs_of_peepl,
                            new_population@.len() <= newborns_before + k,
                            forall|k2: int|
                                0 <= k2 < new_population@.len() ==> (
                                #[trigger] new_population@[k2]).holding is None
                                    && self.tiles.tile_candidate(
                                    new_population@[k2].position,
                                    TileKind::Settlement,
                                ) && job_from_table(
                                    self.job_probabilities@,
                                    new_population@[k2].job,
                                ),
                            self.pop@.len() == 0 ==> new_population@.len() == 0,
                        decreases pairs_of_peepl - k,
                    {
                        let roll = random_below(1000);
                        if roll <= 2 {
                            new_population.push(
                                World::birth_peep(tile_pos, &self.job_probabilities),
                            );
                        }
                        k = k + 1;
                    }
                }
                proof {
                    let idx = (y as int) * (w as int) + (x as int);
                    assert(0 <= (y as int) * (w as int) + (x as int)
                        < self.tiles.tiles@.len()) by (nonlinear_arith)
                        requires
                            x < w,
                            y < h,
                            self.tiles.tiles@.len() == (w as int) * (h as int),
                    ;
                    assert(self.tiles.tiles@.subrange(0, idx + 1).drop_last()
                        =~= self.tiles.tiles@.subrange(0, idx));
                    assert(self.tiles.tiles@.subrange(0, idx + 1).last()
                        == self.tiles.tiles@[idx]);
                    assert(self.tiles.tiles@[idx] == self.tiles.tile_at_spec(
                        x as int,
                        y as int,
                    ));
                }
                x = x + 1;
            }
            proof {
                assert((y + 1) * (w as int) == y * (w as int) + w) by (nonlinear_arith);
            }
            y = y + 1;
        }
        proof {
            assert((h as int) * (w as int) == (w as int) * (h as int)) by (nonlinear_arith);
            assert(self.tiles.tiles@.subrange(0, (h as int) * (w as int)) =~= self.tiles.tiles@);
            assert(new_population@.len() <= growth_capacity(self.tiles.tiles@, mid_pop));
        }
        self.pop.append(&mut new_population);
        self.steps = self.steps + 1;
        proof {
            assert(self.pop@.subrange(0, old(self).pop@.len() as int) =~= mid_pop);
            assert(agents_acted(old(self).tiles, old(self).pop@, self.tiles, mid_pop));
        }
    }
}

} // verus!
