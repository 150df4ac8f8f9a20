use peepl_sim::Inventory;
use peepl_sim::Job;
use peepl_sim::Peepl;
use peepl_sim::ResourceKind;
use peepl_sim::Tile;
use peepl_sim::TileKind;
use peepl_sim::World;
use peepl_sim::WorldTiles;

fn grid_from(kinds: Vec<Vec<(TileKind, u64, u64)>>) -> WorldTiles {
    let h = kinds.len();
    let w = kinds[0].len();
    let mut tiles = Vec::new();
    for (y, row) in kinds.iter().enumerate() {
        for (x, (kind, raw, processed)) in row.iter().enumerate() {
            tiles.push(Tile {
                kind: *kind,
                position: (x as i64, y as i64),
                holding: Inventory { raw_material: *raw, processed_material: *processed },
            });
        }
    }
    WorldTiles { size: (w, h), tiles }
}

fn harvester_only_table() -> Vec<(Job, u64, u64)> {
    vec![(Job::Harvester, 0, 1)]
}

#[test]
fn count_residents_counts_positions() {
    let pop = vec![
        Peepl { position: (0, 0), holding: None, job: Job::Harvester },
        Peepl { position: (1, 0), holding: None, job: Job::Builder },
        Peepl { position: (0, 0), holding: None, job: Job::Processor },
    ];
    assert_eq!(peepl_sim::world::count_residents(&pop, (0, 0)), 2);
    assert_eq!(peepl_sim::world::count_residents(&pop, (1, 0)), 1);
    assert_eq!(peepl_sim::world::count_residents(&pop, (2, 2)), 0);
}

#[test]
fn count_job_counts_jobs() {
    let world = World {
        job_probabilities: harvester_only_table(),
        tiles: grid_from(vec![vec![(TileKind::Open, 0, 0)]]),
        pop: vec![
            Peepl { position: (0, 0), holding: None, job: Job::Harvester },
            Peepl { position: (0, 0), holding: None, job: Job::Harvester },
            Peepl { position: (0, 0), holding: None, job: Job::Builder },
        ],
        steps: 0,
    };
    assert_eq!(world.count_job(Job::Harvester), 2);
    assert_eq!(world.count_job(Job::Builder), 1);
    assert_eq!(world.count_job(Job::Processor), 0);
}

#[test]
fn birth_peep_is_empty_handed_at_the_given_position() {
    let table = harvester_only_table();
    let p = World::birth_peep((3, 4), &table);
    assert_eq!(p.position, (3, 4));
    assert_eq!(p.holding, None);
    assert_eq!(p.job, Job::Harvester);
}

#[test]
fn birth_peep_samples_only_listed_jobs() {
    let ratios = vec![(Job::Processor, 1u64), (Job::Builder, 1u64)];
    let table = peepl_sim::prob::calculate_probability(&ratios).unwrap();
    for _ in 0..50 {
        let p = World::birth_peep((0, 0), &table);
        assert!(matches!(p.job, Job::Processor | Job::Builder));
    }
}

#[test]
fn generate_world_lays_out_a_square_grid() {
    let jobs = vec![(Job::Harvester, 1u64), (Job::Processor, 1u64), (Job::Builder, 2u64)];
    let tiles = vec![
        (TileKind::Settlement, 1u64),
        (TileKind::ResourceSite, 6u64),
        (TileKind::Open, 3u64),
    ];
    let world = World::generate_world(8, 5, jobs, tiles).unwrap();
    assert_eq!(world.steps, 0);
    assert_eq!(world.tiles.size, (8, 8));
    assert_eq!(world.tiles.tiles.len(), 64);
    let mut settlements: usize = 0;
    for y in 0..8i64 {
        for x in 0..8i64 {
            let t = world.tiles.get_tile_at_pos(x, y);
            assert_eq!(t.position, (x, y));
            match t.kind {
                TileKind::Open | TileKind::Settlement => {
                    assert_eq!(t.holding.raw_material, 0);
                    assert_eq!(t.holding.processed_material, 0);
                }
                TileKind::ResourceSite => {
                    // the random endowment always lies below a thousand
                    assert!(t.holding.raw_material < 1000);
                    assert_eq!(t.holding.processed_material, 0);
                }
            }
            if t.kind == TileKind::Settlement {
                settlements += 1;
            }
        }
    }
    assert_eq!(world.pop.len(), 5 * settlements);
    for p in world.pop.iter() {
        assert!(p.holding.is_none());
        assert!(p.position.0 >= 0 && p.position.0 < 8);
        assert!(p.position.1 >= 0 && p.position.1 < 8);
    }
}

#[test]
fn resource_endowments_stay_below_the_cap() {
    let jobs = vec![(Job::Harvester, 1u64)];
    let tiles = vec![(TileKind::ResourceSite, 1u64)];
    let world = World::generate_world(6, 3, jobs, tiles).unwrap();
    assert_eq!(world.tiles.tiles.len(), 36);
    for t in world.tiles.tiles.iter() {
        assert_eq!(t.kind, TileKind::ResourceSite);
        assert!(t.holding.raw_material < 1000);
    }
    // no settlements, so nobody was birthed
    assert_eq!(world.pop.len(), 0);
}

#[test]
fn generate_world_rejects_zero_weight_tables() {
    let jobs = vec![(Job::Harvester, 0u64)];
    let tiles = vec![(TileKind::Open, 1u64)];
    assert!(World::generate_world(2, 1, jobs, tiles).is_none());
    let jobs = vec![(Job::Harvester, 1u64)];
    let tiles = vec![(TileKind::Open, 0u64)];
    assert!(World::generate_world(2, 1, jobs, tiles).is_none());
}

#[test]
fn a_step_advances_the_counter_even_with_nobody_around() {
    let mut world = World {
        job_probabilities: harvester_only_table(),
        tiles: grid_from(vec![vec![(TileKind::Open, 0, 0)]]),
        pop: Vec::new(),
        steps: 0,
    };
    world.step_simulation();
    world.step_simulation();
    assert_eq!(world.steps, 2);
    assert_eq!(world.pop.len(), 0);
}

#[test]
fn two_settlers_make_one_pair_and_at_most_one_newborn() {
    // one settlement, two harvesters standing on it: the census finds an
    // occupancy of two, so exactly one pair draws one growth chance
    let mut world = World {
        job_probabilities: harvester_only_table(),
        tiles: grid_from(vec![vec![(TileKind::Settlement, 0, 0)]]),
        pop: vec![
            Peepl { position: (0, 0), holding: None, job: Job::Harvester },
            Peepl { position: (0, 0), holding: None, job: Job::Harvester },
        ],
        steps: 0,
    };
    world.step_simulation();
    assert_eq!(world.steps, 1);
    assert!(world.pop.len() == 2 || world.pop.len() == 3);
    for p in world.pop.iter() {
        assert_eq!(p.position, (0, 0));
        assert!(p.holding.is_none());
    }
}

#[test]
fn a_lone_resident_never_breeds() {
    let mut world = World {
        job_probabilities: harvester_only_table(),
        tiles: grid_from(vec![vec![(TileKind::Settlement, 0, 0)]]),
        pop: vec![Peepl { position: (0, 0), holding: None, job: Job::Harvester }],
        steps: 0,
    };
    for _ in 0..20 {
        world.step_simulation();
    }
    assert_eq!(world.pop.len(), 1);
    assert_eq!(world.steps, 20);
}

#[test]
fn a_distant_harvester_reaches_and_exhausts_the_last_site() {
    // a three-by-three world, one resource site holding a single unit at
    // the far corner, one harvester starting at the origin: Chebyshev
    // distance two, so after four ticks the unit is gathered and the site
    // has reverted to open ground
    let mut world = World {
        job_probabilities: harvester_only_table(),
        tiles: grid_from(vec![
            vec![(TileKind::Open, 0, 0), (TileKind::Open, 0, 0), (TileKind::Open, 0, 0)],
            vec![(TileKind::Open, 0, 0), (TileKind::Open, 0, 0), (TileKind::Open, 0, 0)],
            vec![(TileKind::Open, 0, 0), (TileKind::Open, 0, 0), (TileKind::ResourceSite, 1, 0)],
        ]),
        pop: vec![Peepl { position: (0, 0), holding: None, job: Job::Harvester }],
        steps: 0,
    };
    world.step_simulation();
    assert_eq!(world.pop[0].position, (1, 1));
    world.step_simulation();
    assert_eq!(world.pop[0].position, (2, 2));
    world.step_simulation();
    world.step_simulation();
    assert_eq!(world.pop[0].position, (2, 2));
    assert_eq!(world.pop[0].holding, Some(ResourceKind::RawMaterial));
    let site = world.tiles.get_tile_at_pos(2, 2);
    assert_eq!(site.kind, TileKind::Open);
    assert_eq!(site.holding.raw_material, 0);
    assert_eq!(world.pop.len(), 1);
}

#[test]
fn later_agents_see_earlier_mutations_within_a_tick() {
    // two harvesters on a site holding a single unit: the first empties
    // it, so the second finds nothing and goes on empty-handed
    let mut world = World {
        job_probabilities: harvester_only_table(),
        tiles: grid_from(vec![vec![(TileKind::ResourceSite, 1, 0)]]),
        pop: vec![
            Peepl { position: (0, 0), holding: None, job: Job::Harvester },
            Peepl { position: (0, 0), holding: None, job: Job::Harvester },
        ],
        steps: 0,
    };
    world.step_simulation();
    assert_eq!(world.pop[0].holding, Some(ResourceKind::RawMaterial));
    assert_eq!(world.pop[1].holding, None);
    assert_eq!(world.tiles.get_tile_at_pos(0, 0).kind, TileKind::Open);
}
