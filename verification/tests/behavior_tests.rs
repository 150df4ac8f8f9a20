use peepl_sim::behavior::act;
use peepl_sim::Inventory;
use peepl_sim::Job;
use peepl_sim::Peepl;
use peepl_sim::ResourceKind;
use peepl_sim::Tile;
use peepl_sim::TileKind;
use peepl_sim::WorldTiles;

fn grid_from(kinds: Vec<Vec<(TileKind, u64, u64)>>) -> WorldTiles {
    let h = kinds.len();
    let w = kinds[0].len();
    let mut tiles = Vec::new();
    for (y, row) in kinds.iter().enumerate() {
        for (x, (kind, raw, processed)) in row.iter().enumerate() {
            tiles.push(Tile {
                kind: *kind,
                position: (x as i64, y as i64),
                holding: Inventory { raw_material: *raw, processed_material: *processed },
            });
        }
    }
    WorldTiles { size: (w, h), tiles }
}

#[test]
fn harvester_gathers_from_a_resource_site() {
    let mut wt = grid_from(vec![vec![(TileKind::ResourceSite, 5, 0)]]);
    let mut p = Peepl { position: (0, 0), holding: None, job: Job::Harvester };
    act(&mut wt, &mut p);
    assert_eq!(p.holding, Some(ResourceKind::RawMaterial));
    assert_eq!(p.position, (0, 0));
    let t = wt.get_tile_at_pos(0, 0);
    assert_eq!(t.holding.raw_material, 4);
    assert_eq!(t.kind, TileKind::ResourceSite);
}

#[test]
fn exhausted_resource_site_reverts_to_open_on_the_same_tick() {
    let mut wt = grid_from(vec![vec![(TileKind::ResourceSite, 1, 0)]]);
    let mut p = Peepl { position: (0, 0), holding: None, job: Job::Harvester };
    act(&mut wt, &mut p);
    let t = wt.get_tile_at_pos(0, 0);
    assert_eq!(t.holding.raw_material, 0);
    assert_eq!(t.kind, TileKind::Open);
    assert_eq!(p.holding, Some(ResourceKind::RawMaterial));
}

#[test]
fn harvester_moves_toward_raw_material_when_it_cannot_gather() {
    let mut wt = grid_from(vec![
        vec![(TileKind::Open, 0, 0), (TileKind::Open, 0, 0), (TileKind::Open, 0, 0)],
        vec![(TileKind::Open, 0, 0), (TileKind::Open, 0, 0), (TileKind::Open, 0, 0)],
        vec![(TileKind::Open, 0, 0), (TileKind::Open, 0, 0), (TileKind::ResourceSite, 3, 0)],
    ]);
    let mut p = Peepl { position: (0, 0), holding: None, job: Job::Harvester };
    act(&mut wt, &mut p);
    assert_eq!(p.position, (1, 1));
    assert_eq!(p.holding, None);
    assert_eq!(wt.get_tile_at_pos(2, 2).holding.raw_material, 3);
}

#[test]
fn harvester_stays_put_when_no_target_exists() {
    let mut wt = grid_from(vec![vec![(TileKind::Open, 0, 0), (TileKind::Open, 0, 0)]]);
    let mut p = Peepl { position: (1, 0), holding: None, job: Job::Harvester };
    act(&mut wt, &mut p);
    assert_eq!(p.position, (1, 0));
    assert_eq!(p.holding, None);
}

#[test]
fn harvester_deposits_raw_material_at_a_settlement() {
    let mut wt = grid_from(vec![vec![(TileKind::Settlement, 2, 0)]]);
    let mut p = Peepl {
        position: (0, 0),
        holding: Some(ResourceKind::RawMaterial),
        job: Job::Harvester,
    };
    act(&mut wt, &mut p);
    assert_eq!(p.holding, None);
    assert_eq!(wt.get_tile_at_pos(0, 0).holding.raw_material, 3);
    assert_eq!(wt.get_tile_at_pos(0, 0).kind, TileKind::Settlement);
}

#[test]
fn carrying_harvester_walks_toward_the_nearest_settlement() {
    let mut wt = grid_from(vec![
        vec![(TileKind::Open, 0, 0), (TileKind::Open, 0, 0), (TileKind::Settlement, 0, 0)],
    ]);
    let mut p = Peepl {
        position: (0, 0),
        holding: Some(ResourceKind::RawMaterial),
        job: Job::Harvester,
    };
    act(&mut wt, &mut p);
    assert_eq!(p.position, (1, 0));
    assert_eq!(p.holding, Some(ResourceKind::RawMaterial));
}

#[test]
fn processor_takes_raw_material_from_a_settlement_store() {
    let mut wt = grid_from(vec![vec![(TileKind::Settlement, 4, 0)]]);
    let mut p = Peepl { position: (0, 0), holding: None, job: Job::Processor };
    act(&mut wt, &mut p);
    assert_eq!(p.holding, Some(ResourceKind::RawMaterial));
    assert_eq!(wt.get_tile_at_pos(0, 0).holding.raw_material, 3);
}

#[test]
fn processor_converts_in_place_on_a_settlement() {
    let mut wt = grid_from(vec![vec![(TileKind::Settlement, 4, 9)]]);
    let mut p = Peepl {
        position: (0, 0),
        holding: Some(ResourceKind::RawMaterial),
        job: Job::Processor,
    };
    act(&mut wt, &mut p);
    assert_eq!(p.holding, Some(ResourceKind::ProcessedMaterial));
    // the conversion consumes only the carried unit: the tile is unaffected
    assert_eq!(wt.get_tile_at_pos(0, 0).holding.raw_material, 4);
    assert_eq!(wt.get_tile_at_pos(0, 0).holding.processed_material, 9);
}

#[test]
fn carrying_processor_walks_toward_the_nearest_settlement() {
    let mut wt = grid_from(vec![
        vec![(TileKind::Open, 0, 0), (TileKind::Open, 0, 0), (TileKind::Settlement, 0, 0)],
    ]);
    let mut p = Peepl {
        position: (0, 0),
        holding: Some(ResourceKind::RawMaterial),
        job: Job::Processor,
    };
    act(&mut wt, &mut p);
    assert_eq!(p.position, (1, 0));
    assert_eq!(p.holding, Some(ResourceKind::RawMaterial));
}

#[test]
fn processor_deposits_processed_material_at_a_settlement() {
    let mut wt = grid_from(vec![vec![(TileKind::Settlement, 0, 5)]]);
    let mut p = Peepl {
        position: (0, 0),
        holding: Some(ResourceKind::ProcessedMaterial),
        job: Job::Processor,
    };
    act(&mut wt, &mut p);
    assert_eq!(p.holding, None);
    assert_eq!(wt.get_tile_at_pos(0, 0).holding.processed_material, 6);
}

#[test]
fn builder_takes_processed_material_from_a_settlement() {
    let mut wt = grid_from(vec![vec![(TileKind::Settlement, 0, 2)]]);
    let mut p = Peepl { position: (0, 0), holding: None, job: Job::Builder };
    act(&mut wt, &mut p);
    assert_eq!(p.holding, Some(ResourceKind::ProcessedMaterial));
    assert_eq!(wt.get_tile_at_pos(0, 0).holding.processed_material, 1);
}

#[test]
fn builder_deposit_over_the_threshold_founds_a_settlement() {
    let mut wt = grid_from(vec![vec![(TileKind::Open, 0, 200)]]);
    let mut p = Peepl {
        position: (0, 0),
        holding: Some(ResourceKind::ProcessedMaterial),
        job: Job::Builder,
    };
    act(&mut wt, &mut p);
    assert_eq!(p.holding, None);
    let t = wt.get_tile_at_pos(0, 0);
    assert_eq!(t.holding.processed_material, 201);
    assert_eq!(t.kind, TileKind::Settlement);
}

#[test]
fn builder_deposit_reaching_exactly_the_threshold_does_not_found() {
    let mut wt = grid_from(vec![vec![(TileKind::Open, 0, 199)]]);
    let mut p = Peepl {
        position: (0, 0),
        holding: Some(ResourceKind::ProcessedMaterial),
        job: Job::Builder,
    };
    act(&mut wt, &mut p);
    let t = wt.get_tile_at_pos(0, 0);
    assert_eq!(t.holding.processed_material, 200);
    assert_eq!(t.kind, TileKind::Open);
}

#[test]
fn carrying_builder_walks_toward_open_ground() {
    let mut wt = grid_from(vec![
        vec![(TileKind::Settlement, 0, 0), (TileKind::Settlement, 0, 0), (TileKind::Open, 0, 0)],
    ]);
    let mut p = Peepl {
        position: (0, 0),
        holding: Some(ResourceKind::ProcessedMaterial),
        job: Job::Builder,
    };
    act(&mut wt, &mut p);
    assert_eq!(p.position, (1, 0));
    assert_eq!(p.holding, Some(ResourceKind::ProcessedMaterial));
}

#[test]
fn harvester_cycle_conserves_the_moved_unit() {
    // gather at the site, walk one step, deposit at the settlement: the
    // site ends one unit down and the settlement one unit up
    let mut wt = grid_from(vec![
        vec![(TileKind::ResourceSite, 3, 0), (TileKind::Settlement, 0, 0)],
    ]);
    let mut p = Peepl { position: (0, 0), holding: None, job: Job::Harvester };
    act(&mut wt, &mut p);
    assert_eq!(p.holding, Some(ResourceKind::RawMaterial));
    act(&mut wt, &mut p);
    assert_eq!(p.position, (1, 0));
    act(&mut wt, &mut p);
    assert_eq!(p.holding, None);
    assert_eq!(wt.get_tile_at_pos(0, 0).holding.raw_material, 2);
    assert_eq!(wt.get_tile_at_pos(1, 0).holding.raw_material, 1);
}
