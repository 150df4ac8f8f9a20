//! The per-tick behavior engine: executing an agent's intent against the
//! tile it stands on.
//!
//! A gather intent succeeds only on a tile of the sought kind with the
//! sought resource available; a deposit intent succeeds only on a tile of
//! the target kind. On failure the agent does not touch the grid and
//! instead moves one step toward the nearest tile that would let the
//! intent succeed, staying put when no such tile exists. None of this
//! fails in the error sense: "no valid target" degenerates to a no-op.

use vstd::prelude::*;
use crate::agent::calculate_movement;
use crate::agent::intent_of;
use crate::agent::move_spec;
use crate::agent::Action;
use crate::agent::Job;
use crate::agent::Peepl;
use crate::grid::grid_same;
use crate::grid::grid_update;
use crate::grid::lemma_wf_after_update;
use crate::grid::lemma_wf_grid_same;
use crate::grid::WorldTiles;
use crate::tile::ResourceKind;
use crate::tile::Tile;
use crate::tile::TileKind;

verus! {

/// The quantity of processed material above which a deposit on open ground
/// founds a new settlement.
pub const SETTLEMENT_THRESHOLD: u64 = 200;

/// The grid did not change, and the agent kept its job and its carried
/// resource but moved one step toward the ring-search result `target`.
pub open spec fn moved_toward(
    t0: WorldTiles,
    p0: Peepl,
    t1: WorldTiles,
    p1: Peepl,
    target: (i64, i64),
) -> bool {
    &&& grid_same(t0, t1)
    &&& p1.job == p0.job
    &&& p1.holding == p0.holding
    &&& p1.position == move_spec(p0.position, target)
}

/// A harvester's gather step. On a resource site holding raw material it
/// takes one unit (the site reverts to open ground when this empties it)
/// and carries the unit away; anywhere else it moves toward the nearest
/// raw material held outside a settlement.
pub open spec fn harvester_gather_rel(t0: WorldTiles, p0: Peepl, t1: WorldTiles, p1: Peepl) -> bool {
    let pos = p0.position;
    let tile = t0.tile_at_spec(pos.0 as int, pos.1 as int);
    if tile.kind == TileKind::ResourceSite && tile.holding.qty(ResourceKind::RawMaterial) > 0 {
        let q1 = (tile.holding.qty(ResourceKind::RawMaterial) - 1) as u64;
        &&& p1 == Peepl { holding: Some(ResourceKind::RawMaterial), ..p0 }
        &&& grid_update(
            t0,
            t1,
            pos,
            Tile {
                kind: if q1 == 0 {
                    TileKind::Open
                } else {
                    TileKind::ResourceSite
                },
                position: tile.position,
                holding: tile.holding.with_qty(ResourceKind::RawMaterial, q1),
            },
        )
    } else {
        exists|target: (i64, i64)|
            #[trigger] t0.nearest_item_post(
                pos,
                ResourceKind::RawMaterial,
                TileKind::Settlement,
                target,
            ) && moved_toward(t0, p0, t1, p1, target)
    }
}

/// A processor's gather step. Carrying raw material on a settlement it
/// converts the carried unit in place into processed material (the tile is
/// unaffected); carrying raw material elsewhere it moves toward the
/// nearest settlement. Empty-handed on a settlement with raw material in
/// store it takes one unit; empty-handed elsewhere it moves toward the
/// nearest raw material held outside a resource site.
pub open spec fn processor_gather_rel(t0: WorldTiles, p0: Peepl, t1: WorldTiles, p1: Peepl) -> bool {
    let pos = p0.position;
    let tile = t0.tile_at_spec(pos.0 as int, pos.1 as int);
    if p0.holding is Some {
        if tile.kind == TileKind::Settlement {
            &&& grid_same(t0, t1)
            &&& p1 == Peepl { holding: Some(ResourceKind::ProcessedMaterial), ..p0 }
        } else {
            exists|target: (i64, i64)|
                #[trigger] t0.nearest_tile_post(pos, TileKind::Settlement, target) && moved_toward(
                    t0,
                    p0,
                    t1,
                    p1,
                    target,
                )
        }
    } else {
        if tile.kind == TileKind::Settlement && tile.holding.qty(ResourceKind::RawMaterial) > 0 {
            &&& p1 == Peepl { holding: Some(ResourceKind::RawMaterial), ..p0 }
            &&& grid_update(
                t0,
                t1,
                pos,
                Tile {
                    kind: tile.kind,
                    position: tile.position,
                    holding: tile.holding.with_qty(
                        ResourceKind::RawMaterial,
                        (tile.holding.qty(ResourceKind::RawMaterial) - 1) as u64,
                    ),
                },
            )
        } else {
            exists|target: (i64, i64)|
                #[trigger] t0.nearest_item_post(
                    pos,
                    ResourceKind::RawMaterial,
                    TileKind::ResourceSite,
                    target,
                ) && moved_toward(t0, p0, t1, p1, target)
        }
    }
}

/// A builder's gather step. On a settlement with processed material in
/// store it takes one unit; anywhere else it moves toward the nearest
/// processed material held outside open ground.
pub open spec fn builder_gather_rel(t0: WorldTiles, p0: Peepl, t1: WorldTiles, p1: Peepl) -> bool {
    let pos = p0.position;
    let tile = t0.tile_at_spec(pos.0 as int, pos.1 as int);
    if tile.kind == TileKind::Settlement && tile.holding.qty(ResourceKind::ProcessedMaterial)
        > 0 {
        &&& p1 == Peepl { holding: Some(ResourceKind::ProcessedMaterial), ..p0 }
        &&& grid_update(
            t0,
            t1,
            pos,
            Tile {
                kind: tile.kind,
                position: tile.position,
                holding: tile.holding.with_qty(
                    ResourceKind::ProcessedMaterial,
                    (tile.holding.qty(ResourceKind::ProcessedMaterial) - 1) as u64,
                ),
            },
        )
    } else {
        exists|target: (i64, i64)|
            #[trigger] t0.nearest_item_post(
                pos,
                ResourceKind::ProcessedMaterial,
                TileKind::Open,
                target,
            ) && moved_toward(t0, p0, t1, p1, target)
    }
}

/// A deposit step for an agent carrying `item` and aiming at tiles of kind
/// `target`. On a tile of the target kind it adds the carried unit to the
/// tile's inventory and goes empty-handed; when `founds` holds (builders
/// only) and the resulting processed quantity exceeds the settlement
/// threshold, the tile is promoted to a settlement — at exactly the
/// threshold it is not. On any other tile the agent moves toward the
/// nearest tile of the target kind.
pub open spec fn deposit_rel(
    t0: WorldTiles,
    p0: Peepl,
    t1: WorldTiles,
    p1: Peepl,
    item: ResourceKind,
    target: TileKind,
    founds: bool,
) -> bool {
    let pos = p0.position;
    let tile = t0.tile_at_spec(pos.0 as int, pos.1 as int);
    if tile.kind == target {
        let q1 = if tile.holding.qty(item) == u64::MAX {
            u64::MAX
        } else {
            (tile.holding.qty(item) + 1) as u64
        };
        &&& p1 == Peepl { holding: None, ..p0 }
        &&& grid_update(
            t0,
            t1,
            pos,
            Tile {
                kind: if founds && q1 > SETTLEMENT_THRESHOLD {
                    TileKind::Settlement
                } else {
                    tile.kind
                },
                position: tile.position,
                holding: tile.holding.with_qty(item, q1),
            },
        )
    } else {
        exists|tp: (i64, i64)|
            #[trigger] t0.nearest_tile_post(pos, target, tp) && moved_toward(t0, p0, t1, p1, tp)
    }
}

/// One agent's full tick: the effect its intent — decided from its job and
/// carried resource alone — has on the grid and on the agent itself.
pub open spec fn peep_step_rel(t0: WorldTiles, p0: Peepl, t1: WorldTiles, p1: Peepl) -> bool {
    match intent_of(p0.job, p0.holding) {
        Action::Gather(_) => match p0.job {
            Job::Harvester => harvester_gather_rel(t0, p0, t1, p1),
            Job::Processor => processor_gather_rel(t0, p0, t1, p1),
            Job::Builder => builder_gather_rel(t0, p0, t1, p1),
        },
        Action::Deposit(target) => deposit_rel(
            t0,
            p0,
            t1,
            p1,
            p0.holding->0,
            target,
            p0.job == Job::Builder,
        ),
    }
}

/// The behavior phase of one tick: the agents of `pop0` acted one after
/// the other, in storage order, each against the grid as the agents before
/// it left it — so later agents observe tile mutations made by earlier
/// agents in the same tick — turning grid `t0` into `t1` and the agents
/// into `pop1`.
pub open spec fn agents_acted(
    t0: WorldTiles,
    pop0: Seq<Peepl>,
    t1: WorldTiles,
    pop1: Seq<Peepl>,
) -> bool
    decreases pop0.len(),
{
    if pop0.len() == 0 {
        t1 == t0 && pop1.len() == 0
    } else if pop1.len() != pop0.len() {
        false
    } else {
        exists|tm: WorldTiles|
            #[trigger] peep_step_rel(t0, pop0[0], tm, pop1[0]) && agents_acted(
                tm,
                pop0.drop_first(),
                t1,
                pop1.drop_first(),
            )
    }
}

/// A chain of acted agents extends at its end: after the agents of `s0`
/// have acted and one more agent acts on the resulting grid, the whole
/// list has acted.
pub proof fn lemma_agents_acted_push(
    t0: WorldTiles,
    s0: Seq<Peepl>,
    t1: WorldTiles,
    s1: Seq<Peepl>,
    p: Peepl,
    t2: WorldTiles,
    q: Peepl,
)
    requires
        agents_acted(t0, s0, t1, s1),
        peep_step_rel(t1, p, t2, q),
    ensures
        agents_acted(t0, s0.push(p), t2, s1.push(q)),
    decreases s0.len(),
{
    if s0.len() == 0 {
        assert(s0.push(p)[0] == p);
        assert(s1.push(q)[0] == q);
        assert(s0.push(p).drop_first() =~= Seq::<Peepl>::empty());
        assert(s1.push(q).drop_first() =~= Seq::<Peepl>::empty());
        assert(agents_acted(t2, s0.push(p).drop_first(), t2, s1.push(q).drop_first()));
        assert(peep_step_rel(t0, p, t2, q));
    } else {
        let tm = choose|tm: WorldTiles|
            #[trigger] peep_step_rel(t0, s0[0], tm, s1[0]) && agents_acted(
                tm,
                s0.drop_first(),
                t1,
                s1.drop_first(),
            );
        lemma_agents_acted_push(tm, s0.drop_first(), t1, s1.drop_first(), p, t2, q);
        assert(s0.push(p).drop_first() =~= s0.drop_first().push(p));
        assert(s1.push(q).drop_first() =~= s1.drop_first().push(q));
        assert(s0.push(p)[0] == s0[0]);
        assert(s1.push(q)[0] == s1[0]);
        assert(peep_step_rel(t0, s0.push(p)[0], tm, s1.push(q)[0]) && agents_acted(
            tm,
            s0.push(p).drop_first(),
            t2,
            s1.push(q).drop_first(),
        ));
    }
}

/// A resource site emptied by a gather reverts on that same tick: when a
/// harvester's gather succeeds on a site holding exactly one unit of raw
/// material, the tile's kind is open ground afterwards; with more than one
/// unit in store it stays a resource site.
pub proof fn lemma_exhausted_site_reverts(t0: WorldTiles, p0: Peepl, t1: WorldTiles, p1: Peepl)
    requires
        t0.wf(),
        t0.in_bounds(p0.position),
        t0.tile_at_spec(p0.position.0 as int, p0.position.1 as int).kind == TileKind::ResourceSite,
        t0.tile_at_spec(p0.position.0 as int, p0.position.1 as int).holding.qty(
            ResourceKind::RawMaterial,
        ) > 0,
        harvester_gather_rel(t0, p0, t1, p1),
    ensures
        t1.tile_at_spec(p0.position.0 as int, p0.position.1 as int).kind == (if t0.tile_at_spec(
            p0.position.0 as int,
            p0.position.1 as int,
        ).holding.qty(ResourceKind::RawMaterial) == 1 {
            TileKind::Open
        } else {
            TileKind::ResourceSite
        }),
{
    let pos = p0.position;
    let tile = t0.tile_at_spec(pos.0 as int, pos.1 as int);
    let q1 = (tile.holding.qty(ResourceKind::RawMaterial) - 1) as u64;
    let new_tile = Tile {
        kind: if q1 == 0 {
            TileKind::Open
        } else {
            TileKind::ResourceSite
        },
        position: tile.position,
        holding: tile.holding.with_qty(ResourceKind::RawMaterial, q1),
    };
    lemma_wf_after_update(t0, t1, pos, new_tile);
}

/// A builder's deposit founds a settlement exactly when it must: on open
/// ground, the tile is a settlement afterwards when the deposit brings the
/// processed quantity strictly over the threshold, and stays open ground
/// when it reaches at most the threshold (so at exactly the threshold it
/// does not transition).
pub proof fn lemma_threshold_founds_settlement(
    t0: WorldTiles,
    p0: Peepl,
    t1: WorldTiles,
    p1: Peepl,
)
    requires
        t0.wf(),
        t0.in_bounds(p0.position),
        t0.tile_at_spec(p0.position.0 as int, p0.position.1 as int).kind == TileKind::Open,
        t0.tile_at_spec(p0.position.0 as int, p0.position.1 as int).holding.qty(
            ResourceKind::ProcessedMaterial,
        ) < u64::MAX,
        deposit_rel(t0, p0, t1, p1, ResourceKind::ProcessedMaterial, TileKind::Open, true),
    ensures
        t1.tile_at_spec(p0.position.0 as int, p0.position.1 as int).kind == (if t0.tile_at_spec(
            p0.position.0 as int,
            p0.position.1 as int,
        ).holding.qty(ResourceKind::ProcessedMaterial) + 1 > SETTLEMENT_THRESHOLD {
            TileKind::Settlement
        } else {
            TileKind::Open
        }),
        t1.tile_at_spec(p0.position.0 as int, p0.position.1 as int).holding.qty(
            ResourceKind::ProcessedMaterial,
        ) == t0.tile_at_spec(p0.position.0 as int, p0.position.1 as int).holding.qty(
            ResourceKind::ProcessedMaterial,
        ) + 1,
{
    let pos = p0.position;
    let tile = t0.tile_at_spec(pos.0 as int, pos.1 as int);
    let q1 = (tile.holding.qty(ResourceKind::ProcessedMaterial) + 1) as u64;
    let new_tile = Tile {
        kind: if q1 > SETTLEMENT_THRESHOLD {
            TileKind::Settlement
        } else {
            TileKind::Open
        },
        position: tile.position,
        holding: tile.holding.with_qty(ResourceKind::ProcessedMaterial, q1),
    };
    lemma_wf_after_update(t0, t1, pos, new_tile);
}

/// Conservation over a harvester's cycle: a successful gather at a
/// resource site followed — with the grid untouched in between — by a
/// successful deposit at a settlement moves exactly one unit of raw
/// material: the source tile ends one unit down, the settlement one unit
/// up, and the two tiles are distinct.
pub proof fn lemma_harvester_conservation(
    t0: WorldTiles,
    p0: Peepl,
    t1: WorldTiles,
    p1: Peepl,
    tm: WorldTiles,
    pm: Peepl,
    t2: WorldTiles,
    p2: Peepl,
)
    requires
        t0.wf(),
        t0.in_bounds(p0.position),
        t0.tile_at_spec(p0.position.0 as int, p0.position.1 as int).kind == TileKind::ResourceSite,
        t0.tile_at_spec(p0.position.0 as int, p0.position.1 as int).holding.qty(
            ResourceKind::RawMaterial,
        ) > 0,
        harvester_gather_rel(t0, p0, t1, p1),
        grid_same(t1, tm),
        tm.in_bounds(pm.position),
        tm.tile_at_spec(pm.position.0 as int, pm.position.1 as int).kind == TileKind::Settlement,
        tm.tile_at_spec(pm.position.0 as int, pm.position.1 as int).holding.qty(
            ResourceKind::RawMaterial,
        ) < u64::MAX,
        deposit_rel(tm, pm, t2, p2, ResourceKind::RawMaterial, TileKind::Settlement, false),
    ensures
        p0.position != pm.position,
        t2.tile_at_spec(p0.position.0 as int, p0.position.1 as int).holding.qty(
            ResourceKind::RawMaterial,
        ) == t0.tile_at_spec(p0.position.0 as int, p0.position.1 as int).holding.qty(
            ResourceKind::RawMaterial,
        ) - 1,
        t2.tile_at_spec(pm.position.0 as int, pm.position.1 as int).holding.qty(
            ResourceKind::RawMaterial,
        ) == t0.tile_at_spec(pm.position.0 as int, pm.position.1 as int).holding.qty(
            ResourceKind::RawMaterial,
        ) + 1,
{
    let src = p0.position;
    let dst = pm.position;
    let src_tile = t0.tile_at_spec(src.0 as int, src.1 as int);
    let q1 = (src_tile.holding.qty(ResourceKind::RawMaterial) - 1) as u64;
    let gathered_tile = Tile {
        kind: if q1 == 0 {
            TileKind::Open
        } else {
            TileKind::ResourceSite
        },
        position: src_tile.position,
        holding: src_tile.holding.with_qty(ResourceKind::RawMaterial, q1),
    };
    lemma_wf_after_update(t0, t1, src, gathered_tile);
    lemma_wf_grid_same(t1, tm);
    assert(tm.tile_at_spec(src.0 as int, src.1 as int) == t1.tile_at_spec(
        src.0 as int,
        src.1 as int,
    ));
    // the source cannot be the settlement deposited at: after the gather
    // it is open ground or still a resource site
    assert(src != dst);
    let dst_tile = tm.tile_at_spec(dst.0 as int, dst.1 as int);
    let q2 = (dst_tile.holding.qty(ResourceKind::RawMaterial) + 1) as u64;
    let deposited_tile = Tile {
        kind: dst_tile.kind,
        position: dst_tile.position,
        holding: dst_tile.holding.with_qty(ResourceKind::RawMaterial, q2),
    };
    lemma_wf_after_update(tm, t2, dst, deposited_tile);
    assert(tm.tile_at_spec(dst.0 as int, dst.1 as int) == t1.tile_at_spec(
        dst.0 as int,
        dst.1 as int,
    ));
    assert(t2.tile_at_spec(src.0 as int, src.1 as int) == tm.tile_at_spec(
        src.0 as int,
        src.1 as int,
    ));
}

/// Moves the agent one step toward the nearest tile, seen from the agent's
/// position, that is not of kind `ignore` and holds a unit of `item`; the
/// agent stays put when the grid has no such tile.
fn move_toward_item(tiles: &WorldTiles, peep: &mut Peepl, item: ResourceKind, ignore: TileKind)
    requires
        tiles.wf(),
        tiles.in_bounds(old(peep).position),
    ensures
        final(peep).job == old(peep).job,
        final(peep).holding == old(peep).holding,
        tiles.in_bounds(final(peep).position),
        exists|target: (i64, i64)|
            #[trigger] tiles.nearest_item_post(old(peep).position, item, ignore, target)
                && final(peep).position == move_spec(old(peep).position, target),
{
    let pos = peep.position;
    let target = tiles.find_nearest_item(pos, item, ignore);
    let travel_to = calculate_movement(pos, target);
    peep.position = travel_to;
}

/// Moves the agent one step toward the nearest tile of kind `looking_for`,
/// seen from the agent's position; the agent stays put when the grid has
/// no such tile.
fn move_toward_tile(tiles: &WorldTiles, peep: &mut Peepl, looking_for: TileKind)
    requires
        tiles.wf(),
        tiles.in_bounds(old(peep).position),
    ensures
        final(peep).job == old(peep).job,
        final(peep).holding == old(peep).holding,
        tiles.in_bounds(final(peep).position),
        exists|target: (i64, i64)|
            #[trigger] tiles.nearest_tile_post(old(peep).position, looking_for, target)
                && final(peep).position == move_spec(old(peep).position, target),
{
    let pos = peep.position;
    let target = tiles.find_nearest_tile(pos, looking_for);
    let travel_to = calculate_movement(pos, target);
    peep.position = travel_to;
}

/// Executes a gather intent for a harvester.
fn harvester_gather(tiles: &mut WorldTiles, peep: &mut Peepl)
    requires
        old(tiles).wf(),
        old(tiles).in_bounds(old(peep).position),
    ensures
        final(tiles).wf(),
        final(tiles).size == old(tiles).size,
        final(peep).job == old(peep).job,
        old(tiles).in_bounds(final(peep).position),
        harvester_gather_rel(*old(tiles), *old(peep), *final(tiles), *final(peep)),
{
    let pos = peep.position;
    let ghost t0 = *tiles;
    let ghost old_tile = t0.tile_at_spec(pos.0 as int, pos.1 as int);
    let can_take = {
        let tile = tiles.get_tile_at_pos(pos.0, pos.1);
        tile.kind == TileKind::ResourceSite && tile.check_inventory(ResourceKind::RawMaterial)
    };
    if can_take {
        let tile = tiles.get_mut_tile_at_pos(pos.0, pos.1);
        let took = tile.take_item(ResourceKind::RawMaterial, TileKind::ResourceSite);
        peep.holding = Some(ResourceKind::RawMaterial);
        if !tile.check_inventory(ResourceKind::RawMaterial) {
            tile.kind = TileKind::Open;
        }
        proof {
            assert(took);
            let q1 = (old_tile.holding.qty(ResourceKind::RawMaterial) - 1) as u64;
            let new_tile = Tile {
                kind: if q1 == 0 {
                    TileKind::Open
                } else {
                    TileKind::ResourceSite
                },
                position: old_tile.position,
                holding: old_tile.holding.with_qty(ResourceKind::RawMaterial, q1),
            };
            lemma_wf_after_update(t0, *tiles, pos, new_tile);
        }
    } else {
        move_toward_item(tiles, peep, ResourceKind::RawMaterial, TileKind::Settlement);
    }
}

/// Executes a gather intent for a processor.
fn processor_gather(tiles: &mut WorldTiles, peep: &mut Peepl)
    requires
        old(tiles).wf(),
        old(tiles).in_bounds(old(peep).position),
    ensures
        final(tiles).wf(),
        final(tiles).size == old(tiles).size,
        final(peep).job == old(peep).job,
        old(tiles).in_bounds(final(peep).position),
        processor_gather_rel(*old(tiles), *old(peep), *final(tiles), *final(peep)),
{
    let pos = peep.position;
    let ghost t0 = *tiles;
    if peep.holding.is_some() {
        let on_settlement = {
            let tile = tiles.get_tile_at_pos(pos.0, pos.1);
            tile.kind == TileKind::Settlement
        };
        if on_settlement {
            peep.holding = Some(ResourceKind::ProcessedMaterial);
        } else {
            move_toward_tile(tiles, peep, TileKind::Settlement);
        }
    } else {
        let ghost old_tile = t0.tile_at_spec(pos.0 as int, pos.1 as int);
        let can_take = {
            let tile = tiles.get_tile_at_pos(pos.0, pos.1);
            tile.kind == TileKind::Settlement && tile.check_inventory(ResourceKind::RawMaterial)
        };
        if can_take {
            let tile = tiles.get_mut_tile_at_pos(pos.0, pos.1);
            let took = tile.take_item(ResourceKind::RawMaterial, TileKind::Settlement);
            peep.holding = Some(ResourceKind::RawMaterial);
            proof {
                assert(took);
                let new_tile = Tile {
                    kind: old_tile.kind,
                    position: old_tile.position,
                    holding: old_tile.holding.with_qty(
                        ResourceKind::RawMaterial,
                        (old_tile.holding.qty(ResourceKind::RawMaterial) - 1) as u64,
                    ),
                };
                lemma_wf_after_update(t0, *tiles, pos, new_tile);
            }
        } else {
            move_toward_item(tiles, peep, ResourceKind::RawMaterial, TileKind::ResourceSite);
        }
    }
}

/// Executes a gather intent for a builder.
fn builder_gather(tiles: &mut WorldTiles, peep: &mut Peepl)
    requires
        old(tiles).wf(),
        old(tiles).in_bounds(old(peep).position),
    ensures
        final(tiles).wf(),
        final(tiles).size == old(tiles).size,
        final(peep).job == old(peep).job,
        old(tiles).in_bounds(final(peep).position),
        builder_gather_rel(*old(tiles), *old(peep), *final(tiles), *final(peep)),
{
    let pos = peep.position;
    let ghost t0 = *tiles;
    let ghost old_tile = t0.tile_at_spec(pos.0 as int, pos.1 as int);
    let can_take = {
        let tile = tiles.get_tile_at_pos(pos.0, pos.1);
        tile.kind == TileKind::Settlement && tile.check_inventory(ResourceKind::ProcessedMaterial)
    };
    if can_take {
        let tile = tiles.get_mut_tile_at_pos(pos.0, pos.1);
        let took = tile.take_item(ResourceKind::ProcessedMaterial, TileKind::Settlement);
        peep.holding = Some(ResourceKind::ProcessedMaterial);
        proof {
            assert(took);
            let new_tile = Tile {
                kind: old_tile.kind,
                position: old_tile.position,
                holding: old_tile.holding.with_qty(
                    ResourceKind::ProcessedMaterial,
                    (old_tile.holding.qty(ResourceKind::ProcessedMaterial) - 1) as u64,
                ),
            };
            lemma_wf_after_update(t0, *tiles, pos, new_tile);
        }
    } else {
        move_toward_item(tiles, peep, ResourceKind::ProcessedMaterial, TileKind::Open);
    }
}

/// Executes a deposit intent: the agent carries `item` and deposits on
/// tiles of kind `target`; `founds` marks a builder, whose deposit can
/// promote open ground to a settlement.
fn do_deposit(
    tiles: &mut WorldTiles,
    peep: &mut Peepl,
    item: ResourceKind,
    target: TileKind,
    founds: bool,
)
    requires
        old(tiles).wf(),
        old(tiles).in_bounds(old(peep).position),
    ensures
        final(tiles).wf(),
        final(tiles).size == old(tiles).size,
        final(peep).job == old(peep).job,
        old(tiles).in_bounds(final(peep).position),
        deposit_rel(*old(tiles), *old(peep), *final(tiles), *final(peep), item, target, founds),
{
    let pos = peep.position;
    let ghost t0 = *tiles;
    let on_target = {
        let tile = tiles.get_tile_at_pos(pos.0, pos.1);
        tile.kind == target
    };
    if on_target {
        let ghost old_tile = t0.tile_at_spec(pos.0 as int, pos.1 as int);
        let tile = tiles.get_mut_tile_at_pos(pos.0, pos.1);
        let quantity_now = tile.deposit_item(item);
        peep.holding = None;
        if founds && quantity_now > SETTLEMENT_THRESHOLD {
            tile.kind = TileKind::Settlement;
        }
        proof {
            let q1 = if old_tile.holding.qty(item) == u64::MAX {
                u64::MAX
            } else {
                (old_tile.holding.qty(item) + 1) as u64
            };
            let new_tile = Tile {
                kind: if founds && q1 > SETTLEMENT_THRESHOLD {
                    TileKind::Settlement
                } else {
                    old_tile.kind
                },
                position: old_tile.position,
                holding: old_tile.holding.with_qty(item, q1),
            };
            lemma_wf_after_update(t0, *tiles, pos, new_tile);
        }
    } else {
        move_toward_tile(tiles, peep, target);
    }
}

/// Runs one agent's tick against the grid: decide the intent from job and
/// carried resource, then gather, convert, deposit or move as the intent
/// and the tile under the agent dictate.
pub fn act(tiles: &mut WorldTiles, peep: &mut Peepl)
    requires
        old(tiles).wf(),
        old(tiles).in_bounds(old(peep).position),
    ensures
        final(tiles).wf(),
        final(tiles).size == old(tiles).size,
        final(peep).job == old(peep).job,
        old(tiles).in_bounds(final(peep).position),
        peep_step_rel(*old(tiles), *old(peep), *final(tiles), *final(peep)),
{
    let task = peep.step();
    match task {
        Action::Gather(_) => {
            match peep.job {
                Job::Harvester => harvester_gather(tiles, peep),
                Job::Processor => processor_gather(tiles, peep),
                Job::Builder => builder_gather(tiles, peep),
            }
        }
        Action::Deposit(target) => {
            let founds = match peep.job {
                Job::Builder => true,
                _ => false,
            };
            match peep.holding {
                Some(item) => do_deposit(tiles, peep, item, target, founds),
                None => {
                    // no intent ever deposits empty-handed
                    proof {
                        assert(false);
                    }
                }
            }
        }
    }
}

} // verus!
