//! The fixed-size 2-D tile grid and its nearest-match spatial search.
//!
//! The grid owns exactly `width * height` tiles addressed by `(x, y)`
//! through a row-major index. The search walks outward from a starting
//! position in square rings of growing Chebyshev distance and returns the
//! first matching tile in that visitation order, so the result is a
//! minimum-distance match with ties broken by ascending y, then ascending x.

use vstd::prelude::*;
use crate::tile::ResourceKind;
use crate::tile::Tile;
use crate::tile::TileKind;

verus! {

/// The world's tiles: a `size.0` wide, `size.1` high grid stored row-major.
pub struct WorldTiles {
    pub size: (usize, usize),
    pub tiles: Vec<Tile>,
}

/// Chebyshev distance between two positions: the larger of the coordinate
/// distances. An agent moving one step per axis per tick crosses it in
/// exactly this many ticks.
pub open spec fn cheb(a: (i64, i64), b: (i64, i64)) -> int {
    vstd::math::max(vstd::math::abs(a.0 - b.0) as int, vstd::math::abs(a.1 - b.1) as int)
}

/// Whether the ring search started at `from` examines position `p`
/// strictly before position `q`: first by Chebyshev distance, then by
/// ascending y, then by ascending x.
pub open spec fn visits_before(from: (i64, i64), p: (i64, i64), q: (i64, i64)) -> bool {
    cheb(from, p) < cheb(from, q) || (cheb(from, p) == cheb(from, q) && (p.1 < q.1 || (p.1
        == q.1 && p.0 < q.0)))
}

impl WorldTiles {
    /// Whether `p` lies on the grid.
    pub open spec fn in_bounds(self, p: (i64, i64)) -> bool {
        0 <= p.0 < self.size.0 && 0 <= p.1 < self.size.1
    }

    /// The tile stored for position `(x, y)`.
    pub open spec fn tile_at_spec(self, x: int, y: int) -> Tile {
        self.tiles@[y * self.size.0 + x]
    }

    /// Grid well-formedness: the tile vector holds one tile per coordinate
    /// in row-major order, each side fits comfortably in the coordinate
    /// type, and every tile records its own coordinate as its position.
    pub open spec fn wf(self) -> bool {
        &&& self.tiles@.len() == self.size.0 * self.size.1
        &&& self.size.0 * self.size.1 <= usize::MAX
        &&& self.size.0 < 0x8000_0000
        &&& self.size.1 < 0x8000_0000
        &&& forall|x: int, y: int|
            0 <= x < self.size.0 && 0 <= y < self.size.1 ==> (#[trigger] self.tile_at_spec(
                x,
                y,
            )).position == (x as i64, y as i64)
    }

    /// The row-major index of the tile at `(x, y)`.
    pub fn get_tile_index(&self, x: usize, y: usize) -> (r: usize)
        requires
            x < self.size.0,
            y < self.size.1,
            self.size.0 * self.size.1 <= usize::MAX,
        ensures
            r == y * self.size.0 + x,
            r < self.size.0 * self.size.1,
    {
        proof {
            assert(y * self.size.0 + x < self.size.0 * self.size.1) by (nonlinear_arith)
                requires
                    x < self.size.0,
                    y < self.size.1,
            ;
        }
        y * self.size.0 + x
    }

    /// Indexed lookup of the tile at `(x, y)`. Out-of-bounds coordinates
    /// signal a caller invariant violation and are excluded up front.
    pub fn get_tile_at_pos(&self, x: i64, y: i64) -> (r: &Tile)
        requires
            self.wf(),
            self.in_bounds((x, y)),
        ensures
            *r == self.tile_at_spec(x as int, y as int),
            r.position == (x, y),
    {
        let index = self.get_tile_index(x as usize, y as usize);
        &self.tiles[index]
    }

    /// Mutable lookup of the tile at `(x, y)`: afterwards the grid is the
    /// old grid with this one slot replaced by whatever the caller leaves
    /// behind the returned reference.
    pub fn get_mut_tile_at_pos(&mut self, x: i64, y: i64) -> (r: &mut Tile)
        requires
            old(self).wf(),
            old(self).in_bounds((x, y)),
        ensures
            *r == old(self).tile_at_spec(x as int, y as int),
            final(self).tiles@ == old(self).tiles@.update(
                y as int * old(self).size.0 + x as int,
                *final(r),
            ),
            final(self).size == old(self).size,
            grid_update(*old(self), *final(self), (x, y), *final(r)),
    {
        let index = self.get_tile_index(x as usize, y as usize);
        &mut self.tiles[index]
    }

    /// Whether `p` is a tile the item search for (`item`, `ignore`) counts
    /// as a match: on the grid, not of the ignored kind, and holding at
    /// least one unit of `item`.
    pub open spec fn item_candidate(self, p: (i64, i64), item: ResourceKind, ignore: TileKind) -> bool {
        &&& self.in_bounds(p)
        &&& self.tile_at_spec(p.0 as int, p.1 as int).kind != ignore
        &&& self.tile_at_spec(p.0 as int, p.1 as int).holding.qty(item) > 0
    }

    /// Whether `p` is a tile the kind search for `looking_for` counts as a
    /// match: on the grid and of that kind.
    pub open spec fn tile_candidate(self, p: (i64, i64), looking_for: TileKind) -> bool {
        &&& self.in_bounds(p)
        &&& self.tile_at_spec(p.0 as int, p.1 as int).kind == looking_for
    }

    /// What the item search returns: the first match in ring order when
    /// one exists anywhere on the grid, the starting position otherwise.
    pub open spec fn nearest_item_post(
        self,
        from: (i64, i64),
        item: ResourceKind,
        ignore: TileKind,
        r: (i64, i64),
    ) -> bool {
        if exists|p: (i64, i64)| self.item_candidate(p, item, ignore) {
            &&& self.item_candidate(r, item, ignore)
            &&& forall|p: (i64, i64)|
                #[trigger] self.item_candidate(p, item, ignore) ==> !visits_before(from, p, r)
        } else {
            r == from
        }
    }

    /// What the kind search returns: the first match in ring order when
    /// one exists anywhere on the grid, the starting position otherwise.
    pub open spec fn nearest_tile_post(
        self,
        from: (i64, i64),
        looking_for: TileKind,
        r: (i64, i64),
    ) -> bool {
        if exists|p: (i64, i64)| self.tile_candidate(p, looking_for) {
            &&& self.tile_candidate(r, looking_for)
            &&& forall|p: (i64, i64)|
                #[trigger] self.tile_candidate(p, looking_for) ==> !visits_before(from, p, r)
        } else {
            r == from
        }
    }

    /// Searches outward from `from` in square rings of growing Chebyshev
    /// distance for a tile that is not of kind `ignore_tile_kind` and holds
    /// at least one unit of `looking_for`; candidates within a ring are
    /// taken in ascending y, then ascending x. Returns the starting
    /// position unchanged when no tile on the grid matches.
    #[verifier::loop_isolation(false)]
    pub fn find_nearest_item(
        &self,
        from_pos: (i64, i64),
        looking_for: ResourceKind,
        ignore_tile_kind: TileKind,
    ) -> (r: (i64, i64))
        requires
            self.wf(),
            self.in_bounds(from_pos),
        ensures
            self.nearest_item_post(from_pos, looking_for, ignore_tile_kind, r),
            self.in_bounds(r),
    {
        let w = self.size.0;
        let h = self.size.1;
        let ring_max: i64 = if w >= h {
            w as i64
        } else {
            h as i64
        };
        let mut d: i64 = 0;
        while d < ring_max
            invariant
                0 <= d <= ring_max,
                forall|p: (i64, i64)|
                    #[trigger] self.item_candidate(p, looking_for, ignore_tile_kind) ==> cheb(
                        from_pos,
                        p,
                    ) >= d,
            decreases ring_max - d,
        {
            let mut oy: i64 = -d;
            while oy <= d
                invariant
                    -d <= oy <= d + 1,
                    forall|p: (i64, i64)|
                        #[trigger] self.item_candidate(p, looking_for, ignore_tile_kind) ==> cheb(
                            from_pos,
                            p,
                        ) >= d,
                    forall|p: (i64, i64)|
                        #[trigger] self.item_candidate(p, looking_for, ignore_tile_kind) && cheb(
                            from_pos,
                            p,
                        ) == d ==> p.1 - from_pos.1 >= oy,
                decreases d + 1 - oy,
            {
                let cursor_y = from_pos.1 + oy;
                if cursor_y >= 0 && cursor_y < h as i64 {
                    let mut ox: i64 = -d;
                    while ox <= d
                        invariant
                            -d <= ox <= d + 1,
                            cursor_y == from_pos.1 + oy,
                            -d <= oy <= d,
                            0 <= cursor_y < h,
                            forall|p: (i64, i64)|
                                #[trigger] self.item_candidate(p, looking_for, ignore_tile_kind)
                                    ==> cheb(from_pos, p) >= d,
                            forall|p: (i64, i64)|
                                #[trigger] self.item_candidate(p, looking_for, ignore_tile_kind)
                                    && cheb(from_pos, p) == d ==> p.1 - from_pos.1 >= oy,
                            forall|p: (i64, i64)|
                                #[trigger] self.item_candidate(p, looking_for, ignore_tile_kind)
                                    && cheb(from_pos, p) == d && p.1 == cursor_y ==> p.0
                                    - from_pos.0 >= ox,
                        decreases d + 1 - ox,
                    {
                        // offsets strictly inside the ring were examined at
                        // a smaller distance already
                        if !(ox > -d && ox < d && oy > -d && oy < d) {
                            let cursor_x = from_pos.0 + ox;
                            if cursor_x >= 0 && cursor_x < w as i64 {
                                let cursor_tile = self.get_tile_at_pos(cursor_x, cursor_y);
                                if cursor_tile.kind != ignore_tile_kind && cursor_tile
                                    .check_inventory(looking_for) {
                                    proof {
                                        let r = (cursor_x, cursor_y);
                                        assert(self.item_candidate(
                                            r,
                                            looking_for,
                                            ignore_tile_kind,
                                        ));
                                        assert(cheb(from_pos, r) == d);
                                        assert forall|p: (i64, i64)|
                                            #[trigger] self.item_candidate(
                                                p,
                                                looking_for,
                                                ignore_tile_kind,
                                            ) implies !visits_before(from_pos, p, r) by {
                                            assert(cheb(from_pos, p) >= d);
                                        }
                                    }
                                    return (cursor_x, cursor_y);
                                }
                            }
                        }
                        ox = ox + 1;
                    }
                }
                oy = oy + 1;
            }
            d = d + 1;
        }
        proof {
            assert forall|p: (i64, i64)| !self.item_candidate(
                p,
                looking_for,
                ignore_tile_kind,
            ) by {
                if self.item_candidate(p, looking_for, ignore_tile_kind) {
                    assert(cheb(from_pos, p) < ring_max);
                }
            }
        }
        from_pos
    }

    /// Searches outward from `from` in square rings of growing Chebyshev
    /// distance for a tile of kind `looking_for`; candidates within a ring
    /// are taken in ascending y, then ascending x. Returns the starting
    /// position unchanged when no tile on the grid matches.
    #[verifier::loop_isolation(false)]
    pub fn find_nearest_tile(&self, from_pos: (i64, i64), looking_for: TileKind) -> (r: (i64, i64))
        requires
            self.wf(),
            self.in_bounds(from_pos),
        ensures
            self.nearest_tile_post(from_pos, looking_for, r),
            self.in_bounds(r),
    {
        let w = self.size.0;
        let h = self.size.1;
        let ring_max: i64 = if w >= h {
            w as i64
        } else {
            h as i64
        };
        let mut d: i64 = 0;
        while d < ring_max
            invariant
                0 <= d <= ring_max,
                forall|p: (i64, i64)|
                    #[trigger] self.tile_candidate(p, looking_for) ==> cheb(from_pos, p) >= d,
            decreases ring_max - d,
        {
            let mut oy: i64 = -d;
            while oy <= d
                invariant
                    -d <= oy <= d + 1,
                    forall|p: (i64, i64)|
                        #[trigger] self.tile_candidate(p, looking_for) ==> cheb(from_pos, p) >= d,
                    forall|p: (i64, i64)|
                        #[trigger] self.tile_candidate(p, looking_for) && cheb(from_pos, p) == d
                            ==> p.1 - from_pos.1 >= oy,
                decreases d + 1 - oy,
            {
                let cursor_y = from_pos.1 + oy;
                if cursor_y >= 0 && cursor_y < h as i64 {
                    let mut ox: i64 = -d;
                    while ox <= d
                        invariant
                            -d <= ox <= d + 1,
                            cursor_y == from_pos.1 + oy,
                            -d <= oy <= d,
                            0 <= cursor_y < h,
                            forall|p: (i64, i64)|
                                #[trigger] self.tile_candidate(p, looking_for) ==> cheb(
                                    from_pos,
                                    p,
                                ) >= d,
                            forall|p: (i64, i64)|
                                #[trigger] self.tile_candidate(p, looking_for) && cheb(from_pos, p)
                                    == d ==> p.1 - from_pos.1 >= oy,
                            forall|p: (i64, i64)|
                                #[trigger] self.tile_candidate(p, looking_for) && cheb(from_pos, p)
                                    == d && p.1 == cursor_y ==> p.0 - from_pos.0 >= ox,
                        decreases d + 1 - ox,
                    {
                        // offsets strictly inside the ring were examined at
                        // a smaller distance already
                        if !(ox > -d && ox < d && oy > -d && oy < d) {
                            let cursor_x = from_pos.0 + ox;
                            if cursor_x >= 0 && cursor_x < w as i64 {
                                let cursor_tile = self.get_tile_at_pos(cursor_x, cursor_y);
                                if cursor_tile.kind == looking_for {
                                    proof {
                                        let r = (cursor_x, cursor_y);
                                        assert(self.tile_candidate(r, looking_for));
                                        assert(cheb(from_pos, r) == d);
                                        assert forall|p: (i64, i64)|
                                            #[trigger] self.tile_candidate(
                                                p,
                                                looking_for,
                                            ) implies !visits_before(from_pos, p, r) by {
                                            assert(cheb(from_pos, p) >= d);
                                        }
                                    }
                                    return (cursor_x, cursor_y);
                                }
                            }
                        }
                        ox = ox + 1;
                    }
                }
                oy = oy + 1;
            }
            d = d + 1;
        }
        proof {
            assert forall|p: (i64, i64)| !self.tile_candidate(p, looking_for) by {
                if self.tile_candidate(p, looking_for) {
                    assert(cheb(from_pos, p) < ring_max);
                }
            }
        }
        from_pos
    }
}

/// `t1` is `t0` with the tile slot at in-bounds position `pos` replaced by
/// `tile`, and nothing else changed.
pub open spec fn grid_update(t0: WorldTiles, t1: WorldTiles, pos: (i64, i64), tile: Tile) -> bool {
    &&& t1.size == t0.size
    &&& t1.tiles@ == t0.tiles@.update(pos.1 as int * t0.size.0 + pos.0 as int, tile)
}

/// `t1` holds exactly the tiles of `t0`.
pub open spec fn grid_same(t0: WorldTiles, t1: WorldTiles) -> bool {
    &&& t1.size == t0.size
    &&& t1.tiles@ == t0.tiles@
}

/// A grid holding exactly the tiles of a well-formed grid is well-formed.
pub proof fn lemma_wf_grid_same(t0: WorldTiles, t1: WorldTiles)
    requires
        t0.wf(),
        grid_same(t0, t1),
    ensures
        t1.wf(),
{
    assert forall|x: int, y: int| 0 <= x < t1.size.0 && 0 <= y < t1.size.1 implies (
    #[trigger] t1.tile_at_spec(x, y)).position == (x as i64, y as i64) by {
        assert(t1.tile_at_spec(x, y) == t0.tile_at_spec(x, y));
    }
}

/// Distinct in-range coordinates never share a row-major index.
pub proof fn lemma_row_major_injective(w: int, x0: int, y0: int, x1: int, y1: int)
    requires
        0 <= x0 < w,
        0 <= x1 < w,
        0 <= y0,
        0 <= y1,
        y0 * w + x0 == y1 * w + x1,
    ensures
        x0 == x1 && y0 == y1,
{
    assert(x0 == x1 && y0 == y1) by (nonlinear_arith)
        requires
            0 <= x0 < w,
            0 <= x1 < w,
            0 <= y0,
            0 <= y1,
            y0 * w + x0 == y1 * w + x1,
    ;
}

/// Replacing one tile slot by a tile that still records that slot's
/// coordinate keeps the grid well-formed; every other coordinate keeps its
/// old tile.
pub proof fn lemma_wf_after_update(t0: WorldTiles, t1: WorldTiles, pos: (i64, i64), tile: Tile)
    requires
        t0.wf(),
        t0.in_bounds(pos),
        grid_update(t0, t1, pos, tile),
        tile.position == pos,
    ensures
        t1.wf(),
        t1.tile_at_spec(pos.0 as int, pos.1 as int) == tile,
        forall|x: int, y: int|
            0 <= x < t0.size.0 && 0 <= y < t0.size.1 && (x, y) != (pos.0 as int, pos.1 as int)
                ==> #[trigger] t1.tile_at_spec(x, y) == t0.tile_at_spec(x, y),
{
    let w = t0.size.0 as int;
    let idx = pos.1 as int * w + pos.0 as int;
    assert(0 <= (pos.1 as int) * w + (pos.0 as int) < t0.tiles@.len()) by (nonlinear_arith)
        requires
            0 <= pos.0 < t0.size.0,
            0 <= pos.1 < t0.size.1,
            w == t0.size.0,
            t0.tiles@.len() == t0.size.0 * t0.size.1,
    ;
    assert forall|x: int, y: int| 0 <= x < t0.size.0 && 0 <= y < t0.size.1 && (x, y) != (
        pos.0 as int,
        pos.1 as int,
    ) implies #[trigger] t1.tile_at_spec(x, y) == t0.tile_at_spec(x, y) by {
        assert(0 <= y * w + x < t0.tiles@.len()) by (nonlinear_arith)
            requires
                0 <= x < t0.size.0,
                0 <= y < t0.size.1,
                w == t0.size.0,
                t0.tiles@.len() == t0.size.0 * t0.size.1,
        ;
        if y * w + x == idx {
            lemma_row_major_injective(w, x, y, pos.0 as int, pos.1 as int);
        }
    }
    assert forall|x: int, y: int| 0 <= x < t1.size.0 && 0 <= y < t1.size.1 implies (
    #[trigger] t1.tile_at_spec(x, y)).position == (x as i64, y as i64) by {
        if (x, y) == (pos.0 as int, pos.1 as int) {
            assert(t1.tile_at_spec(x, y) == tile);
        } else {
            assert(t1.tile_at_spec(x, y) == t0.tile_at_spec(x, y));
        }
    }
}

/// The search never settles for a farther tile than it must: any match it
/// returns lies at no greater Chebyshev distance than any matching tile on
/// the grid.
pub proof fn lemma_nearest_item_minimal(
    wt: WorldTiles,
    from: (i64, i64),
    item: ResourceKind,
    ignore: TileKind,
    r: (i64, i64),
    p: (i64, i64),
)
    requires
        wt.nearest_item_post(from, item, ignore, r),
        wt.item_candidate(p, item, ignore),
    ensures
        wt.item_candidate(r, item, ignore),
        cheb(from, r) <= cheb(from, p),
{
    assert(!visits_before(from, p, r));
}

/// The kind search never settles for a farther tile than it must: any
/// match it returns lies at no greater Chebyshev distance than any tile of
/// the sought kind on the grid.
pub proof fn lemma_nearest_tile_minimal(
    wt: WorldTiles,
    from: (i64, i64),
    looking_for: TileKind,
    r: (i64, i64),
    p: (i64, i64),
)
    requires
        wt.nearest_tile_post(from, looking_for, r),
        wt.tile_candidate(p, looking_for),
    ensures
        wt.tile_candidate(r, looking_for),
        cheb(from, r) <= cheb(from, p),
{
    assert(!visits_before(from, p, r));
}

} // verus!
