//! Tiles and their resource inventories.
//!
//! A tile has a kind, a fixed position, and an inventory mapping each
//! resource kind to a non-negative quantity (at most one count per kind,
//! order-irrelevant).

use vstd::prelude::*;

verus! {

/// A resource unit kind: either raw (as gathered from a resource site) or
/// processed (as converted at a settlement).
#[derive(Clone, Copy, Debug, PartialEq, Eq, Structural)]
pub enum ResourceKind {
    RawMaterial,
    ProcessedMaterial,
}

/// What a tile currently is. The kind determines which gather/deposit
/// actions are valid on the tile, and it can change over the simulation's
/// lifetime: an exhausted resource site reverts to open ground, and open
/// ground with enough processed material becomes a settlement.
#[derive(Clone, Copy, Debug, PartialEq, Eq, Structural)]
pub enum TileKind {
    Open,
    ResourceSite,
    Settlement,
}

/// A tile's resource inventory: one non-negative count per resource kind.
#[derive(Clone, Copy, Debug, PartialEq, Eq, Structural)]
pub struct Inventory {
    pub raw_material: u64,
    pub processed_material: u64,
}

impl Inventory {
    /// The stored quantity of one resource kind.
    pub open spec fn qty(self, item: ResourceKind) -> u64 {
        match item {
            ResourceKind::RawMaterial => self.raw_material,
            ResourceKind::ProcessedMaterial => self.processed_material,
        }
    }

    /// The inventory with the count of `item` replaced by `q`.
    pub open spec fn with_qty(self, item: ResourceKind, q: u64) -> Inventory {
        match item {
            ResourceKind::RawMaterial => Inventory { raw_material: q, ..self },
            ResourceKind::ProcessedMaterial => Inventory { processed_material: q, ..self },
        }
    }

    /// An empty inventory.
    pub fn new() -> (r: Inventory)
        ensures
            r.raw_material == 0,
            r.processed_material == 0,
    {
        Inventory { raw_material: 0, processed_material: 0 }
    }
}

/// One cell of the grid. The position is fixed at creation and never
/// changes; the kind and the inventory are mutated during simulation.
#[derive(Clone, Copy, Debug)]
pub struct Tile {
    pub kind: TileKind,
    pub position: (i64, i64),
    pub holding: Inventory,
}

impl Tile {
    /// Whether this tile holds at least one unit of `item`.
    pub fn check_inventory(&self, item: ResourceKind) -> (r: bool)
        ensures
            r == (self.holding.qty(item) > 0),
    {
        match item {
            ResourceKind::RawMaterial => self.holding.raw_material > 0,
            ResourceKind::ProcessedMaterial => self.holding.processed_material > 0,
        }
    }

    /// Removes one unit of `item`, provided this tile is of kind
    /// `looking_for` and has at least one unit; returns whether a unit was
    /// taken. On failure the tile is unchanged.
    pub fn take_item(&mut self, item: ResourceKind, looking_for: TileKind) -> (r: bool)
        ensures
            r == (old(self).kind == looking_for && old(self).holding.qty(item) > 0),
            r ==> *final(self) == (Tile {
                holding: old(self).holding.with_qty(item, (old(self).holding.qty(item) - 1) as u64),
                ..*old(self)
            }),
            !r ==> *final(self) == *old(self),
    {
        if self.kind == looking_for {
            match item {
                ResourceKind::RawMaterial => {
                    if self.holding.raw_material > 0 {
                        self.holding.raw_material = self.holding.raw_material - 1;
                        return true;
                    }
                }
                ResourceKind::ProcessedMaterial => {
                    if self.holding.processed_material > 0 {
                        self.holding.processed_material = self.holding.processed_material - 1;
                        return true;
                    }
                }
            }
        }
        false
    }

    /// Adds one unit of `item` to this tile's inventory and returns the
    /// resulting quantity of `item`. The count saturates at the integer
    /// type's limit.
    pub fn deposit_item(&mut self, item: ResourceKind) -> (r: u64)
        ensures
            final(self).holding.qty(item) == (if old(self).holding.qty(item) == u64::MAX {
                u64::MAX as int
            } else {
                old(self).holding.qty(item) + 1
            }),
            r == final(self).holding.qty(item),
            *final(self) == (Tile {
                holding: old(self).holding.with_qty(item, final(self).holding.qty(item)),
                ..*old(self)
            }),
    {
        match item {
            ResourceKind::RawMaterial => {
                if self.holding.raw_material < u64::MAX {
                    self.holding.raw_material = self.holding.raw_material + 1;
                }
                self.holding.raw_material
            }
            ResourceKind::ProcessedMaterial => {
                if self.holding.processed_material < u64::MAX {
                    self.holding.processed_material = self.holding.processed_material + 1;
                }
                self.holding.processed_material
            }
        }
    }
}

} // verus!
