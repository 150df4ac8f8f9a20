//! Mobile population members and their per-tick intent.
//!
//! Each tick an agent first decides an intent purely from its job and what
//! it is carrying, then the behavior engine executes that intent against
//! the tile under the agent.

use vstd::prelude::*;
use crate::tile::ResourceKind;
use crate::tile::TileKind;

verus! {

/// An agent's trade, fixed for its lifetime.
#[derive(Clone, Copy, Debug, PartialEq, Eq, Structural)]
pub enum Job {
    /// Takes raw material from resource sites and carries it to settlements.
    Harvester,
    /// Takes raw material stored at a settlement and converts it in place
    /// into processed material.
    Processor,
    /// Takes processed material from a settlement and deposits it on open
    /// ground, founding a new settlement once enough accumulates.
    Builder,
}

/// What an agent intends to do this tick: gather on, or deposit at, a tile
/// of the given kind.
#[derive(Clone, Copy, Debug, PartialEq, Eq, Structural)]
pub enum Action {
    Gather(TileKind),
    Deposit(TileKind),
}

/// A mobile population member: a position on the grid, at most one carried
/// resource unit, and a job.
#[derive(Clone, Copy, Debug)]
pub struct Peepl {
    pub position: (i64, i64),
    pub holding: Option<ResourceKind>,
    pub job: Job,
}

/// The intent an agent with job `job` carrying `holding` has this tick.
/// It depends on nothing else: not on the grid, not on the current tile.
pub open spec fn intent_of(job: Job, holding: Option<ResourceKind>) -> Action {
    match job {
        Job::Harvester => {
            if holding is Some {
                Action::Deposit(TileKind::Settlement)
            } else {
                Action::Gather(TileKind::ResourceSite)
            }
        }
        Job::Processor => {
            match holding {
                Some(ResourceKind::ProcessedMaterial) => Action::Deposit(TileKind::Settlement),
                _ => Action::Gather(TileKind::Settlement),
            }
        }
        Job::Builder => {
            if holding is Some {
                Action::Deposit(TileKind::Open)
            } else {
                Action::Gather(TileKind::Settlement)
            }
        }
    }
}

impl Peepl {
    /// Decides this agent's intent for the tick from its job and carried
    /// resource alone.
    pub fn step(&self) -> (r: Action)
        ensures
            r == intent_of(self.job, self.holding),
    {
        match self.job {
            Job::Harvester => {
                if self.holding.is_some() {
                    Action::Deposit(TileKind::Settlement)
                } else {
                    Action::Gather(TileKind::ResourceSite)
                }
            }
            Job::Processor => {
                match &self.holding {
                    Some(ResourceKind::ProcessedMaterial) => Action::Deposit(TileKind::Settlement),
                    _ => Action::Gather(TileKind::Settlement),
                }
            }
            Job::Builder => {
                if self.holding.is_some() {
                    Action::Deposit(TileKind::Open)
                } else {
                    Action::Gather(TileKind::Settlement)
                }
            }
        }
    }
}

/// One coordinate of a single movement step: one unit toward `b` from `a`,
/// or `a` itself when already level with `b`.
pub open spec fn step_coord(a: i64, b: i64) -> i64 {
    if a < b {
        (a + 1) as i64
    } else if a > b {
        (a - 1) as i64
    } else {
        a
    }
}

/// The position one movement tick advances `from` to, approaching `to`.
pub open spec fn move_spec(from: (i64, i64), to: (i64, i64)) -> (i64, i64) {
    (step_coord(from.0, to.0), step_coord(from.1, to.1))
}

/// Advances `from` exactly one grid step per axis toward `to`: each
/// coordinate moves by the sign of the difference. An agent therefore
/// approaches its target diagonally first, arriving after as many ticks as
/// the Chebyshev distance.
pub fn calculate_movement(from: (i64, i64), to: (i64, i64)) -> (r: (i64, i64))
    ensures
        r == move_spec(from, to),
{
    let x: i64 = if from.0 < to.0 {
        from.0 + 1
    } else if from.0 > to.0 {
        from.0 - 1
    } else {
        from.0
    };
    let y: i64 = if from.1 < to.1 {
        from.1 + 1
    } else if from.1 > to.1 {
        from.1 - 1
    } else {
        from.1
    };
    (x, y)
}

} // verus!
