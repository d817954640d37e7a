//! Health pickups: fixed-size boxes that stay where they were dropped.

use vstd::prelude::*;
use crate::geometry::{Vector2, COORD_LIMIT};

verus! {

/// Side of a health box: 32 pixels.
pub const HEALTH_BOX_SIZE: i64 = 32_000_000_000;

/// Hit points restored by one health box.
pub const HEALTH_BOX_HEAL_AMOUNT: i64 = 5;

/// Time between two health boxes: 20 seconds.
pub const HEALTH_BOX_SPAWN_INTERVAL: u64 = 20_000_000;

/// A health box. `position` is the corner nearest the origin.
#[derive(Clone, Copy, Debug, PartialEq, Eq, Structural)]
pub struct HealthBox {
    pub position: Vector2,
}

impl HealthBox {
    /// The position is within the storable range.
    pub open spec fn wf(self) -> bool {
        self.position.in_range()
    }

    pub fn new(position: Vector2) -> (health_box: HealthBox)
        ensures
            health_box.position == position,
    {
        HealthBox { position }
    }

    /// Tells whether the position is storable.
    pub fn is_valid(&self) -> (ok: bool)
        ensures
            ok == self.wf(),
    {
        -COORD_LIMIT <= self.position.x && self.position.x <= COORD_LIMIT
            && -COORD_LIMIT <= self.position.y && self.position.y <= COORD_LIMIT
    }
}

} // verus!
