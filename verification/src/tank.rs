//! A participant's runtime state: where it stands, where it faces, and its health.

use vstd::prelude::*;
use crate::geom::{Coords, Direction};

verus! {

/// Health of a freshly created tank, and the most a tank can have.
pub const MAX_HP: i64 = 100;

/// One participant on the field.
#[derive(Clone, Copy, Debug, PartialEq, Eq, Structural)]
pub struct Tank {
    pub pos: Coords,
    pub dir: Direction,
    pub hp: i64,
}

impl Tank {
    /// A tank is alive while its health is positive.
    pub open spec fn is_alive(self) -> bool {
        self.hp > 0
    }

    /// The tank after one step along its facing.
    pub open spec fn stepped(self) -> Tank {
        Tank { pos: self.pos.shifted(self.dir), ..self }
    }

    /// The tank after turning by `rot`.
    pub open spec fn turned(self, rot: Direction) -> Tank {
        Tank { dir: self.dir.rotated(rot), ..self }
    }

    /// The tank with its health reduced by `damage`, where the health
    /// stays representable.
    pub open spec fn hurt(self, damage: int) -> Tank {
        Tank { hp: (self.hp - damage) as i64, ..self }
    }

    /// The tank with its health set to zero.
    pub open spec fn knocked_out(self) -> Tank {
        Tank { hp: 0, ..self }
    }

    /// A tank at the origin, facing right, at full health.
    pub fn new() -> (t: Tank)
        ensures
            t == (Tank { pos: Coords { x: 0, y: 0 }, dir: Direction::Right, hp: MAX_HP }),
            t.is_alive(),
    {
        Tank { pos: Coords { x: 0, y: 0 }, dir: Direction::Right, hp: MAX_HP }
    }

    /// Whether the tank is alive.
    pub fn alive(self: &Self) -> (b: bool)
        ensures
            b == self.is_alive(),
    {
        self.hp > 0
    }

    /// Moves the tank one unit along its facing.
    pub fn step(self: &mut Self)
        requires
            old(self).pos.can_shift(old(self).dir),
        ensures
            *final(self) == old(self).stepped(),
    {
        let dir = self.dir;
        self.pos.shift(&dir);
    }
}

} // verus!
