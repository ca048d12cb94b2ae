//! Integer grid coordinates and the four facings, with the rotation algebra.

use vstd::prelude::*;

verus! {

/// A point of the integer grid.
#[derive(Clone, Copy, Debug, PartialEq, Eq, Structural)]
pub struct Coords {
    pub x: i64,
    pub y: i64,
}

/// One of the four facings, numbered clockwise from `Up` (0) to `Left` (3).
#[derive(Clone, Copy, Debug, PartialEq, Eq, Structural)]
pub enum Direction {
    Up,
    Right,
    Down,
    Left,
}

impl Direction {
    /// The ordinal of a facing: `Up` 0, `Right` 1, `Down` 2, `Left` 3.
    pub open spec fn ordinal(self) -> int {
        match self {
            Direction::Up => 0,
            Direction::Right => 1,
            Direction::Down => 2,
            Direction::Left => 3,
        }
    }

    /// The facing with a given ordinal; ordinals outside 0..4 are taken modulo 4.
    pub open spec fn of_ordinal(n: int) -> Direction {
        let m = n % 4;
        if m == 0 {
            Direction::Up
        } else if m == 1 {
            Direction::Right
        } else if m == 2 {
            Direction::Down
        } else {
            Direction::Left
        }
    }

    /// Rotation as a sum of ordinals modulo 4.
    pub open spec fn rotated(self, rot: Direction) -> Direction {
        Direction::of_ordinal(self.ordinal() + rot.ordinal())
    }

    /// The facing numbered `u`.
    pub fn from_u8(u: u8) -> (d: Direction)
        requires
            u < 4,
        ensures
            d == Direction::of_ordinal(u as int),
            d.ordinal() == u,
    {
        match u {
            0 => Direction::Up,
            1 => Direction::Right,
            2 => Direction::Down,
            _ => Direction::Left,
        }
    }

    /// The ordinal of this facing as a byte.
    pub fn into_u8(self: &Self) -> (u: u8)
        ensures
            u == self.ordinal(),
            u < 4,
    {
        match self {
            Direction::Up => 0,
            Direction::Right => 1,
            Direction::Down => 2,
            Direction::Left => 3,
        }
    }

    /// Turns this facing by `rot`: the ordinals add modulo 4.
    pub fn rotate(self: &Self, rot: &Direction) -> (d: Direction)
        ensures
            d == self.rotated(*rot),
            d.ordinal() == (self.ordinal() + rot.ordinal()) % 4,
    {
        Direction::from_u8((self.into_u8() + rot.into_u8()) % 4)
    }

    /// `of_ordinal` inverts `ordinal`.
    pub proof fn lemma_ordinal_roundtrip(self)
        ensures
            0 <= self.ordinal() < 4,
            Direction::of_ordinal(self.ordinal()) == self,
    {
    }

    /// Rotating by `Up` changes nothing.
    pub proof fn lemma_rotate_up_is_identity(self)
        ensures
            self.rotated(Direction::Up) == self,
    {
    }

    /// Rotating twice equals rotating once by the sum of the two turns, taken
    /// modulo 4.
    pub proof fn lemma_rotate_composes(self, r1: Direction, r2: Direction)
        ensures
            self.rotated(r1).rotated(r2) == self.rotated(r1.rotated(r2)),
            self.rotated(r1).rotated(r2) == Direction::of_ordinal(
                self.ordinal() + (r1.ordinal() + r2.ordinal()) % 4,
            ),
    {
    }
}

impl From<&Direction> for u8 {
    /// The ordinal of the facing.
    fn from(dir: &Direction) -> (u: u8) {
        dir.into_u8()
    }
}

impl vstd::std_specs::convert::FromSpecImpl<&Direction> for u8 {
    open spec fn obeys_from_spec() -> bool {
        true
    }

    open spec fn from_spec(dir: &Direction) -> u8 {
        dir.ordinal() as u8
    }
}

impl Coords {
    /// The neighbour of a point one unit along `dir`, where `can_shift`
    /// holds.
    pub open spec fn shifted(self, dir: Direction) -> Coords {
        match dir {
            Direction::Right => Coords { x: (self.x + 1) as i64, y: self.y },
            Direction::Left => Coords { x: (self.x - 1) as i64, y: self.y },
            Direction::Up => Coords { x: self.x, y: (self.y + 1) as i64 },
            Direction::Down => Coords { x: self.x, y: (self.y - 1) as i64 },
        }
    }

    /// Whether the neighbour along `dir` is still representable.
    pub open spec fn can_shift(self, dir: Direction) -> bool {
        match dir {
            Direction::Right => self.x < i64::MAX,
            Direction::Left => self.x > i64::MIN,
            Direction::Up => self.y < i64::MAX,
            Direction::Down => self.y > i64::MIN,
        }
    }

    /// Moves this point one unit along `dir`.
    pub fn shift(self: &mut Self, dir: &Direction)
        requires
            old(self).can_shift(*dir),
        ensures
            *final(self) == old(self).shifted(*dir),
    {
        match dir {
            Direction::Right => self.x += 1,
            Direction::Left => self.x -= 1,
            Direction::Up => self.y += 1,
            Direction::Down => self.y -= 1,
        }
    }
}

} // verus!
