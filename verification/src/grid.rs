//! Grid directions and geometric operations on packed positions.
use vstd::prelude::*;
use crate::geo::{WorldPos, wrap26i, wrap12i};
use vstd::math::abs;

verus! {

/// A movement direction on the grid.
#[derive(Clone, Copy, Debug, PartialEq, Eq, Structural, Hash)]
pub enum Direction {
    Stay,
    North,
    South,
    West,
    East,
    NorthWest,
    NorthEast,
    SouthWest,
    SouthEast,
    Up,
    Down,
}

impl Direction {
    /// The coordinate delta of this direction.
    pub open spec fn spec_offset(self) -> (int, int, int) {
        match self {
            Direction::Stay => (0, 0, 0),
            Direction::North => (0, -1, 0),
            Direction::South => (0, 1, 0),
            Direction::West => (-1, 0, 0),
            Direction::East => (1, 0, 0),
            Direction::NorthWest => (-1, -1, 0),
            Direction::NorthEast => (1, -1, 0),
            Direction::SouthWest => (-1, 1, 0),
            Direction::SouthEast => (1, 1, 0),
            Direction::Up => (0, 0, 1),
            Direction::Down => (0, 0, -1),
        }
    }

    /// The coordinate delta (dx, dy, dz) of this direction.
    pub fn offset(&self) -> (r: (i32, i32, i32))
        ensures
            r.0 == self.spec_offset().0,
            r.1 == self.spec_offset().1,
            r.2 == self.spec_offset().2,
    {
        match self {
            Direction::Stay => (0, 0, 0),
            Direction::North => (0, -1, 0),
            Direction::South => (0, 1, 0),
            Direction::West => (-1, 0, 0),
            Direction::East => (1, 0, 0),
            Direction::NorthWest => (-1, -1, 0),
            Direction::NorthEast => (1, -1, 0),
            Direction::SouthWest => (-1, 1, 0),
            Direction::SouthEast => (1, 1, 0),
            Direction::Up => (0, 0, 1),
            Direction::Down => (0, 0, -1),
        }
    }
}

/// Geometric operations over a grid position, separated from the
/// position's storage representation.
pub trait GridLogic: Sized {
    /// The (x, y, z) coordinates this value denotes.
    spec fn coords(self) -> (int, int, int);

    /// Moves one step in the given direction; each axis wraps at the
    /// boundary of its packed field range.
    fn shift(&self, dir: Direction) -> (r: Self)
        ensures
            r.coords().0 == wrap26i(self.coords().0 + dir.spec_offset().0),
            r.coords().1 == wrap26i(self.coords().1 + dir.spec_offset().1),
            r.coords().2 == wrap12i(self.coords().2 + dir.spec_offset().2),
    ;

    /// The squared Euclidean distance in the x-y plane.
    fn distance_squared(&self, other: Self) -> (r: i64)
        ensures
            r == (self.coords().0 - other.coords().0) * (self.coords().0 - other.coords().0) + (
            self.coords().1 - other.coords().1) * (self.coords().1 - other.coords().1),
    ;

    /// The Manhattan distance in the x-y plane.
    fn manhattan_distance(&self, other: Self) -> (r: i32)
        ensures
            r == abs(self.coords().0 - other.coords().0) + abs(
                self.coords().1 - other.coords().1,
            ),
    ;

    /// Whether `self` lies within `radius` of `center`, by squared
    /// Euclidean distance in the x-y plane.
    fn is_in_radius(&self, center: Self, radius: i32) -> (r: bool)
        ensures
            r == ((self.coords().0 - center.coords().0) * (self.coords().0 - center.coords().0) + (
            self.coords().1 - center.coords().1) * (self.coords().1 - center.coords().1) <= radius
                * radius),
    ;
}

impl GridLogic for WorldPos {
    /// The decoded coordinates of the packed word.
    open spec fn coords(self) -> (int, int, int) {
        (self.spec_x(), self.spec_y(), self.spec_z())
    }

    fn shift(&self, dir: Direction) -> (r: WorldPos) {
        let (dx, dy, dz) = dir.offset();
        let r = WorldPos::new(self.x() + dx, self.y() + dy, self.z() + dz);
        r
    }

    fn distance_squared(&self, other: WorldPos) -> (r: i64) {
        let dx: i64 = (self.x() - other.x()) as i64;
        let dy: i64 = (self.y() - other.y()) as i64;
        proof {
            assert(dx * dx <= 0x4000000 * 0x4000000 && dx * dx >= 0 && dy * dy <= 0x4000000
                * 0x4000000 && dy * dy >= 0) by (nonlinear_arith)
                requires
                    -0x4000000 <= dx <= 0x4000000,
                    -0x4000000 <= dy <= 0x4000000,
            ;
        }
        dx * dx + dy * dy
    }

    fn manhattan_distance(&self, other: WorldPos) -> (r: i32) {
        let dx: i32 = self.x() - other.x();
        let dy: i32 = self.y() - other.y();
        let ax: i32 = if dx < 0 { -dx } else { dx };
        let ay: i32 = if dy < 0 { -dy } else { dy };
        ax + ay
    }

    fn is_in_radius(&self, center: WorldPos, radius: i32) -> (r: bool) {
        let d2: i64 = self.distance_squared(center);
        proof {
            let ri: int = radius as int;
            assert(-0x8000000000000000 <= ri * ri < 0x8000000000000000) by (nonlinear_arith)
                requires
                    -0x80000000 <= ri < 0x80000000,
            ;
        }
        let r2: i64 = (radius as i64) * (radius as i64);
        d2 <= r2
    }
}

} // verus!
