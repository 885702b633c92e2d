//! Positions on a grid of tiles, the four directions, and the walk of an
//! entity from tile to tile.

use vstd::prelude::*;

verus! {

/// A position on the grid: a column and a row. Rows grow downwards.
pub type TilePos = (i32, i32);

/// Something that stands on a tile.
pub trait TileEntity {
    /// Puts the entity on a tile.
    fn set_start_pos(&mut self, x: i32, y: i32)
    ;

    /// The tile on which the entity stands.
    fn tile_pos(&self) -> TilePos
    ;

    /// Whether the entity blocks its tile.
    fn is_solid(&self) -> bool
    ;
}

/// Arithmetic on positions, component by component.
pub trait TilePosExtension: Sized {
    spec fn as_ints(&self) -> (int, int);

    /// The sum of two positions.
    fn add(&self, other: &Self) -> (sum: Self)
        requires
            i32::MIN <= self.as_ints().0 + other.as_ints().0 <= i32::MAX,
            i32::MIN <= self.as_ints().1 + other.as_ints().1 <= i32::MAX,
        ensures
            sum.as_ints() == (
                self.as_ints().0 + other.as_ints().0,
                self.as_ints().1 + other.as_ints().1,
            ),
    ;

    /// The difference of two positions.
    fn sub(&self, other: &Self) -> (difference: Self)
        requires
            i32::MIN <= self.as_ints().0 - other.as_ints().0 <= i32::MAX,
            i32::MIN <= self.as_ints().1 - other.as_ints().1 <= i32::MAX,
        ensures
            difference.as_ints() == (
                self.as_ints().0 - other.as_ints().0,
                self.as_ints().1 - other.as_ints().1,
            ),
    ;

    /// The position with both components multiplied by `scale`.
    fn scale(&self, scale: &i32) -> (scaled: Self)
        requires
            i32::MIN <= self.as_ints().0 * *scale <= i32::MAX,
            i32::MIN <= self.as_ints().1 * *scale <= i32::MAX,
        ensures
            scaled.as_ints() == (self.as_ints().0 * *scale, self.as_ints().1 * *scale),
    ;

    /// The position with `scale` added to both components.
    fn add_s(&self, scale: &i32) -> (moved: Self)
        requires
            i32::MIN <= self.as_ints().0 + *scale <= i32::MAX,
            i32::MIN <= self.as_ints().1 + *scale <= i32::MAX,
        ensures
            moved.as_ints() == (self.as_ints().0 + *scale, self.as_ints().1 + *scale),
    ;

    /// The position with the absolute value of both components.
    fn abs(&self) -> (positive: Self)
        requires
            self.as_ints().0 > i32::MIN,
            self.as_ints().1 > i32::MIN,
        ensures
            positive.as_ints() == (magnitude(self.as_ints().0), magnitude(self.as_ints().1)),
    ;
}

/// The absolute value of a number.
pub open spec fn magnitude(value: int) -> int {
    if value < 0 {
        -value
    } else {
        value
    }
}

impl TilePosExtension for TilePos {
    open spec fn as_ints(&self) -> (int, int) {
        (self.0 as int, self.1 as int)
    }

    fn add(&self, other: &Self) -> (sum: Self) {
        (self.0 + other.0, self.1 + other.1)
    }

    fn sub(&self, other: &Self) -> (difference: Self) {
        (self.0 - other.0, self.1 - other.1)
    }

    fn scale(&self, scale: &i32) -> (scaled: Self) {
        (self.0 * *scale, self.1 * *scale)
    }

    fn add_s(&self, scale: &i32) -> (moved: Self) {
        (self.0 + *scale, self.1 + *scale)
    }

    fn abs(&self) -> (positive: Self) {
        (
            if self.0 < 0 {
                -self.0
            } else {
                self.0
            },
            if self.1 < 0 {
                -self.1
            } else {
                self.1
            },
        )
    }
}

/// One of the four directions of the grid.
#[derive(Clone, Copy, Debug, PartialEq, Eq, Structural)]
pub enum Direction {
    Up,
    Left,
    Down,
    Right,
}

/// The direction in which a difference of positions points: along the axis
/// on which it is longer. A difference that is as long on both axes, the
/// zero difference among them, points nowhere.
pub open spec fn direction_of(dx: int, dy: int) -> Option<Direction> {
    if magnitude(dx) == magnitude(dy) {
        None
    } else if magnitude(dx) > magnitude(dy) {
        if dx < 0 {
            Some(Direction::Left)
        } else {
            Some(Direction::Right)
        }
    } else if dy < 0 {
        Some(Direction::Up)
    } else {
        Some(Direction::Down)
    }
}

/// The direction of a difference whose components are 64 bits wide.
fn direction_between(dx: i64, dy: i64) -> (direction: Option<Direction>)
    requires
        -0x1_0000_0000 <= dx <= 0x1_0000_0000,
        -0x1_0000_0000 <= dy <= 0x1_0000_0000,
    ensures
        direction == direction_of(dx as int, dy as int),
{
    let ax = if dx < 0 {
        -dx
    } else {
        dx
    };
    let ay = if dy < 0 {
        -dy
    } else {
        dy
    };
    if ax == ay {
        None
    } else if ax > ay {
        if dx < 0 {
            Some(Direction::Left)
        } else {
            Some(Direction::Right)
        }
    } else if dy < 0 {
        Some(Direction::Up)
    } else {
        Some(Direction::Down)
    }
}

impl Direction {
    /// The direction in which `dir` points.
    pub fn from(dir: TilePos) -> (direction: Option<Direction>)
        ensures
            direction == direction_of(dir.0 as int, dir.1 as int),
    {
        direction_between(dir.0 as i64, dir.1 as i64)
    }

    /// One step in the direction.
    pub fn to_dir(self) -> (step: TilePos)
        ensures
            step == match self {
                Direction::Up => (0i32, -1i32),
                Direction::Left => (-1i32, 0i32),
                Direction::Down => (0i32, 1i32),
                Direction::Right => (1i32, 0i32),
            },
            direction_of(step.0 as int, step.1 as int) == Some(self),
    {
        match self {
            Direction::Up => (0, -1),
            Direction::Left => (-1, 0),
            Direction::Down => (0, 1),
            Direction::Right => (1, 0),
        }
    }
}

/// The tile after `from` on the way to `target`: one step along the axis
/// on which the way is longer, along the columns where both are as long.
/// At the target it is the target.
pub open spec fn next_tile(from: TilePos, target: TilePos) -> TilePos {
    let dx = target.0 - from.0;
    let dy = target.1 - from.1;
    if dx == 0 && dy == 0 {
        target
    } else if magnitude(dx) >= magnitude(dy) {
        (
            if dx < 0 {
                (from.0 - 1) as i32
            } else {
                (from.0 + 1) as i32
            },
            from.1,
        )
    } else {
        (
            from.0,
            if dy < 0 {
                (from.1 - 1) as i32
            } else {
                (from.1 + 1) as i32
            },
        )
    }
}

/// The number of steps from `from` to `target`.
pub open spec fn distance(from: TilePos, target: TilePos) -> int {
    magnitude(target.0 - from.0) + magnitude(target.1 - from.1)
}

/// A step towards the target is one tile long, points along an axis, and
/// brings the target one step nearer.
pub proof fn lemma_next_tile(from: TilePos, target: TilePos)
    requires
        from != target,
    ensures
        ({
            let next = next_tile(from, target);
            &&& direction_of(next.0 - from.0, next.1 - from.1) is Some
            &&& magnitude(next.0 - from.0) + magnitude(next.1 - from.1) == 1
            &&& distance(next, target) == distance(from, target) - 1
        }),
{
}

/// The walk of an entity over the grid, one tile at a time.
///
/// While the entity moves it stands between two tiles: `last_pos`, which it
/// has left, and `tile_pos`, the next tile on the way to `target_pos`.
#[derive(Clone, Copy, Debug)]
pub struct MovementBlock {
    tile_pos: TilePos,
    last_pos: TilePos,
    is_moving: bool,
    target_pos: TilePos,
    last_direction: Direction,
}

impl MovementBlock {
    #[verifier::type_invariant]
    closed spec fn inv(&self) -> bool {
        if self.is_moving {
            &&& self.last_pos != self.target_pos
            &&& self.tile_pos == next_tile(self.last_pos, self.target_pos)
        } else {
            self.last_pos == self.tile_pos && self.target_pos == self.tile_pos
        }
    }

    /// The tile that the entity occupies.
    pub closed spec fn position(&self) -> TilePos {
        self.tile_pos
    }

    /// The tile that the entity has left, or stands on.
    pub closed spec fn origin(&self) -> TilePos {
        self.last_pos
    }

    /// The tile to which the entity walks.
    pub closed spec fn target(&self) -> TilePos {
        self.target_pos
    }

    /// Whether the entity is on its way.
    pub closed spec fn moving(&self) -> bool {
        self.is_moving
    }

    /// The direction that the entity faces.
    pub closed spec fn facing(&self) -> Direction {
        self.last_direction
    }

    /// An entity at rest on `(x, y)` that faces `facing`.
    pub fn new(x: i32, y: i32, facing: Direction) -> (block: Self)
        ensures
            block.position() == (x, y),
            block.origin() == (x, y),
            block.target() == (x, y),
            !block.moving(),
            block.facing() == facing,
    {
        MovementBlock {
            tile_pos: (x, y),
            last_pos: (x, y),
            is_moving: false,
            target_pos: (x, y),
            last_direction: facing,
        }
    }

    /// The tile that the entity occupies.
    pub fn tile_pos(&self) -> (tile: TilePos)
        ensures
            tile == self.position(),
    {
        self.tile_pos
    }

    /// The tile that the entity has left, or stands on.
    pub fn last_pos(&self) -> (tile: TilePos)
        ensures
            tile == self.origin(),
    {
        self.last_pos
    }

    /// Whether the entity is on its way.
    pub fn is_moving(&self) -> (moving: bool)
        ensures
            moving == self.moving(),
    {
        self.is_moving
    }

    /// The direction that the entity faces.
    pub fn last_direction(&self) -> (facing: Direction)
        ensures
            facing == self.facing(),
    {
        self.last_direction
    }

    /// Turns the entity to face `facing`.
    pub fn face(&mut self, facing: Direction)
        ensures
            final(self).facing() == facing,
            final(self).position() == old(self).position(),
            final(self).origin() == old(self).origin(),
            final(self).target() == old(self).target(),
            final(self).moving() == old(self).moving(),
    {
        proof {
            use_type_invariant(&*self);
        }
        self.last_direction = facing;
    }

    /// The tile after the one that the entity has left, on the way to its
    /// target.
    pub fn next_pos(&self) -> (next: TilePos)
        ensures
            next == next_tile(self.origin(), self.target()),
    {
        step_towards(self.last_pos, self.target_pos)
    }

    /// The direction from the tile that the entity has left to `next_pos`,
    /// while it moves.
    pub fn direction(&self, next_pos: TilePos) -> (direction: Option<Direction>)
        ensures
            direction == if self.moving() {
                direction_of(next_pos.0 - self.origin().0, next_pos.1 - self.origin().1)
            } else {
                None
            },
    {
        if !self.is_moving {
            None
        } else {
            direction_between(
                next_pos.0 as i64 - self.last_pos.0 as i64,
                next_pos.1 as i64 - self.last_pos.1 as i64,
            )
        }
    }

    /// Sends the entity to `(x, y)`, and says whether it set out. An entity
    /// that is on its way, or stands on `(x, y)`, stays as it is. One that
    /// sets out occupies the first tile of the way and faces it.
    pub fn move_to(&mut self, x: i32, y: i32) -> (started: bool)
        ensures
            started == (!old(self).moving() && old(self).position() != (x, y)),
            !started ==> *final(self) == *old(self),
            started ==> {
                &&& final(self).moving()
                &&& final(self).target() == (x, y)
                &&& final(self).origin() == old(self).position()
                &&& final(self).position() == next_tile(old(self).position(), (x, y))
                &&& Some(final(self).facing()) == direction_of(
                    final(self).position().0 - final(self).origin().0,
                    final(self).position().1 - final(self).origin().1,
                )
            },
    {
        proof {
            use_type_invariant(&*self);
        }
        if self.is_moving || (self.tile_pos.0 == x && self.tile_pos.1 == y) {
            return false;
        }
        let from = self.tile_pos;
        let next = step_towards(from, (x, y));
        proof {
            lemma_next_tile(from, (x, y));
        }
        let facing = match direction_between(
            next.0 as i64 - from.0 as i64,
            next.1 as i64 - from.1 as i64,
        ) {
            Some(direction) => direction,
            None => self.last_direction,
        };
        *self = MovementBlock {
            tile_pos: next,
            last_pos: from,
            is_moving: true,
            target_pos: (x, y),
            last_direction: facing,
        };
        true
    }

    /// Brings the entity to rest on the tile that it occupies.
    pub fn stop(&mut self)
        ensures
            !final(self).moving(),
            final(self).position() == old(self).position(),
            final(self).origin() == old(self).position(),
            final(self).target() == old(self).position(),
            final(self).facing() == old(self).facing(),
    {
        *self = MovementBlock {
            tile_pos: self.tile_pos,
            last_pos: self.tile_pos,
            is_moving: false,
            target_pos: self.tile_pos,
            last_direction: self.last_direction,
        };
    }

    /// Puts the entity at rest on `(x, y)`.
    pub fn teleport_to(&mut self, x: i32, y: i32)
        ensures
            !final(self).moving(),
            final(self).position() == (x, y),
            final(self).origin() == (x, y),
            final(self).target() == (x, y),
            final(self).facing() == old(self).facing(),
    {
        *self = MovementBlock {
            tile_pos: (x, y),
            last_pos: (x, y),
            is_moving: false,
            target_pos: (x, y),
            last_direction: self.last_direction,
        };
    }

    /// Completes one step of an entity that is on its way: it has reached
    /// the tile that it occupies, faces the way it came, and goes on to the
    /// next tile, or comes to rest where that tile is its target. An entity
    /// at rest stays as it is. Each step brings the target one tile nearer.
    pub fn advance(&mut self)
        ensures
            !old(self).moving() ==> *final(self) == *old(self),
            old(self).moving() ==> {
                &&& final(self).origin() == old(self).position()
                &&& final(self).target() == old(self).target()
                &&& final(self).position() == next_tile(old(self).position(), old(self).target())
                &&& final(self).moving() == (old(self).position() != old(self).target())
                &&& Some(final(self).facing()) == direction_of(
                    old(self).position().0 - old(self).origin().0,
                    old(self).position().1 - old(self).origin().1,
                )
                &&& distance(final(self).origin(), final(self).target()) == distance(
                    old(self).origin(),
                    old(self).target(),
                ) - 1
            },
    {
        proof {
            use_type_invariant(&*self);
        }
        if !self.is_moving {
            return ;
        }
        proof {
            lemma_next_tile(self.last_pos, self.target_pos);
        }
        let facing = match self.direction(self.tile_pos) {
            Some(direction) => direction,
            None => self.last_direction,
        };
        let reached = self.tile_pos;
        let target = self.target_pos;
        let next = step_towards(reached, target);
        let arrived = reached.0 == target.0 && reached.1 == target.1;
        *self = MovementBlock {
            tile_pos: next,
            last_pos: reached,
            is_moving: !arrived,
            target_pos: target,
            last_direction: facing,
        };
    }
}

/// The tile after `from` on the way to `target`.
fn step_towards(from: TilePos, target: TilePos) -> (next: TilePos)
    ensures
        next == next_tile(from, target),
{
    let dx = target.0 as i64 - from.0 as i64;
    let dy = target.1 as i64 - from.1 as i64;
    let ax = if dx < 0 {
        -dx
    } else {
        dx
    };
    let ay = if dy < 0 {
        -dy
    } else {
        dy
    };
    if dx == 0 && dy == 0 {
        target
    } else if ax >= ay {
        (
            if dx < 0 {
                from.0 - 1
            } else {
                from.0 + 1
            },
            from.1,
        )
    } else {
        (
            from.0,
            if dy < 0 {
                from.1 - 1
            } else {
                from.1 + 1
            },
        )
    }
}

} // verus!
