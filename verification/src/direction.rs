//! Directions, turn legality and orientation queries.
//!
//! The resolver consumes the raw per-frame intent impulses together with
//! the direction last applied on a tick, and produces the next committed
//! direction. A 180-degree reversal is never produced: when the last
//! applied direction is horizontal only a vertical impulse can change
//! course, and the other way round.

use vstd::prelude::*;
use crate::grid::Cell;
use crate::grid::wrap_cell;
use crate::grid::wrap_int;
use crate::grid::cell_in_grid;

verus! {

/// One of the four movement directions on the grid.
#[derive(Clone, Copy, PartialEq, Eq, Structural, Debug)]
pub enum Direction {
    Up,
    Down,
    Left,
    Right,
}

/// Rendered shape of the segment left behind by an advancing head.
#[derive(Clone, Copy, PartialEq, Eq, Structural, Debug)]
pub enum Bend {
    Straight,
    Clockwise,
    CounterClockwise,
}

/// Raw per-frame directional impulses, before legality filtering.
#[derive(Clone, Copy, PartialEq, Eq, Structural, Debug)]
pub struct Intent {
    pub up: bool,
    pub down: bool,
    pub left: bool,
    pub right: bool,
}

impl Default for Direction {
    /// The snake starts out moving right.
    fn default() -> (d: Self)
        ensures
            d == Direction::Right,
    {
        Direction::Right
    }
}

/// The exact reverse of a direction.
pub open spec fn opposite(d: Direction) -> Direction {
    match d {
        Direction::Up => Direction::Down,
        Direction::Down => Direction::Up,
        Direction::Left => Direction::Right,
        Direction::Right => Direction::Left,
    }
}

/// Whether a direction runs along the horizontal axis.
pub open spec fn is_horizontal(d: Direction) -> bool {
    d == Direction::Left || d == Direction::Right
}

/// Unit step along the x axis for a direction.
pub open spec fn offset_x(d: Direction) -> int {
    match d {
        Direction::Left => -1,
        Direction::Right => 1,
        _ => 0,
    }
}

/// Unit step along the y axis for a direction.
pub open spec fn offset_y(d: Direction) -> int {
    match d {
        Direction::Up => 1,
        Direction::Down => -1,
        _ => 0,
    }
}

/// The cell reached from `c` by one step in direction `d`, wrapped onto
/// the torus.
pub open spec fn stepped_cell(c: Cell, d: Direction) -> Cell {
    Cell { x: wrap_int(c.x + offset_x(d)) as i32, y: wrap_int(c.y + offset_y(d)) as i32 }
}

/// The four direction changes that bend the body clockwise.
pub open spec fn spec_is_clockwise(from: Direction, to: Direction) -> bool {
    ||| (from == Direction::Right && to == Direction::Down)
    ||| (from == Direction::Down && to == Direction::Left)
    ||| (from == Direction::Left && to == Direction::Up)
    ||| (from == Direction::Up && to == Direction::Right)
}

/// How the previous head bends when the course changes from `from` to
/// `to`: unchanged course keeps the body straight, one of the four
/// clockwise pairs bends it clockwise, any other change bends it the
/// other way.
pub open spec fn spec_bend(from: Direction, to: Direction) -> Bend {
    if from == to {
        Bend::Straight
    } else if spec_is_clockwise(from, to) {
        Bend::Clockwise
    } else {
        Bend::CounterClockwise
    }
}

/// Net vertical impulse of an intent: impulses that cancel count as none.
pub open spec fn impulse_up(i: Intent) -> bool {
    i.up && !i.down
}

/// Net downward impulse of an intent.
pub open spec fn impulse_down(i: Intent) -> bool {
    i.down && !i.up
}

/// Net leftward impulse of an intent.
pub open spec fn impulse_left(i: Intent) -> bool {
    i.left && !i.right
}

/// Net rightward impulse of an intent.
pub open spec fn impulse_right(i: Intent) -> bool {
    i.right && !i.left
}

/// The committed direction after one frame of input: if the last applied
/// direction is horizontal, only a net vertical impulse changes course;
/// if it is vertical, only a net horizontal impulse does; otherwise the
/// previously committed direction is kept.
pub open spec fn spec_resolve(intent: Intent, current: Direction, last: Direction) -> Direction {
    if is_horizontal(last) {
        if impulse_up(intent) {
            Direction::Up
        } else if impulse_down(intent) {
            Direction::Down
        } else {
            current
        }
    } else {
        if impulse_left(intent) {
            Direction::Left
        } else if impulse_right(intent) {
            Direction::Right
        } else {
            current
        }
    }
}

impl Direction {
    /// Whether turning from `self` to `next` bends the body clockwise.
    pub fn is_clockwise(&self, next: &Direction) -> (r: bool)
        ensures
            r == spec_is_clockwise(*self, *next),
    {
        matches!(
            (self, next),
            (Direction::Right, Direction::Down)
                | (Direction::Down, Direction::Left)
                | (Direction::Left, Direction::Up)
                | (Direction::Up, Direction::Right)
        )
    }

    /// The exact reverse of this direction.
    pub fn reversed(&self) -> (r: Direction)
        ensures
            r == opposite(*self),
    {
        match self {
            Direction::Up => Direction::Down,
            Direction::Down => Direction::Up,
            Direction::Left => Direction::Right,
            Direction::Right => Direction::Left,
        }
    }

    /// Rotation of the head sprite, in degrees, for this direction.
    pub fn head_orientation(&self) -> (deg: i32)
        ensures
            deg == spec_head_orientation(*self),
    {
        match self {
            Direction::Right => 0,
            Direction::Up => 90,
            Direction::Left => 180,
            Direction::Down => -90,
        }
    }
}

/// Fixed rotation of the head per direction, in degrees.
pub open spec fn spec_head_orientation(d: Direction) -> int {
    match d {
        Direction::Right => 0,
        Direction::Up => 90,
        Direction::Left => 180,
        Direction::Down => -90,
    }
}

/// Take one wrapped step from `c` in direction `d`.
pub fn step_cell(c: Cell, d: Direction) -> (r: Cell)
    requires
        cell_in_grid(c),
    ensures
        r == stepped_cell(c, d),
        cell_in_grid(r),
{
    let (dx, dy): (i32, i32) = match d {
        Direction::Up => (0, 1),
        Direction::Down => (0, -1),
        Direction::Left => (-1, 0),
        Direction::Right => (1, 0),
    };
    wrap_cell(c.x + dx, c.y + dy)
}

/// Classify the bend left behind when the course changes from `from` to
/// `to`.
pub fn classify_bend(from: Direction, to: Direction) -> (b: Bend)
    ensures
        b == spec_bend(from, to),
{
    if from == to {
        Bend::Straight
    } else if from.is_clockwise(&to) {
        Bend::Clockwise
    } else {
        Bend::CounterClockwise
    }
}

/// The committed direction and the direction applied on the previous
/// tick. The committed one may change any number of times between ticks;
/// the last one changes only when the chain advances.
#[derive(Clone, Copy, PartialEq, Eq, Structural, Debug)]
pub struct DirectionState {
    pub current: Direction,
    pub last: Direction,
}

impl DirectionState {
    /// The committed direction is never the exact reverse of the last
    /// applied one, so the snake can never turn back into its own neck.
    pub open spec fn wf(self) -> bool {
        self.current != opposite(self.last)
    }

    /// Both directions start out to the right.
    pub fn new() -> (s: Self)
        ensures
            s.wf(),
            s.current == Direction::Right,
            s.last == Direction::Right,
    {
        DirectionState { current: Direction::Right, last: Direction::Right }
    }

    /// Feed one frame of raw input into the resolver, committing the
    /// resulting direction.
    pub fn apply_intent(&mut self, intent: Intent)
        requires
            old(self).wf(),
        ensures
            final(self).wf(),
            final(self).current == spec_resolve(intent, old(self).current, old(self).last),
            final(self).last == old(self).last,
    {
        self.current = resolve(intent, self.current, self.last);
    }

    /// Record that the committed direction has just been applied by an
    /// advancing tick.
    pub fn commit_tick(&mut self)
        requires
            old(self).wf(),
        ensures
            final(self).wf(),
            final(self).current == old(self).current,
            final(self).last == old(self).current,
    {
        self.last = self.current;
    }
}

/// Resolve one frame of raw input against the last applied direction.
/// The result is never the exact reverse of `last`.
pub fn resolve(intent: Intent, current: Direction, last: Direction) -> (r: Direction)
    requires
        current != opposite(last),
    ensures
        r == spec_resolve(intent, current, last),
        r != opposite(last),
{
    if matches!(last, Direction::Left | Direction::Right) {
        if intent.up && !intent.down {
            Direction::Up
        } else if intent.down && !intent.up {
            Direction::Down
        } else {
            current
        }
    } else {
        if intent.left && !intent.right {
            Direction::Left
        } else if intent.right && !intent.left {
            Direction::Right
        } else {
            current
        }
    }
}

/// Turn legality, stated over every input: whatever the intent and the
/// committed direction, the resolver never yields the exact reverse of
/// the last applied direction.
pub proof fn lemma_no_reversal(intent: Intent, current: Direction, last: Direction)
    requires
        current != opposite(last),
    ensures
        spec_resolve(intent, current, last) != opposite(last),
{
}

} // verus!
