//! The boxes that entities collide with.
//!
//! Each entity carries an axis-aligned box around its position: the half
//! extent of its sprite, scaled by its scale factor, on either side.
use crate::geometry::{fx_mul, scaled, Point};
use vstd::prelude::*;

verus! {

/// Half of a sprite's width and height before scaling.
#[derive(Clone, Copy, Debug, PartialEq, Eq, Structural)]
pub struct SpriteSize(pub Point);

/// What a collision pass reads of an entity: its name, where it is, and
/// the size and scale of its sprite.
#[derive(Clone, Copy, Debug, PartialEq, Eq, Structural)]
pub struct Body {
    pub entity: u64,
    pub translation: Point,
    pub scale: Point,
    pub size: SpriteSize,
}

impl Body {
    /// Horizontal distance from the centre to the box's sides.
    pub open spec fn reach_x(self) -> int {
        fx_mul(self.size.0.x as int, self.scale.x as int)
    }

    /// Vertical distance from the centre to the box's top and bottom.
    pub open spec fn reach_y(self) -> int {
        fx_mul(self.size.0.y as int, self.scale.y as int)
    }

    pub open spec fn left(self) -> int {
        self.translation.x - self.reach_x()
    }

    pub open spec fn right(self) -> int {
        self.translation.x + self.reach_x()
    }

    pub open spec fn bottom(self) -> int {
        self.translation.y - self.reach_y()
    }

    pub open spec fn top(self) -> int {
        self.translation.y + self.reach_y()
    }
}

/// Two boxes overlap when their open intervals meet on both axes. Boxes
/// that only touch do not overlap.
pub open spec fn overlaps(a: Body, b: Body) -> bool {
    &&& a.left() < b.right()
    &&& a.right() > b.left()
    &&& a.bottom() < b.top()
    &&& a.top() > b.bottom()
}

/// Tests whether the boxes of two entities overlap.
pub fn collide(a: &Body, b: &Body) -> (hit: bool)
    ensures
        hit == overlaps(*a, *b),
{
    let a_x: i64 = scaled(a.size.0.x, a.scale.x);
    let a_y: i64 = scaled(a.size.0.y, a.scale.y);
    let b_x: i64 = scaled(b.size.0.x, b.scale.x);
    let b_y: i64 = scaled(b.size.0.y, b.scale.y);

    let a_min_x: i64 = a.translation.x as i64 - a_x;
    let a_max_x: i64 = a.translation.x as i64 + a_x;
    let a_min_y: i64 = a.translation.y as i64 - a_y;
    let a_max_y: i64 = a.translation.y as i64 + a_y;

    let b_min_x: i64 = b.translation.x as i64 - b_x;
    let b_max_x: i64 = b.translation.x as i64 + b_x;
    let b_min_y: i64 = b.translation.y as i64 - b_y;
    let b_max_y: i64 = b.translation.y as i64 + b_y;

    a_min_x < b_max_x && a_max_x > b_min_x && a_min_y < b_max_y && a_max_y > b_min_y
}

/// Boxes that lie apart on one axis, or only touch there, never overlap.
pub proof fn lemma_separated_never_overlap(a: Body, b: Body)
    requires
        a.right() <= b.left() || b.right() <= a.left() || a.top() <= b.bottom() || b.top()
            <= a.bottom(),
    ensures
        !overlaps(a, b),
{
}

/// Overlap does not depend on the order of the two boxes.
pub proof fn lemma_overlap_symmetric(a: Body, b: Body)
    ensures
        overlaps(a, b) == overlaps(b, a),
{
}

} // verus!
