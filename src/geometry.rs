use vstd::prelude::*;

verus! {

/// A point in screen pixels, after scaling.
#[derive(Clone, Copy, Debug, PartialEq, Eq, Structural)]
pub struct Pos {
    pub x: i32,
    pub y: i32,
}

/// An axis-aligned rectangle given by its top-left corner and its size.
#[derive(Clone, Copy, Debug, PartialEq, Eq, Structural)]
pub struct Rect {
    pub x: i32,
    pub y: i32,
    pub w: u32,
    pub h: u32,
}

/// Native sprite edge in texture pixels.
pub const SPRITE_PIXELS: u32 = 8;

/// Uniform multiplier from texture pixels to screen pixels.
pub const SCALE_FACTOR: u32 = 2;

/// Edge of every entity's bounding box on screen.
pub const ENTITY_SIZE: u32 = SPRITE_PIXELS * SCALE_FACTOR;

impl Pos {
    pub fn new(x: i32, y: i32) -> (r: Pos)
        ensures
            r.x == x,
            r.y == y,
    {
        Pos { x, y }
    }
}

impl Rect {
    pub fn new(x: i32, y: i32, w: u32, h: u32) -> (r: Rect)
        ensures
            r.x == x,
            r.y == y,
            r.w == w,
            r.h == h,
    {
        Rect { x, y, w, h }
    }
}

/// Half-open overlap: boxes that only share an edge do not overlap.
pub open spec fn overlaps(a: Rect, b: Rect) -> bool {
    &&& a.x < b.x + b.w
    &&& a.x + a.w > b.x
    &&& a.y < b.y + b.h
    &&& a.y + a.h > b.y
}

/// The bounding box of an entity whose top-left corner is at `p`.
pub open spec fn box_at(p: Pos) -> Rect {
    Rect { x: p.x, y: p.y, w: ENTITY_SIZE, h: ENTITY_SIZE }
}

/// Whether two rectangles overlap, computed without overflow.
pub fn check_aabb(a: Rect, b: Rect) -> (r: bool)
    ensures
        r == overlaps(a, b),
{
    let ax = a.x as i64;
    let ay = a.y as i64;
    let bx = b.x as i64;
    let by = b.y as i64;
    ax < bx + b.w as i64 && ax + a.w as i64 > bx && ay < by + b.h as i64 && ay + a.h as i64 > by
}

/// The bounding box of an entity at `p`.
pub fn entity_box(p: Pos) -> (r: Rect)
    ensures
        r == box_at(p),
{
    Rect::new(p.x, p.y, ENTITY_SIZE, ENTITY_SIZE)
}

/// Whether entities at `a` and `b` touch.
pub fn entities_overlap(a: Pos, b: Pos) -> (r: bool)
    ensures
        r == overlaps(box_at(a), box_at(b)),
{
    check_aabb(entity_box(a), entity_box(b))
}

} // verus!
