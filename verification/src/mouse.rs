//! Mouse hit-testing against the areas of the screen.

use vstd::prelude::*;

verus! {

/// An area of the terminal: its top-left cell and its size in cells.
#[derive(Clone, Copy, Debug)]
pub struct Rect {
    pub x: u16,
    pub y: u16,
    pub width: u16,
    pub height: u16,
}

/// Where a mouse event happened.
#[derive(Clone, Copy, Debug)]
pub struct MouseEvent {
    pub column: u16,
    pub row: u16,
}

/// `a + b`, or `u16::MAX` where that would not fit.
pub open spec fn sat_add_u16(a: u16, b: u16) -> int {
    if a + b > u16::MAX { u16::MAX as int } else { a + b }
}

/// The cell lies inside the area: at or right of its left edge and left of
/// its right edge, at or below its top edge and above its bottom edge (the
/// edges being capped at `u16::MAX`).
pub open spec fn rect_contains(bounds: Rect, column: u16, row: u16) -> bool {
    &&& bounds.x <= column
    &&& column < sat_add_u16(bounds.x, bounds.width)
    &&& bounds.y <= row
    &&& row < sat_add_u16(bounds.y, bounds.height)
}

/// Whether the mouse event happened inside `bounds`.
pub fn mouse_inside(mouse_event: &MouseEvent, bounds: &Rect) -> (r: bool)
    ensures
        r == rect_contains(*bounds, mouse_event.column, mouse_event.row),
{
    let right = bounds.x.saturating_add(bounds.width);
    let bottom = bounds.y.saturating_add(bounds.height);
    mouse_event.column >= bounds.x && mouse_event.column < right && mouse_event.row >= bounds.y
        && mouse_event.row < bottom
}

/// The index of the first area that the mouse event happened in, if any.
pub fn find_mouse(mouse_event: &MouseEvent, rects: &[Rect]) -> (r: Option<usize>)
    ensures
        match r {
            Some(i) => {
                &&& i < rects@.len()
                &&& rect_contains(rects@[i as int], mouse_event.column, mouse_event.row)
                &&& forall|k: int| 0 <= k < i ==> !rect_contains(#[trigger] rects@[k], mouse_event.column, mouse_event.row)
            },
            None => forall|k: int| 0 <= k < rects@.len() ==> !rect_contains(#[trigger] rects@[k], mouse_event.column, mouse_event.row),
        },
{
    let mut i: usize = 0;
    while i < rects.len()
        invariant
            i <= rects@.len(),
            forall|k: int| 0 <= k < i ==> !rect_contains(#[trigger] rects@[k], mouse_event.column, mouse_event.row),
        decreases rects@.len() - i,
    {
        if mouse_inside(mouse_event, &rects[i]) {
            return Some(i);
        }
        i += 1;
    }
    None
}

} // verus!
