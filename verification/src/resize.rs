//! Resizing the undecorated window from its edges: which resize a pointer
//! near the window's edges starts, and the cursor that shows it.

use vstd::prelude::*;

verus! {

/// The direction in which a window edge or corner is dragged.
#[derive(Debug, PartialEq, Eq, Structural, Clone, Copy)]
pub enum ResizeDirection {
    North,
    South,
    East,
    West,
    NorthEast,
    SouthEast,
    NorthWest,
    SouthWest,
}

/// The resize cursor shapes.
#[derive(Debug, PartialEq, Eq, Structural, Clone, Copy)]
pub enum ResizeCursor {
    /// Up and down.
    Vertical,
    /// Left and right.
    Horizontal,
    /// North-west to south-east.
    NwSe,
    /// North-east to south-west.
    NeSw,
}

/// The resize that a pointer within the border band of the given edges
/// starts. A corner takes precedence over a single edge; of two opposite
/// edges (a window thinner than two bands) the left and the top one win.
pub open spec fn edge_resize(left: bool, right: bool, top: bool, bottom: bool) -> Option<ResizeDirection> {
    if left && top {
        Some(ResizeDirection::NorthWest)
    } else if right && top {
        Some(ResizeDirection::NorthEast)
    } else if left && bottom {
        Some(ResizeDirection::SouthWest)
    } else if right && bottom {
        Some(ResizeDirection::SouthEast)
    } else if left {
        Some(ResizeDirection::West)
    } else if right {
        Some(ResizeDirection::East)
    } else if top {
        Some(ResizeDirection::North)
    } else if bottom {
        Some(ResizeDirection::South)
    } else {
        None
    }
}

/// Whether a direction moves the west (left) edge.
pub open spec fn moves_west(d: ResizeDirection) -> bool {
    d == ResizeDirection::West || d == ResizeDirection::NorthWest || d == ResizeDirection::SouthWest
}

/// Whether a direction moves the east (right) edge.
pub open spec fn moves_east(d: ResizeDirection) -> bool {
    d == ResizeDirection::East || d == ResizeDirection::NorthEast || d == ResizeDirection::SouthEast
}

/// Whether a direction moves the north (top) edge.
pub open spec fn moves_north(d: ResizeDirection) -> bool {
    d == ResizeDirection::North || d == ResizeDirection::NorthEast || d == ResizeDirection::NorthWest
}

/// Whether a direction moves the south (bottom) edge.
pub open spec fn moves_south(d: ResizeDirection) -> bool {
    d == ResizeDirection::South || d == ResizeDirection::SouthEast || d == ResizeDirection::SouthWest
}

/// The resize that a pointer near the given window edges starts, if any
/// (see [`edge_resize`]).
pub fn resize_direction(left: bool, right: bool, top: bool, bottom: bool) -> (dir: Option<ResizeDirection>)
    ensures
        dir == edge_resize(left, right, top, bottom),
{
    if left && top {
        Some(ResizeDirection::NorthWest)
    } else if right && top {
        Some(ResizeDirection::NorthEast)
    } else if left && bottom {
        Some(ResizeDirection::SouthWest)
    } else if right && bottom {
        Some(ResizeDirection::SouthEast)
    } else if left {
        Some(ResizeDirection::West)
    } else if right {
        Some(ResizeDirection::East)
    } else if top {
        Some(ResizeDirection::North)
    } else if bottom {
        Some(ResizeDirection::South)
    } else {
        None
    }
}

/// The cursor of a resize: the axis, or the diagonal, along which it drags.
pub open spec fn cursor_for(d: ResizeDirection) -> ResizeCursor {
    match d {
        ResizeDirection::North | ResizeDirection::South => ResizeCursor::Vertical,
        ResizeDirection::East | ResizeDirection::West => ResizeCursor::Horizontal,
        ResizeDirection::NorthWest | ResizeDirection::SouthEast => ResizeCursor::NwSe,
        ResizeDirection::NorthEast | ResizeDirection::SouthWest => ResizeCursor::NeSw,
    }
}

/// The cursor shown while hovering a resize border (see [`cursor_for`]).
pub fn resize_cursor(dir: ResizeDirection) -> (c: ResizeCursor)
    ensures
        c == cursor_for(dir),
{
    match dir {
        ResizeDirection::North | ResizeDirection::South => ResizeCursor::Vertical,
        ResizeDirection::East | ResizeDirection::West => ResizeCursor::Horizontal,
        ResizeDirection::NorthWest | ResizeDirection::SouthEast => ResizeCursor::NwSe,
        ResizeDirection::NorthEast | ResizeDirection::SouthWest => ResizeCursor::NeSw,
    }
}

/// A resize starts exactly when the pointer is within a border band, and
/// it moves an edge the pointer is at: the left edge whenever the pointer
/// is at it, the right edge when at it and not at the left one, and alike
/// for top and bottom.
pub proof fn lemma_resize_follows_edges(left: bool, right: bool, top: bool, bottom: bool)
    ensures
        edge_resize(left, right, top, bottom) is Some <==> (left || right || top || bottom),
        edge_resize(left, right, top, bottom) matches Some(d) ==> {
            &&& moves_west(d) <==> left
            &&& moves_east(d) <==> (right && !left)
            &&& moves_north(d) <==> top
            &&& moves_south(d) <==> (bottom && !top)
        },
{
}

/// The cursor always runs along the directions that the resize moves: it
/// is vertical or horizontal exactly for a single edge, and diagonal for a
/// corner.
pub proof fn lemma_cursor_matches_direction(d: ResizeDirection)
    ensures
        cursor_for(d) == ResizeCursor::Vertical <==> ((moves_north(d) || moves_south(d)) && !moves_west(d)
            && !moves_east(d)),
        cursor_for(d) == ResizeCursor::Horizontal <==> ((moves_west(d) || moves_east(d)) && !moves_north(d)
            && !moves_south(d)),
        cursor_for(d) == ResizeCursor::NwSe <==> ((moves_north(d) && moves_west(d)) || (moves_south(d)
            && moves_east(d))),
        cursor_for(d) == ResizeCursor::NeSw <==> ((moves_north(d) && moves_east(d)) || (moves_south(d)
            && moves_west(d))),
{
}

} // verus!
