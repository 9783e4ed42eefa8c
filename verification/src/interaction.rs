use vstd::prelude::*;

verus! {

/// The handles of the bounding box around the selected node: the four
/// edges, then the four corners.
#[derive(Debug, Clone, Copy, PartialEq, Eq, Structural)]
pub enum BoundingBoxHandle {
    Top,
    Right,
    Bottom,
    Left,
    TopRight,
    BottomRight,
    BottomLeft,
    TopLeft,
}

/// How a drag by `(x, y)` on a handle moves and resizes the node: each entry
/// is the factor, -1, 0 or 1, of `x` for the `_x` entries and of `y` for the
/// `_y` entries.
#[derive(Debug, Clone, Copy, PartialEq, Eq, Structural)]
pub struct HandleEffect {
    pub position_x: i8,
    pub position_y: i8,
    pub scale_x: i8,
    pub scale_y: i8,
}

/// The effect with the given factors.
pub open spec fn effect(position_x: i8, position_y: i8, scale_x: i8, scale_y: i8) -> HandleEffect {
    HandleEffect { position_x, position_y, scale_x, scale_y }
}

/// The effect of dragging each handle: an edge or corner on the top or left
/// moves the node by the drag and shrinks it by as much; one on the bottom or
/// right grows it by the drag.
pub open spec fn spec_handle_effect(handle: BoundingBoxHandle) -> HandleEffect {
    match handle {
        BoundingBoxHandle::Top => effect(0i8, 1i8, 0i8, -1i8),
        BoundingBoxHandle::Right => effect(0i8, 0i8, 1i8, 0i8),
        BoundingBoxHandle::Bottom => effect(0i8, 0i8, 0i8, 1i8),
        BoundingBoxHandle::Left => effect(1i8, 0i8, -1i8, 0i8),
        BoundingBoxHandle::TopRight => effect(0i8, 1i8, 1i8, -1i8),
        BoundingBoxHandle::BottomRight => effect(0i8, 0i8, 1i8, 1i8),
        BoundingBoxHandle::BottomLeft => effect(1i8, 0i8, -1i8, 1i8),
        BoundingBoxHandle::TopLeft => effect(1i8, 1i8, -1i8, -1i8),
    }
}

/// The handle at `index` in the order edges (top, right, bottom, left), then
/// corners (top right, bottom right, bottom left, top left).
pub fn handle_at(index: usize) -> (h: Option<BoundingBoxHandle>)
    ensures
        h is Some <==> index < 8,
        index == 0 ==> h == Some(BoundingBoxHandle::Top),
        index == 1 ==> h == Some(BoundingBoxHandle::Right),
        index == 2 ==> h == Some(BoundingBoxHandle::Bottom),
        index == 3 ==> h == Some(BoundingBoxHandle::Left),
        index == 4 ==> h == Some(BoundingBoxHandle::TopRight),
        index == 5 ==> h == Some(BoundingBoxHandle::BottomRight),
        index == 6 ==> h == Some(BoundingBoxHandle::BottomLeft),
        index == 7 ==> h == Some(BoundingBoxHandle::TopLeft),
{
    match index {
        0 => Some(BoundingBoxHandle::Top),
        1 => Some(BoundingBoxHandle::Right),
        2 => Some(BoundingBoxHandle::Bottom),
        3 => Some(BoundingBoxHandle::Left),
        4 => Some(BoundingBoxHandle::TopRight),
        5 => Some(BoundingBoxHandle::BottomRight),
        6 => Some(BoundingBoxHandle::BottomLeft),
        7 => Some(BoundingBoxHandle::TopLeft),
        _ => None,
    }
}

/// What dragging `handle` does to the node's position and size.
pub fn handle_effect(handle: BoundingBoxHandle) -> (e: HandleEffect)
    ensures
        e == spec_handle_effect(handle),
{
    let (px, py, sx, sy): (i8, i8, i8, i8) = match handle {
        BoundingBoxHandle::Top => (0, 1, 0, -1),
        BoundingBoxHandle::Right => (0, 0, 1, 0),
        BoundingBoxHandle::Bottom => (0, 0, 0, 1),
        BoundingBoxHandle::Left => (1, 0, -1, 0),
        BoundingBoxHandle::TopRight => (0, 1, 1, -1),
        BoundingBoxHandle::BottomRight => (0, 0, 1, 1),
        BoundingBoxHandle::BottomLeft => (1, 0, -1, 1),
        BoundingBoxHandle::TopLeft => (1, 1, -1, -1),
    };
    HandleEffect { position_x: px, position_y: py, scale_x: sx, scale_y: sy }
}

/// Dragging a handle never moves the edge opposite to it: along each axis
/// either the node does not move, or it shrinks by exactly as much as it
/// moves; and only the dragged side changes size.
pub proof fn lemma_opposite_edge_stays(handle: BoundingBoxHandle)
    ensures
        ({
            let e = spec_handle_effect(handle);
            let (px, py, sx, sy) = (e.position_x, e.position_y, e.scale_x, e.scale_y);
            &&& px == 0 || px + sx == 0
            &&& py == 0 || py + sy == 0
            &&& -1 <= sx <= 1 && -1 <= sy <= 1
            &&& 0 <= px <= 1 && 0 <= py <= 1
        }),
{
}

} // verus!
