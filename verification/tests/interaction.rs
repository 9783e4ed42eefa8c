use radiantkit_core::interaction::{handle_at, handle_effect, BoundingBoxHandle, HandleEffect};

fn e(px: i8, py: i8, sx: i8, sy: i8) -> HandleEffect {
    HandleEffect { position_x: px, position_y: py, scale_x: sx, scale_y: sy }
}

#[test]
fn handles_in_order() {
    assert_eq!(handle_at(0), Some(BoundingBoxHandle::Top));
    assert_eq!(handle_at(3), Some(BoundingBoxHandle::Left));
    assert_eq!(handle_at(4), Some(BoundingBoxHandle::TopRight));
    assert_eq!(handle_at(7), Some(BoundingBoxHandle::TopLeft));
    assert_eq!(handle_at(8), None);
}

#[test]
fn handle_effects() {
    assert_eq!(handle_effect(BoundingBoxHandle::Top), e(0, 1, 0, -1));
    assert_eq!(handle_effect(BoundingBoxHandle::Right), e(0, 0, 1, 0));
    assert_eq!(handle_effect(BoundingBoxHandle::Bottom), e(0, 0, 0, 1));
    assert_eq!(handle_effect(BoundingBoxHandle::Left), e(1, 0, -1, 0));
    assert_eq!(handle_effect(BoundingBoxHandle::TopRight), e(0, 1, 1, -1));
    assert_eq!(handle_effect(BoundingBoxHandle::BottomRight), e(0, 0, 1, 1));
    assert_eq!(handle_effect(BoundingBoxHandle::BottomLeft), e(1, 0, -1, 1));
    assert_eq!(handle_effect(BoundingBoxHandle::TopLeft), e(1, 1, -1, -1));
}
