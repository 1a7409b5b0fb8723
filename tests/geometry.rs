use platformer::geometry::{Axis, Rect, Vec2, saturate, COORD_LIMIT};
use platformer::sprite::{increment_frame, set_frame};

#[test]
fn intersect_overlapping_rects() {
    let a = Rect::new(0, 0, 10, 10);
    let b = Rect::new(5, 5, 10, 10);
    assert_eq!(a.intersect(&b), Some(Rect::new(5, 5, 5, 5)));
    assert_eq!(b.intersect(&a), Some(Rect::new(5, 5, 5, 5)));
}

#[test]
fn intersect_apart_rects_is_none() {
    let a = Rect::new(0, 0, 10, 10);
    let b = Rect::new(11, 0, 10, 10);
    assert_eq!(a.intersect(&b), None);
}

#[test]
fn intersect_touching_rects_is_empty_strip() {
    let a = Rect::new(0, 0, 10, 10);
    let b = Rect::new(10, 2, 10, 4);
    assert_eq!(a.intersect(&b), Some(Rect::new(10, 2, 0, 4)));
}

#[test]
fn offset_moves_corner_only() {
    let a = Rect::new(1, 2, 3, 4);
    assert_eq!(a.offset(Vec2::new(10, -20)), Rect::new(11, -18, 3, 4));
}

#[test]
fn mirror_reflects_inside_frame() {
    let a = Rect::new(25, 20, 40, 88);
    assert_eq!(a.mirror_x(90), Rect::new(25, 20, 40, 88));
    let b = Rect::new(10, 20, 40, 88);
    assert_eq!(b.mirror_x(90), Rect::new(40, 20, 40, 88));
    assert_eq!(b.mirror_y(140), Rect::new(10, 32, 40, 88));
}

#[test]
fn saturate_clamps_to_world() {
    assert_eq!(saturate(5), 5);
    assert_eq!(saturate(COORD_LIMIT as i128 + 1), COORD_LIMIT);
    assert_eq!(saturate(-(COORD_LIMIT as i128) - 7), -COORD_LIMIT);
}

#[test]
fn vector_components_by_axis() {
    let mut v = Vec2::new(3, 4);
    assert_eq!(v.component(Axis::X), 3);
    assert_eq!(v.component(Axis::Y), 4);
    v.set_component(Axis::Y, -9);
    assert_eq!(v, Vec2::new(3, -9));
}

#[test]
fn sprite_frames_wrap_at_texture_edge() {
    let source = Rect::new(0, 0, 384, 512);
    let dest = Vec2::new(384, 512);
    let texture = Some(Vec2::new(2304, 512));
    assert_eq!(set_frame(source, dest, 4, 0, texture), Rect::new(1536, 0, 384, 512));
    assert_eq!(set_frame(source, dest, 5, 0, texture), Rect::new(0, 0, 384, 512));
    assert_eq!(set_frame(source, dest, 5, 0, None), Rect::new(1920, 0, 384, 512));
    let next = increment_frame(Rect::new(1536, 0, 384, 512), dest, 1, 0, texture);
    assert_eq!(next, Rect::new(1920, 0, 384, 512));
    assert_eq!(increment_frame(next, dest, 1, 0, texture), Rect::new(0, 0, 384, 512));
    assert_eq!(increment_frame(next, dest, -1, 0, texture), Rect::new(1536, 0, 384, 512));
}
