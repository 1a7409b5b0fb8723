//! Sprite-sheet framing: which part of a texture an article shows.
use vstd::prelude::*;
use crate::geometry::{Rect, Vec2, clamp, saturate, COORD_LIMIT};

verus! {

/// `frames` frames of `size` each, as a length.
pub open spec fn frame_offset(size: i64, frames: i64) -> i64 {
    clamp(size * frames) as i64
}

/// `source` with its corner at `(x, y)`, each wrapped back to zero where the
/// frame would reach the texture's edge (`wrap_at_edge`) or pass it.
pub open spec fn wrapped(source: Rect, x: i64, y: i64, texture: Option<Vec2>, wrap_at_edge: bool) -> Rect {
    match texture {
        Some(t) => {
            let past_x = if wrap_at_edge { x + source.w >= t.x } else { x + source.w > t.x };
            let past_y = if wrap_at_edge { y + source.h >= t.y } else { y + source.h > t.y };
            Rect { x: if past_x { 0 } else { x }, y: if past_y { 0 } else { y }, w: source.w, h: source.h }
        },
        None => Rect { x, y, w: source.w, h: source.h },
    }
}

fn frames_of(size: i64, frames: i64) -> (r: i64)
    requires
        -COORD_LIMIT <= size <= COORD_LIMIT,
    ensures
        r == frame_offset(size, frames),
{
    assert(-0x100_0000_0000_0000_0000_0000_0000 <= size * frames <= 0x100_0000_0000_0000_0000_0000_0000) by (nonlinear_arith)
        requires
            -COORD_LIMIT <= size <= COORD_LIMIT,
            i64::MIN <= frames <= i64::MAX,
    ;
    saturate(size as i128 * frames as i128)
}

fn wrap(source: Rect, x: i64, y: i64, texture: Option<Vec2>, wrap_at_edge: bool) -> (r: Rect)
    requires
        source.wf(),
        -COORD_LIMIT <= x <= COORD_LIMIT,
        -COORD_LIMIT <= y <= COORD_LIMIT,
    ensures
        r == wrapped(source, x, y, texture, wrap_at_edge),
{
    match texture {
        Some(t) => {
            let past_x = if wrap_at_edge { x + source.w >= t.x } else { x + source.w > t.x };
            let past_y = if wrap_at_edge { y + source.h >= t.y } else { y + source.h > t.y };
            Rect {
                x: if past_x { 0 } else { x },
                y: if past_y { 0 } else { y },
                w: source.w,
                h: source.h,
            }
        },
        None => Rect { x, y, w: source.w, h: source.h },
    }
}

/// The frame `column` frames across and `row` frames down a sheet of frames
/// `dest` in size, keeping the source's size; a coordinate that would put the
/// frame at or past the texture's edge wraps to zero.
pub fn set_frame(source: Rect, dest: Vec2, column: i64, row: i64, texture: Option<Vec2>) -> (r: Rect)
    requires
        source.wf(),
        dest.wf(),
    ensures
        r == wrapped(source, frame_offset(dest.x, column), frame_offset(dest.y, row), texture, true),
{
    let x = frames_of(dest.x, column);
    let y = frames_of(dest.y, row);
    wrap(source, x, y, texture, true)
}

/// The frame `column` frames across and `row` frames down from `source`, on
/// a sheet of frames `dest` in size; a coordinate that would put the frame
/// past the texture's edge wraps to zero.
pub fn increment_frame(source: Rect, dest: Vec2, column: i64, row: i64, texture: Option<Vec2>) -> (r:
    Rect)
    requires
        source.wf(),
        dest.wf(),
    ensures
        r == wrapped(
            source,
            clamp(source.x + frame_offset(dest.x, column)) as i64,
            clamp(source.y + frame_offset(dest.y, row)) as i64,
            texture,
            false,
        ),
{
    let x = saturate(source.x as i128 + frames_of(dest.x, column) as i128);
    let y = saturate(source.y as i128 + frames_of(dest.y, row) as i128);
    wrap(source, x, y, texture, false)
}

} // verus!
