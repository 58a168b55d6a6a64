//! The viewport transform: which part of the world the screen shows, and
//! where in the world a point of the screen lies.

use crate::math::{clamp_i32, clamp_to_i32, div_round, div_round_exec, Vec2};
use vstd::prelude::*;

verus! {

/// The scale at which one screen pixel spans one world unit. A scale is a
/// fixed-point number: it counts 65536ths.
pub const SCALE_ONE: u32 = 65536;

/// The camera as the core reads it.
#[derive(Clone, Copy, Debug, PartialEq, Eq, Structural)]
pub struct Viewport {
    /// Width and height of the screen area, in screen pixels.
    pub size: Vec2,
    /// The world position shown at the centre of the screen.
    pub translation: Vec2,
    /// World units per screen pixel, in 65536ths.
    pub scale: u32,
}

/// A length of `v` screen pixels in world units, to the nearest unit.
pub open spec fn scaled(v: int, scale: u32) -> int {
    div_round(v * scale, SCALE_ONE as int)
}

/// Half a length of `v` screen pixels in world units, to the nearest unit.
pub open spec fn half_scaled(v: int, scale: u32) -> int {
    div_round(v * scale, 2 * SCALE_ONE)
}

/// The world rectangle that the viewport shows, as `(min, max, center)`:
/// the centre is the translation, and the corners lie half the scaled
/// screen size to either side of it.
pub open spec fn world_rect(view: Viewport) -> (Vec2, Vec2, Vec2) {
    let half_x = half_scaled(view.size.x as int, view.scale);
    let half_y = half_scaled(view.size.y as int, view.scale);
    (
        Vec2 {
            x: clamp_i32(view.translation.x - half_x),
            y: clamp_i32(view.translation.y - half_y),
        },
        Vec2 {
            x: clamp_i32(view.translation.x + half_x),
            y: clamp_i32(view.translation.y + half_y),
        },
        view.translation,
    )
}

/// The world position of a screen position whose origin is the top left
/// corner and whose `y` grows downwards: `y` is reflected, both coordinates
/// are scaled, and the result is laid off from the top left corner of the
/// world rectangle.
pub open spec fn world_position(view: Viewport, cursor: Vec2) -> Vec2 {
    let (min, max, _) = world_rect(view);
    Vec2 {
        x: clamp_i32(scaled(cursor.x as int, view.scale) + min.x),
        y: clamp_i32(scaled(-cursor.y, view.scale) + max.y),
    }
}

fn scale_length(v: i64, scale: u32, unit: i64) -> (r: i64)
    requires
        -0x8000_0000 <= v <= 0x8000_0000,
        unit == SCALE_ONE || unit == 2 * SCALE_ONE,
    ensures
        r == div_round(v * scale, unit as int),
        -0x1_0000_0000_0000 <= r <= 0x1_0000_0000_0000,
{
    let wide: i64 = scale as i64;
    assert(-0x8000_0000 * 0xffff_ffff <= v * wide <= 0x8000_0000 * 0xffff_ffff)
        by (nonlinear_arith)
        requires
            -0x8000_0000 <= v <= 0x8000_0000,
            0 <= wide <= 0xffff_ffff,
    ;
    let product: i64 = v * wide;
    proof {
        crate::math::lemma_div_round_nearest(product as int, unit as int);
    }
    div_round_exec(product, unit)
}

/// The world rectangle that the viewport shows, as `(min, max, center)`.
pub fn correct_camera(view: &Viewport) -> (rect: (Vec2, Vec2, Vec2))
    ensures
        rect == world_rect(*view),
{
    let half_x = scale_length(view.size.x as i64, view.scale, 131072);
    let half_y = scale_length(view.size.y as i64, view.scale, 131072);
    let min = Vec2 {
        x: clamp_to_i32(view.translation.x as i64 - half_x),
        y: clamp_to_i32(view.translation.y as i64 - half_y),
    };
    let max = Vec2 {
        x: clamp_to_i32(view.translation.x as i64 + half_x),
        y: clamp_to_i32(view.translation.y as i64 + half_y),
    };
    (min, max, view.translation)
}

/// The world position of a screen position.
pub fn cursor_to_world(view: &Viewport, cursor: Vec2) -> (world: Vec2)
    ensures
        world == world_position(*view, cursor),
{
    let (min, max, _) = correct_camera(view);
    let x = scale_length(cursor.x as i64, view.scale, 65536);
    let y = scale_length(-(cursor.y as i64), view.scale, 65536);
    Vec2 { x: clamp_to_i32(x + min.x as i64), y: clamp_to_i32(y + max.y as i64) }
}

} // verus!
