use cellular_automata::camera::{correct_camera, cursor_to_world, Viewport, SCALE_ONE};
use cellular_automata::math::Vec2;

fn view(size: (i32, i32), translation: (i32, i32), scale: u32) -> Viewport {
    Viewport {
        size: Vec2::new(size.0, size.1),
        translation: Vec2::new(translation.0, translation.1),
        scale,
    }
}

#[test]
fn scale_one_is_sixteen_bits() {
    assert_eq!(SCALE_ONE, 65536);
}

#[test]
fn rect_is_centred_on_the_translation() {
    let (min, max, cet) = correct_camera(&view((800, 600), (0, 0), SCALE_ONE));
    assert_eq!(min, Vec2::new(-400, -300));
    assert_eq!(max, Vec2::new(400, 300));
    assert_eq!(cet, Vec2::new(0, 0));
    let (min, max, cet) = correct_camera(&view((800, 600), (100, -50), SCALE_ONE));
    assert_eq!(min, Vec2::new(-300, -350));
    assert_eq!(max, Vec2::new(500, 250));
    assert_eq!(cet, Vec2::new(100, -50));
}

#[test]
fn rect_grows_with_the_scale() {
    let (min, max, _) = correct_camera(&view((800, 600), (10, 10), 2 * SCALE_ONE));
    assert_eq!(min, Vec2::new(-790, -590));
    assert_eq!(max, Vec2::new(810, 610));
    let (min, max, _) = correct_camera(&view((800, 600), (10, 10), SCALE_ONE / 2));
    assert_eq!(min, Vec2::new(-190, -140));
    assert_eq!(max, Vec2::new(210, 160));
}

#[test]
fn half_extent_is_rounded_to_the_nearest_unit() {
    let (min, max, _) = correct_camera(&view((5, 3), (0, 0), SCALE_ONE));
    assert_eq!(min, Vec2::new(-3, -2));
    assert_eq!(max, Vec2::new(3, 2));
    let (min, max, _) = correct_camera(&view((10, 10), (0, 0), SCALE_ONE / 4));
    assert_eq!(min, Vec2::new(-1, -1));
    assert_eq!(max, Vec2::new(1, 1));
    let (min, max, _) = correct_camera(&view((10, 10), (0, 0), 58982));
    assert_eq!(min, Vec2::new(-4, -4));
    assert_eq!(max, Vec2::new(4, 4));
}

#[test]
fn degenerate_viewport_gives_an_empty_rect() {
    let (min, max, cet) = correct_camera(&view((0, 0), (7, -9), SCALE_ONE));
    assert_eq!(min, Vec2::new(7, -9));
    assert_eq!(max, Vec2::new(7, -9));
    assert_eq!(cet, Vec2::new(7, -9));
    let (min, max, _) = correct_camera(&view((800, 600), (7, -9), 0));
    assert_eq!(min, Vec2::new(7, -9));
    assert_eq!(max, Vec2::new(7, -9));
}

#[test]
fn rect_saturates() {
    let (min, max, cet) =
        correct_camera(&view((i32::MAX, i32::MAX), (i32::MAX, i32::MIN), u32::MAX));
    assert_eq!(min, Vec2::new(i32::MIN, i32::MIN));
    assert_eq!(max, Vec2::new(i32::MAX, i32::MAX));
    assert_eq!(cet, Vec2::new(i32::MAX, i32::MIN));
}

#[test]
fn cursor_is_laid_off_from_the_top_left() {
    let v = view((800, 600), (0, 0), SCALE_ONE);
    assert_eq!(cursor_to_world(&v, Vec2::new(0, 0)), Vec2::new(-400, 300));
    assert_eq!(cursor_to_world(&v, Vec2::new(400, 300)), Vec2::new(0, 0));
    assert_eq!(cursor_to_world(&v, Vec2::new(800, 600)), Vec2::new(400, -300));
    assert_eq!(cursor_to_world(&v, Vec2::new(408, 292)), Vec2::new(8, 8));
}

#[test]
fn cursor_follows_scale_and_translation() {
    let v = view((800, 600), (100, 50), 2 * SCALE_ONE);
    assert_eq!(cursor_to_world(&v, Vec2::new(0, 0)), Vec2::new(-700, 650));
    assert_eq!(cursor_to_world(&v, Vec2::new(10, 20)), Vec2::new(-680, 610));
    assert_eq!(cursor_to_world(&v, Vec2::new(400, 300)), Vec2::new(100, 50));
    let v = view((800, 600), (0, 0), SCALE_ONE / 2);
    assert_eq!(cursor_to_world(&v, Vec2::new(1, 1)), Vec2::new(-199, 149));
    assert_eq!(cursor_to_world(&v, Vec2::new(3, 3)), Vec2::new(-198, 148));
}

#[test]
fn cursor_under_a_zero_viewport_is_the_origin() {
    let v = view((0, 0), (0, 0), 0);
    assert_eq!(cursor_to_world(&v, Vec2::new(123, 456)), Vec2::new(0, 0));
}

#[test]
fn cursor_mapping_saturates() {
    let v = view((0, 0), (0, 0), u32::MAX);
    assert_eq!(cursor_to_world(&v, Vec2::new(i32::MAX, i32::MIN)), Vec2::new(i32::MAX, i32::MAX));
    assert_eq!(cursor_to_world(&v, Vec2::new(i32::MIN, i32::MAX)), Vec2::new(i32::MIN, i32::MIN));
}
