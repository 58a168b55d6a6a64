use cellular_automata::camera::{Viewport, SCALE_ONE};
use cellular_automata::input::mouse::{
    check_button, ButtonInput, MouseButtons, OptState, DRAG_DISTANCE_SQUARED, DRAG_TIME,
};
use cellular_automata::input::{handle_mouse, CBAct, MouseAct};
use cellular_automata::math::Vec2;

const MS: u64 = 1_000_000;

fn up() -> ButtonInput {
    ButtonInput { just_pressed: false, pressed: false, just_released: false }
}

fn press() -> ButtonInput {
    ButtonInput { just_pressed: true, pressed: true, just_released: false }
}

fn hold() -> ButtonInput {
    ButtonInput { just_pressed: false, pressed: true, just_released: false }
}

fn release() -> ButtonInput {
    ButtonInput { just_pressed: false, pressed: false, just_released: true }
}

fn left(button: ButtonInput) -> MouseButtons {
    MouseButtons { left: button, right: up(), middle: up() }
}

fn none() -> MouseButtons {
    left(up())
}

/// A viewport under which screen position `(x, y)` lies at world `(x, -y)`.
fn plain() -> Viewport {
    Viewport { size: Vec2::new(0, 0), translation: Vec2::new(0, 0), scale: SCALE_ONE }
}

fn frame(
    state: &mut MouseAct,
    ms: u64,
    cursor: Option<(i32, i32)>,
    mouse: MouseButtons,
    motion: (i32, i32),
) {
    handle_mouse(
        ms * MS,
        state,
        cursor.map(|(x, y)| Vec2::new(x, y)),
        &plain(),
        &mouse,
        Vec2::new(motion.0, motion.1),
        Vec2::zero(),
    );
}

#[test]
fn thresholds() {
    assert_eq!(DRAG_TIME, 200_000_000);
    assert_eq!(DRAG_DISTANCE_SQUARED, 4);
}

#[test]
fn default_pointer_is_idle() {
    let state = MouseAct::default();
    assert_eq!(state.acts, 0);
    assert_eq!(state.pos, None);
    assert_eq!(state.scroll, Vec2::zero());
    assert_eq!(state.left, CBAct::Idle);
    assert_eq!(state.right, CBAct::Idle);
    assert_eq!(state.wheel, CBAct::Idle);
    assert!(state.is_none());
    assert!(!state.is_scroll());
    assert_eq!(CBAct::default(), CBAct::Idle);
}

#[test]
fn act_predicates() {
    let pressed = CBAct::Pressed(OptState::new(Vec2::new(1, 2)));
    let dragged = CBAct::Dragged(Vec2::new(1, 2));
    assert!(CBAct::Idle.is_none());
    assert!(!pressed.is_none());
    assert!(pressed.is_pressed());
    assert!(!dragged.is_pressed());
    assert!(CBAct::Clicked.is_clicked());
    assert!(!CBAct::EndDrag.is_clicked());
    assert!(dragged.is_dragged());
    assert!(!pressed.is_dragged());
    assert!(CBAct::EndDrag.is_end_drag());
    assert!(!CBAct::Clicked.is_end_drag());
}

#[test]
fn new_press_state() {
    let state = OptState::new(Vec2::new(5, -6));
    assert_eq!(state.dur, 0);
    assert_eq!(state.act_pos, Vec2::new(5, -6));
    assert_eq!(state.delta, Vec2::zero());
}

#[test]
fn click_goes_through_pressed_pressed_clicked_idle() {
    let mut state = MouseAct::default();
    frame(&mut state, 16, Some((10, 20)), left(press()), (0, 0));
    assert_eq!(state.left, CBAct::Pressed(OptState::new(Vec2::new(10, -20))));
    assert_eq!(state.acts, 1);
    frame(&mut state, 100, Some((11, 21)), left(hold()), (1, 1));
    assert_eq!(
        state.left,
        CBAct::Pressed(OptState {
            dur: 100 * MS,
            act_pos: Vec2::new(10, -20),
            delta: Vec2::new(1, 1)
        })
    );
    assert_eq!(state.acts, 1);
    frame(&mut state, 16, Some((11, 21)), left(release()), (0, 0));
    assert_eq!(state.left, CBAct::Clicked);
    assert_eq!(state.acts, 1);
    frame(&mut state, 16, Some((11, 21)), none(), (0, 0));
    assert_eq!(state.left, CBAct::Idle);
    assert_eq!(state.acts, 0);
    assert!(state.is_none());
}

#[test]
fn motion_past_the_distance_makes_a_drag() {
    let mut state = MouseAct::default();
    frame(&mut state, 16, Some((0, 0)), left(press()), (0, 0));
    frame(&mut state, 16, Some((2, 0)), left(hold()), (2, 0));
    assert!(state.left.is_pressed());
    frame(&mut state, 16, Some((3, 0)), left(hold()), (1, 0));
    assert_eq!(state.left, CBAct::Dragged(Vec2::new(3, 0)));
    frame(&mut state, 16, Some((3, 0)), left(release()), (0, 0));
    assert_eq!(state.left, CBAct::EndDrag);
    assert_eq!(state.acts, 1);
    frame(&mut state, 16, Some((3, 0)), none(), (0, 0));
    assert_eq!(state.left, CBAct::Idle);
    assert_eq!(state.acts, 0);
}

#[test]
fn distance_of_exactly_two_pixels_is_no_drag() {
    let mut state = MouseAct::default();
    frame(&mut state, 16, Some((0, 0)), left(press()), (0, 0));
    frame(&mut state, 16, Some((0, 2)), left(hold()), (0, -2));
    assert_eq!(
        state.left,
        CBAct::Pressed(OptState { dur: 16 * MS, act_pos: Vec2::new(0, 0), delta: Vec2::new(0, -2) })
    );
    frame(&mut state, 16, Some((1, 2)), left(hold()), (1, 0));
    assert_eq!(state.left, CBAct::Dragged(Vec2::new(1, -2)));
}

#[test]
fn motion_is_summed_before_it_is_measured() {
    let mut state = MouseAct::default();
    frame(&mut state, 16, Some((0, 0)), left(press()), (0, 0));
    frame(&mut state, 16, Some((0, 0)), left(hold()), (2, 0));
    frame(&mut state, 16, Some((0, 0)), left(hold()), (-2, 0));
    frame(&mut state, 16, Some((0, 0)), left(hold()), (-2, 0));
    assert_eq!(
        state.left,
        CBAct::Pressed(OptState { dur: 48 * MS, act_pos: Vec2::new(0, 0), delta: Vec2::new(-2, 0) })
    );
}

#[test]
fn holding_past_the_time_makes_a_drag_without_motion() {
    let mut state = MouseAct::default();
    frame(&mut state, 16, Some((0, 0)), left(press()), (0, 0));
    frame(&mut state, 200, Some((0, 0)), left(hold()), (0, 0));
    assert_eq!(
        state.left,
        CBAct::Pressed(OptState { dur: 200 * MS, act_pos: Vec2::new(0, 0), delta: Vec2::zero() })
    );
    handle_mouse(1, &mut state, None, &plain(), &left(hold()), Vec2::zero(), Vec2::zero());
    assert_eq!(state.left, CBAct::Dragged(Vec2::zero()));
    frame(&mut state, 16, Some((0, 0)), left(release()), (0, 0));
    assert_eq!(state.left, CBAct::EndDrag);
}

#[test]
fn held_time_is_summed_over_frames() {
    let mut state = MouseAct::default();
    frame(&mut state, 16, Some((0, 0)), left(press()), (0, 0));
    frame(&mut state, 90, Some((0, 0)), left(hold()), (0, 0));
    frame(&mut state, 90, Some((0, 0)), left(hold()), (0, 0));
    assert!(state.left.is_pressed());
    frame(&mut state, 90, Some((0, 0)), left(hold()), (0, 0));
    assert!(state.left.is_dragged());
}

#[test]
fn held_time_does_not_overflow() {
    let held = CBAct::Pressed(OptState { dur: 100, act_pos: Vec2::zero(), delta: Vec2::zero() });
    let next = check_button(held, &hold(), None, u64::MAX, Vec2::zero());
    assert_eq!(next, CBAct::Dragged(Vec2::zero()));
}

#[test]
fn motion_sum_saturates() {
    let held = CBAct::Pressed(OptState {
        dur: 0,
        act_pos: Vec2::zero(),
        delta: Vec2::new(2, -2),
    });
    let next = check_button(held, &hold(), None, 0, Vec2::new(i32::MAX, i32::MIN));
    assert_eq!(next, CBAct::Dragged(Vec2::new(i32::MAX, i32::MIN)));
}

#[test]
fn drag_reports_the_motion_of_the_last_frame() {
    let mut state = MouseAct::default();
    frame(&mut state, 16, Some((0, 0)), left(press()), (0, 0));
    frame(&mut state, 16, Some((5, 0)), left(hold()), (5, 0));
    assert_eq!(state.left, CBAct::Dragged(Vec2::new(5, 0)));
    frame(&mut state, 16, Some((6, 7)), left(hold()), (1, 7));
    assert_eq!(state.left, CBAct::Dragged(Vec2::new(1, 7)));
    frame(&mut state, 16, Some((6, 7)), left(hold()), (0, 0));
    assert_eq!(state.left, CBAct::Dragged(Vec2::zero()));
    assert_eq!(state.acts, 1);
}

#[test]
fn untouched_press_and_drag_stay() {
    let pressed = CBAct::Pressed(OptState { dur: 7, act_pos: Vec2::new(1, 1), delta: Vec2::new(1, 0) });
    assert_eq!(check_button(pressed, &up(), None, 50, Vec2::new(9, 9)), pressed);
    let dragged = CBAct::Dragged(Vec2::new(4, 4));
    assert_eq!(check_button(dragged, &up(), None, 50, Vec2::new(9, 9)), dragged);
}

#[test]
fn idle_button_takes_no_hold_and_no_release() {
    assert_eq!(check_button(CBAct::Idle, &hold(), Some(Vec2::zero()), 5, Vec2::zero()), CBAct::Idle);
    assert_eq!(
        check_button(CBAct::Idle, &release(), Some(Vec2::zero()), 5, Vec2::zero()),
        CBAct::Idle
    );
    assert_eq!(check_button(CBAct::Idle, &up(), Some(Vec2::zero()), 5, Vec2::zero()), CBAct::Idle);
}

#[test]
fn clicked_and_end_drag_last_one_frame() {
    for act in [CBAct::Clicked, CBAct::EndDrag] {
        assert_eq!(check_button(act, &up(), None, 5, Vec2::zero()), CBAct::Idle);
        assert_eq!(check_button(act, &hold(), None, 5, Vec2::zero()), CBAct::Idle);
        assert_eq!(check_button(act, &release(), None, 5, Vec2::zero()), CBAct::Idle);
        assert_eq!(check_button(act, &press(), None, 5, Vec2::zero()), CBAct::Idle);
        assert_eq!(
            check_button(act, &press(), Some(Vec2::new(3, 4)), 5, Vec2::zero()),
            CBAct::Pressed(OptState::new(Vec2::new(3, 4)))
        );
    }
}

#[test]
fn press_right_after_a_click_counts_once() {
    let mut state = MouseAct::default();
    frame(&mut state, 16, Some((0, 0)), left(press()), (0, 0));
    frame(&mut state, 16, Some((0, 0)), left(release()), (0, 0));
    assert_eq!(state.left, CBAct::Clicked);
    frame(&mut state, 16, Some((4, 4)), left(press()), (0, 0));
    assert_eq!(state.left, CBAct::Pressed(OptState::new(Vec2::new(4, -4))));
    assert_eq!(state.acts, 1);
}

#[test]
fn press_without_a_cursor_is_skipped() {
    let mut state = MouseAct::default();
    frame(&mut state, 16, None, left(press()), (0, 0));
    assert_eq!(state.left, CBAct::Idle);
    assert_eq!(state.pos, None);
    assert_eq!(state.acts, 0);
    frame(&mut state, 16, None, left(hold()), (3, 3));
    assert_eq!(state.left, CBAct::Idle);
}

#[test]
fn press_edge_wins_over_hold_and_release() {
    let all = ButtonInput { just_pressed: true, pressed: true, just_released: true };
    let dragged = CBAct::Dragged(Vec2::new(1, 1));
    assert_eq!(
        check_button(dragged, &all, Some(Vec2::new(8, 8)), 5, Vec2::new(2, 2)),
        CBAct::Pressed(OptState::new(Vec2::new(8, 8)))
    );
    let both = ButtonInput { just_pressed: false, pressed: true, just_released: true };
    assert_eq!(
        check_button(dragged, &both, Some(Vec2::new(8, 8)), 5, Vec2::new(2, 2)),
        CBAct::Dragged(Vec2::new(2, 2))
    );
}

#[test]
fn buttons_are_classified_on_their_own() {
    let mut state = MouseAct::default();
    let mouse = MouseButtons { left: press(), right: up(), middle: press() };
    frame(&mut state, 16, Some((1, 1)), mouse, (0, 0));
    assert!(state.left.is_pressed());
    assert!(state.right.is_none());
    assert!(state.wheel.is_pressed());
    assert_eq!(state.acts, 2);
    let mouse = MouseButtons { left: hold(), right: press(), middle: release() };
    frame(&mut state, 16, Some((9, 1)), mouse, (8, 0));
    assert_eq!(state.left, CBAct::Dragged(Vec2::new(8, 0)));
    assert_eq!(state.right, CBAct::Pressed(OptState::new(Vec2::new(9, -1))));
    assert_eq!(state.wheel, CBAct::Clicked);
    assert_eq!(state.acts, 3);
    let mouse = MouseButtons { left: release(), right: hold(), middle: up() };
    frame(&mut state, 16, Some((9, 1)), mouse, (0, 0));
    assert_eq!(state.left, CBAct::EndDrag);
    assert!(state.right.is_pressed());
    assert_eq!(state.wheel, CBAct::Idle);
    assert_eq!(state.acts, 2);
}

#[test]
fn scroll_counts_as_one_channel_while_it_lasts() {
    let mut state = MouseAct::default();
    let scrolls = [(0, 1), (0, 1), (0, 0)];
    let mut acts = Vec::new();
    for (x, y) in scrolls {
        handle_mouse(
            16 * MS,
            &mut state,
            Some(Vec2::new(0, 0)),
            &plain(),
            &none(),
            Vec2::zero(),
            Vec2::new(x, y),
        );
        assert_eq!(state.scroll, Vec2::new(x, y));
        assert_eq!(state.is_scroll(), (x, y) != (0, 0));
        acts.push(state.acts);
    }
    assert_eq!(acts, vec![1, 1, 0]);
}

#[test]
fn scroll_and_buttons_add_up() {
    let mut state = MouseAct::default();
    let mouse = MouseButtons { left: press(), right: press(), middle: press() };
    handle_mouse(
        16 * MS,
        &mut state,
        Some(Vec2::new(0, 0)),
        &plain(),
        &mouse,
        Vec2::zero(),
        Vec2::new(-1, 0),
    );
    assert_eq!(state.acts, 4);
    assert!(!state.is_none());
}

#[test]
fn counter_is_set_from_the_channels() {
    let mut state = MouseAct::default();
    state.acts = 17;
    frame(&mut state, 16, Some((0, 0)), none(), (0, 0));
    assert_eq!(state.acts, 0);
}

#[test]
fn cursor_is_mapped_into_the_world() {
    let mut state = MouseAct::default();
    let camera = Viewport {
        size: Vec2::new(800, 600),
        translation: Vec2::new(100, 50),
        scale: 2 * SCALE_ONE,
    };
    handle_mouse(
        16 * MS,
        &mut state,
        Some(Vec2::new(10, 20)),
        &camera,
        &left(press()),
        Vec2::zero(),
        Vec2::zero(),
    );
    assert_eq!(state.pos, Some(Vec2::new(-680, 610)));
    assert_eq!(state.left, CBAct::Pressed(OptState::new(Vec2::new(-680, 610))));
    handle_mouse(
        16 * MS,
        &mut state,
        None,
        &camera,
        &left(hold()),
        Vec2::zero(),
        Vec2::zero(),
    );
    assert_eq!(state.pos, None);
    assert!(state.left.is_pressed());
}
