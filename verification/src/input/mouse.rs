//! The pointer classifier: from cursor positions, button edges and wheel
//! deltas to one act per button (`Idle`, `Pressed`, `Clicked`, `Dragged`,
//! `EndDrag`), with hysteresis between a click and a drag.

use crate::camera::{cursor_to_world, world_position, Viewport};
use crate::math::Vec2;
use vstd::prelude::*;

verus! {

/// A button that stays down for longer than this many nanoseconds is dragging.
pub const DRAG_TIME: u64 = 200_000_000;

/// A button that stays down while the pointer moves by more than this
/// squared distance, in pixels, is dragging.
pub const DRAG_DISTANCE_SQUARED: u64 = 4;

/// What is known of a press that is neither a click nor a drag yet.
#[derive(Clone, Copy, Debug, PartialEq, Eq, Structural)]
pub struct OptState {
    /// For how long the button has been down, in nanoseconds.
    pub dur: u64,
    /// Where in the world the button went down.
    pub act_pos: Vec2,
    /// How far the pointer has moved since, in pixels.
    pub delta: Vec2,
}

impl OptState {
    pub open spec fn spec_new(pos: Vec2) -> OptState {
        OptState { dur: 0, act_pos: pos, delta: Vec2::spec_zero() }
    }

    /// The state of a button that went down at `pos` this frame.
    #[verifier::when_used_as_spec(spec_new)]
    #[inline]
    pub fn new(pos: Vec2) -> (state: OptState)
        ensures
            state == OptState::spec_new(pos),
    {
        OptState { dur: 0, act_pos: pos, delta: Vec2::zero() }
    }
}

/// The act of one button.
#[derive(Clone, Copy, Debug, PartialEq, Eq, Structural)]
pub enum CBAct {
    /// Nothing is going on.
    Idle,
    /// The button is down; whether this is a click or a drag is open.
    Pressed(OptState),
    /// The button came up before the press turned into a drag. Lasts one frame.
    Clicked,
    /// The button is down and dragging; the payload is the motion of the
    /// last frame alone.
    Dragged(Vec2),
    /// The button came up after a drag. Lasts one frame.
    EndDrag,
}

impl Default for CBAct {
    fn default() -> (act: CBAct)
        ensures
            act == CBAct::Idle,
    {
        CBAct::Idle
    }
}

impl CBAct {
    #[inline]
    pub fn is_none(&self) -> (r: bool)
        ensures
            r == (*self is Idle),
    {
        matches!(self, CBAct::Idle)
    }

    #[inline]
    pub fn is_pressed(&self) -> (r: bool)
        ensures
            r == (*self is Pressed),
    {
        matches!(self, CBAct::Pressed(_))
    }

    #[inline]
    pub fn is_clicked(&self) -> (r: bool)
        ensures
            r == (*self is Clicked),
    {
        matches!(self, CBAct::Clicked)
    }

    #[inline]
    pub fn is_dragged(&self) -> (r: bool)
        ensures
            r == (*self is Dragged),
    {
        matches!(self, CBAct::Dragged(_))
    }

    #[inline]
    pub fn is_end_drag(&self) -> (r: bool)
        ensures
            r == (*self is EndDrag),
    {
        matches!(self, CBAct::EndDrag)
    }
}

/// What the host reports of one button for one frame.
#[derive(Clone, Copy, Debug, PartialEq, Eq, Structural)]
pub struct ButtonInput {
    /// The button went down during the frame.
    pub just_pressed: bool,
    /// The button is down.
    pub pressed: bool,
    /// The button came up during the frame.
    pub just_released: bool,
}

/// What the host reports of the three buttons for one frame.
#[derive(Clone, Copy, Debug, PartialEq, Eq, Structural)]
pub struct MouseButtons {
    pub left: ButtonInput,
    pub right: ButtonInput,
    pub middle: ButtonInput,
}

/// The pointer as the rest of the core reads it.
#[derive(Clone, Copy, Debug, PartialEq, Eq, Structural)]
pub struct MouseAct {
    /// How many channels are active: one for each button whose act is not
    /// `Idle`, and one for the wheel while it scrolls.
    pub acts: usize,
    /// The cursor in world coordinates; `None` while it is outside the window.
    pub pos: Option<Vec2>,
    /// The wheel's delta of the last frame.
    pub scroll: Vec2,
    pub left: CBAct,
    pub right: CBAct,
    pub wheel: CBAct,
}

impl Default for MouseAct {
    fn default() -> (state: MouseAct)
        ensures
            state == (MouseAct {
                acts: 0,
                pos: None,
                scroll: Vec2::spec_zero(),
                left: CBAct::Idle,
                right: CBAct::Idle,
                wheel: CBAct::Idle,
            }),
            state.wf(),
    {
        MouseAct {
            acts: 0,
            pos: None,
            scroll: Vec2::zero(),
            left: CBAct::Idle,
            right: CBAct::Idle,
            wheel: CBAct::Idle,
        }
    }
}

/// One for a button that is in use, zero for an idle one.
pub open spec fn busy(act: CBAct) -> int {
    if act is Idle {
        0
    } else {
        1
    }
}

/// The number of active channels among three buttons and the wheel.
pub open spec fn active_channels(left: CBAct, right: CBAct, wheel: CBAct, scroll: Vec2) -> int {
    busy(left) + busy(right) + busy(wheel) + if scroll.spec_is_zero() {
        0int
    } else {
        1int
    }
}

impl MouseAct {
    /// The counter agrees with the channels: it is the number of buttons
    /// that are not idle, plus one while the wheel scrolls.
    pub open spec fn wf(self) -> bool {
        self.acts == active_channels(self.left, self.right, self.wheel, self.scroll)
    }

    /// Whether no channel is active.
    #[inline]
    pub fn is_none(&self) -> (r: bool)
        ensures
            r == (self.acts == 0),
    {
        self.acts == 0
    }

    /// Whether the wheel scrolls.
    #[inline]
    pub fn is_scroll(&self) -> (r: bool)
        ensures
            r == !self.scroll.spec_is_zero(),
    {
        !self.scroll.is_zero()
    }
}

impl CBAct {
    /// The act once a frame has passed without an event for it: `Clicked`
    /// and `EndDrag` fall back to `Idle`, every other act stays.
    pub open spec fn decayed(self) -> CBAct {
        match self {
            CBAct::Clicked | CBAct::EndDrag => CBAct::Idle,
            _ => self,
        }
    }
}

/// Whether a press that has lasted `dur` nanoseconds and moved by `delta`
/// has become a drag.
pub open spec fn is_drag(dur: int, delta: Vec2) -> bool {
    dur > DRAG_TIME || delta.spec_length_squared() > DRAG_DISTANCE_SQUARED
}

/// The act of a button after one frame.
///
/// A press edge starts a press at the cursor's world position `pos`; without
/// a position there is no press. Otherwise a button that is down carries a
/// press on, or turns it into a drag once `is_drag` holds of the time and
/// motion gathered so far, or reports the frame's motion of a drag. Otherwise
/// a release edge ends a press as a click and a drag as `EndDrag`. Whatever
/// the frame leaves untouched decays.
pub open spec fn next_act(
    act: CBAct,
    button: ButtonInput,
    pos: Option<Vec2>,
    elapsed: u64,
    motion: Vec2,
) -> CBAct {
    if button.just_pressed {
        match pos {
            Some(at) => CBAct::Pressed(OptState::spec_new(at)),
            None => act.decayed(),
        }
    } else if button.pressed {
        match act {
            CBAct::Pressed(held) => {
                let delta = held.delta.spec_saturating_add(motion);
                if is_drag(held.dur + elapsed, delta) {
                    CBAct::Dragged(delta)
                } else {
                    CBAct::Pressed(
                        OptState {
                            dur: (held.dur + elapsed) as u64,
                            act_pos: held.act_pos,
                            delta,
                        },
                    )
                }
            },
            CBAct::Dragged(_) => CBAct::Dragged(motion),
            _ => act.decayed(),
        }
    } else if button.just_released {
        match act {
            CBAct::Pressed(_) => CBAct::Clicked,
            CBAct::Dragged(_) => CBAct::EndDrag,
            _ => act.decayed(),
        }
    } else {
        act.decayed()
    }
}

/// The pointer after one frame: the cursor is mapped into the world, each
/// button takes its step on its own, the wheel's delta is stored, and the
/// counter is the number of active channels.
pub open spec fn next_mouse(
    state: MouseAct,
    elapsed: u64,
    cursor: Option<Vec2>,
    camera: Viewport,
    mouse: MouseButtons,
    motion: Vec2,
    scroll: Vec2,
) -> MouseAct {
    let pos = match cursor {
        Some(at) => Some(world_position(camera, at)),
        None => None,
    };
    let left = next_act(state.left, mouse.left, pos, elapsed, motion);
    let right = next_act(state.right, mouse.right, pos, elapsed, motion);
    let wheel = next_act(state.wheel, mouse.middle, pos, elapsed, motion);
    MouseAct {
        acts: active_channels(left, right, wheel, scroll) as usize,
        pos,
        scroll,
        left,
        right,
        wheel,
    }
}

/// Steps one button by one frame.
pub fn check_button(
    act: CBAct,
    button: &ButtonInput,
    pos: Option<Vec2>,
    elapsed: u64,
    motion: Vec2,
) -> (next: CBAct)
    ensures
        next == next_act(act, *button, pos, elapsed, motion),
{
    let decayed = match act {
        CBAct::Clicked | CBAct::EndDrag => CBAct::Idle,
        _ => act,
    };
    if button.just_pressed {
        match pos {
            Some(at) => CBAct::Pressed(OptState::new(at)),
            None => decayed,
        }
    } else if button.pressed {
        match act {
            CBAct::Pressed(held) => {
                let delta = held.delta.saturating_add(motion);
                let dur: u128 = held.dur as u128 + elapsed as u128;
                if dur > DRAG_TIME as u128 || delta.length_squared() > DRAG_DISTANCE_SQUARED {
                    CBAct::Dragged(delta)
                } else {
                    CBAct::Pressed(OptState { dur: dur as u64, act_pos: held.act_pos, delta })
                }
            },
            CBAct::Dragged(_) => CBAct::Dragged(motion),
            _ => decayed,
        }
    } else if button.just_released {
        match act {
            CBAct::Pressed(_) => CBAct::Clicked,
            CBAct::Dragged(_) => CBAct::EndDrag,
            _ => decayed,
        }
    } else {
        decayed
    }
}

/// Classifies one frame of pointer input.
///
/// `elapsed` is the frame's duration in nanoseconds, `cursor` the cursor in
/// screen pixels (absent outside the window), `motion` and `scroll` what the
/// pointer and the wheel gathered during the frame.
pub fn handle_mouse(
    elapsed: u64,
    state: &mut MouseAct,
    cursor: Option<Vec2>,
    camera: &Viewport,
    mouse: &MouseButtons,
    motion: Vec2,
    scroll: Vec2,
)
    ensures
        *final(state) == next_mouse(*old(state), elapsed, cursor, *camera, *mouse, motion, scroll),
        final(state).wf(),
{
    let pos = match cursor {
        Some(at) => Some(cursor_to_world(camera, at)),
        None => None,
    };
    let left = check_button(state.left, &mouse.left, pos, elapsed, motion);
    let right = check_button(state.right, &mouse.right, pos, elapsed, motion);
    let wheel = check_button(state.wheel, &mouse.middle, pos, elapsed, motion);
    let mut acts: usize = 0;
    if !left.is_none() {
        acts = acts + 1;
    }
    if !right.is_none() {
        acts = acts + 1;
    }
    if !wheel.is_none() {
        acts = acts + 1;
    }
    if !scroll.is_zero() {
        acts = acts + 1;
    }
    state.acts = acts;
    state.pos = pos;
    state.scroll = scroll;
    state.left = left;
    state.right = right;
    state.wheel = wheel;
}

/// What one button is given in one frame.
pub struct ButtonFrame {
    pub button: ButtonInput,
    pub pos: Option<Vec2>,
    pub elapsed: u64,
    pub motion: Vec2,
}

impl ButtonFrame {
    /// The act of the button after this frame.
    pub open spec fn apply(self, act: CBAct) -> CBAct {
        next_act(act, self.button, self.pos, self.elapsed, self.motion)
    }

    /// The button goes down in this frame, at a known position.
    pub open spec fn presses(self) -> bool {
        self.button.just_pressed && self.pos is Some
    }

    /// The button is down throughout this frame.
    pub open spec fn holds(self) -> bool {
        !self.button.just_pressed && self.button.pressed
    }

    /// The button comes up in this frame.
    pub open spec fn releases(self) -> bool {
        !self.button.just_pressed && !self.button.pressed && self.button.just_released
    }

    /// Nothing happens to the button in this frame.
    pub open spec fn rests(self) -> bool {
        !self.button.just_pressed && !self.button.pressed && !self.button.just_released
    }
}

/// The act of a button after a run of frames.
pub open spec fn act_after(act: CBAct, frames: Seq<ButtonFrame>) -> CBAct
    decreases frames.len(),
{
    if frames.len() == 0 {
        act
    } else {
        frames.last().apply(act_after(act, frames.drop_last()))
    }
}

/// The time that a run of frames takes, in nanoseconds.
pub open spec fn total_elapsed(frames: Seq<ButtonFrame>) -> int
    decreases frames.len(),
{
    if frames.len() == 0 {
        0
    } else {
        total_elapsed(frames.drop_last()) + frames.last().elapsed
    }
}

/// The sum of the horizontal motions of a run of frames.
pub open spec fn total_motion_x(frames: Seq<ButtonFrame>) -> int
    decreases frames.len(),
{
    if frames.len() == 0 {
        0
    } else {
        total_motion_x(frames.drop_last()) + frames.last().motion.x
    }
}

/// The sum of the vertical motions of a run of frames.
pub open spec fn total_motion_y(frames: Seq<ButtonFrame>) -> int
    decreases frames.len(),
{
    if frames.len() == 0 {
        0
    } else {
        total_motion_y(frames.drop_last()) + frames.last().motion.y
    }
}

/// A click: a press, a frame of holding that stays within both thresholds,
/// a release and a frame of rest take an idle button through exactly
/// `Pressed`, `Pressed`, `Clicked` and `Idle`.
pub proof fn lemma_click(press: ButtonFrame, hold: ButtonFrame, release: ButtonFrame, rest: ButtonFrame)
    requires
        press.presses(),
        hold.holds(),
        !is_drag(hold.elapsed as int, hold.motion),
        release.releases(),
        rest.rests(),
    ensures
        press.apply(CBAct::Idle) == CBAct::Pressed(OptState::spec_new(press.pos->0)),
        hold.apply(press.apply(CBAct::Idle)) == CBAct::Pressed(
            OptState { dur: hold.elapsed, act_pos: press.pos->0, delta: hold.motion },
        ),
        release.apply(hold.apply(press.apply(CBAct::Idle))) == CBAct::Clicked,
        rest.apply(release.apply(hold.apply(press.apply(CBAct::Idle)))) == CBAct::Idle,
{
}

/// `Clicked` and `EndDrag` last one frame: whatever the next frame brings,
/// the button is then idle, or pressed anew.
pub proof fn lemma_transient_acts_decay(act: CBAct, frame: ButtonFrame)
    requires
        act is Clicked || act is EndDrag,
    ensures
        frame.apply(act) == if frame.presses() {
            CBAct::Pressed(OptState::spec_new(frame.pos->0))
        } else {
            CBAct::Idle
        },
{
}

/// While the button is held, a press is either still a press that has
/// gathered the run's whole time and motion without reaching a threshold,
/// or it has become a drag.
pub proof fn lemma_held_press(at: Vec2, frames: Seq<ButtonFrame>)
    requires
        forall|i: int| 0 <= i < frames.len() ==> (#[trigger] frames[i]).holds(),
    ensures
        match act_after(CBAct::Pressed(OptState::spec_new(at)), frames) {
            CBAct::Pressed(held) => {
                &&& held.dur == total_elapsed(frames)
                &&& held.act_pos == at
                &&& held.delta.x == total_motion_x(frames)
                &&& held.delta.y == total_motion_y(frames)
                &&& !is_drag(held.dur as int, held.delta)
            },
            CBAct::Dragged(_) => true,
            _ => false,
        },
    decreases frames.len(),
{
    if frames.len() > 0 {
        let before = frames.drop_last();
        assert forall|i: int| 0 <= i < before.len() implies (#[trigger] before[i]).holds() by {
            assert(before[i] == frames[i]);
        }
        lemma_held_press(at, before);
        let last = frames.last();
        assert(last.holds());
        match act_after(CBAct::Pressed(OptState::spec_new(at)), before) {
            CBAct::Pressed(held) => {
                let delta = held.delta.spec_saturating_add(last.motion);
                if !is_drag(held.dur + last.elapsed, delta) {
                    lemma_small_vector(delta);
                }
            },
            _ => {},
        }
    }
}

/// A vector within the drag distance has small components.
proof fn lemma_small_vector(v: Vec2)
    requires
        v.spec_length_squared() <= DRAG_DISTANCE_SQUARED,
    ensures
        -2 <= v.x <= 2,
        -2 <= v.y <= 2,
{
    let x = v.x as int;
    let y = v.y as int;
    assert(-2 <= x <= 2 && -2 <= y <= 2) by (nonlinear_arith)
        requires
            x * x + y * y <= 4,
    ;
}

/// Whether a run of frames takes a press past a threshold: whether it lasts
/// longer than the drag time, or its summed motion is longer than the drag
/// distance.
pub open spec fn passes_threshold(frames: Seq<ButtonFrame>) -> bool {
    total_elapsed(frames) > DRAG_TIME || total_motion_x(frames) * total_motion_x(frames)
        + total_motion_y(frames) * total_motion_y(frames) > DRAG_DISTANCE_SQUARED
}

/// Click against drag: once a press that is held has passed a threshold, by
/// time alone or by motion alone, it is a drag and stays one for as long as
/// the button is held, wherever the pointer moves then; its release ends a
/// drag, and is no click.
pub proof fn lemma_drag_threshold(at: Vec2, frames: Seq<ButtonFrame>, release: ButtonFrame)
    requires
        forall|i: int| 0 <= i < frames.len() ==> (#[trigger] frames[i]).holds(),
        exists|k: int| 0 <= k <= frames.len() && passes_threshold(#[trigger] frames.take(k)),
        release.releases(),
    ensures
        act_after(CBAct::Pressed(OptState::spec_new(at)), frames) is Dragged,
        release.apply(act_after(CBAct::Pressed(OptState::spec_new(at)), frames))
            == CBAct::EndDrag,
    decreases frames.len(),
{
    let k = choose|k: int| 0 <= k <= frames.len() && passes_threshold(#[trigger] frames.take(k));
    if k == frames.len() {
        assert(frames.take(k) =~= frames);
        lemma_held_press(at, frames);
    } else {
        let before = frames.drop_last();
        assert forall|i: int| 0 <= i < before.len() implies (#[trigger] before[i]).holds() by {
            assert(before[i] == frames[i]);
        }
        assert(before.take(k) =~= frames.take(k));
        lemma_drag_threshold(at, before, release);
        assert(frames.last().holds());
    }
}

/// A drag goes on for as long as the button is held, and each frame reports
/// that frame's motion alone.
pub proof fn lemma_drag_continues(last_motion: Vec2, frame: ButtonFrame)
    requires
        frame.holds(),
    ensures
        frame.apply(CBAct::Dragged(last_motion)) == CBAct::Dragged(frame.motion),
{
}

} // verus!
