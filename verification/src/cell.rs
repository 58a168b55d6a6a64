//! Cells on the lattice: where they lie in the world, the run state and the
//! step timer that pace the generations, and the paint controller that
//! toggles cells under the cursor.

use crate::engine::{next_generation, step, Rule, BIRTH_NUM, DIE_NUM, MAX_CELLS, SURVIVE_NUM};
use crate::input::mouse::{CBAct, MouseAct};
use crate::lattice::Lattice;
use crate::math::{clamp_i32, clamp_to_i32, div_round, div_round_exec, lemma_div_round_nearest, IVec2, Vec2};
use vstd::prelude::*;

verus! {

/// The side of a cell, in world units.
pub const CELL_SIZE: u32 = 16;

/// The world position of the centre of cell `(0, 0)`, on both axes.
pub const OFFSET: i32 = 8;

/// The period of the step timer, in nanoseconds.
pub const STEP: u64 = 500_000_000;

/// A live cell.
#[derive(Clone, Copy, Debug, PartialEq, Eq, Structural)]
pub struct Cell {
    pub idx: IVec2,
}

/// Whether generations follow one another.
#[derive(Clone, Copy, Debug, PartialEq, Eq, Structural, Hash)]
pub enum Game {
    Running,
    Paused,
}

impl Default for Game {
    fn default() -> (state: Game)
        ensures
            state == Game::Running,
    {
        Game::Running
    }
}

impl Game {
    pub fn is_running(&self) -> (r: bool)
        ensures
            r == (*self == Game::Running),
    {
        matches!(self, Game::Running)
    }

    pub open spec fn spec_not(&self) -> Game {
        match self {
            Game::Running => Game::Paused,
            Game::Paused => Game::Running,
        }
    }

    /// The other run state.
    #[verifier::when_used_as_spec(spec_not)]
    pub fn not(&self) -> (other: Game)
        ensures
            other == self.spec_not(),
    {
        match self {
            Game::Running => Game::Paused,
            Game::Paused => Game::Running,
        }
    }
}

/// The run state after a frame: flipped if the space key went down during
/// the frame, and as it was otherwise, also while the key is held.
pub fn handle_space(cur: Game, space_just_pressed: bool) -> (nxt: Game)
    ensures
        nxt == if space_just_pressed {
            cur.spec_not()
        } else {
            cur
        },
{
    if space_just_pressed {
        cur.not()
    } else {
        cur
    }
}

/// Flipping the run state twice restores it.
pub proof fn lemma_not_is_an_involution(state: Game)
    ensures
        state.spec_not().spec_not() == state,
        state.spec_not() != state,
{
}

/// The world position of the centre of the cell at `idx`.
pub open spec fn cell_position(idx: IVec2) -> Vec2 {
    Vec2 {
        x: clamp_i32(OFFSET + idx.x * CELL_SIZE),
        y: clamp_i32(OFFSET + idx.y * CELL_SIZE),
    }
}

/// The cell in which a world position lies: the cell whose centre is
/// nearest, on each axis.
pub open spec fn cell_index(pos: Vec2) -> IVec2 {
    IVec2 {
        x: div_round(pos.x - OFFSET, CELL_SIZE as int) as i32,
        y: div_round(pos.y - OFFSET, CELL_SIZE as int) as i32,
    }
}

/// The world position of the centre of the cell at `idx`.
#[inline]
pub fn get_pos(idx: &IVec2) -> (pos: Vec2)
    ensures
        pos == cell_position(*idx),
{
    let size: i64 = CELL_SIZE as i64;
    assert(size == 16);
    Vec2 {
        x: clamp_to_i32(OFFSET as i64 + idx.x as i64 * size),
        y: clamp_to_i32(OFFSET as i64 + idx.y as i64 * size),
    }
}

fn axis_index(v: i32) -> (i: i32)
    ensures
        i == div_round(v - OFFSET, CELL_SIZE as int),
{
    proof {
        lemma_div_round_nearest(v - OFFSET, CELL_SIZE as int);
    }
    div_round_exec(v as i64 - OFFSET as i64, CELL_SIZE as i64) as i32
}

/// The cell in which a world position lies.
#[inline]
pub fn get_idx(pos: &Vec2) -> (idx: IVec2)
    ensures
        idx == cell_index(*pos),
{
    IVec2 { x: axis_index(pos.x), y: axis_index(pos.y) }
}

/// A cell at `idx`, with the world position at which it is drawn.
#[inline]
pub fn new_cell(idx: IVec2) -> (cell: (Cell, Vec2))
    ensures
        cell == (Cell { idx }, cell_position(idx)),
{
    (Cell { idx }, get_pos(&idx))
}

/// A cell whose centre lies within the world is found again from its centre.
pub proof fn lemma_index_of_position(idx: IVec2)
    requires
        i32::MIN <= OFFSET + idx.x * CELL_SIZE <= i32::MAX,
        i32::MIN <= OFFSET + idx.y * CELL_SIZE <= i32::MAX,
    ensures
        cell_index(cell_position(idx)) == idx,
{
    lemma_div_round_nearest(idx.x * CELL_SIZE, CELL_SIZE as int);
    lemma_div_round_nearest(idx.y * CELL_SIZE, CELL_SIZE as int);
}

/// The rule under which `update` advances the lattice.
pub open spec fn default_rule() -> Rule {
    Rule { survive: SURVIVE_NUM, birth: BIRTH_NUM, die: DIE_NUM }
}

/// A repeating timer: it gathers the time of the frames and fires in each
/// frame in which the gathered time reaches its period; what goes beyond
/// the period is kept for the next round.
#[derive(Clone, Copy, Debug, PartialEq, Eq, Structural)]
pub struct StepTimer {
    /// The time gathered since the timer last fired, in nanoseconds.
    pub elapsed: u64,
    /// The period, in nanoseconds.
    pub period: u64,
}

impl Default for StepTimer {
    fn default() -> (timer: StepTimer)
        ensures
            timer == (StepTimer { elapsed: 0, period: STEP }),
    {
        StepTimer { elapsed: 0, period: STEP }
    }
}

impl StepTimer {
    /// A timer of the given period that has gathered no time yet.
    pub fn new(period: u64) -> (timer: StepTimer)
        ensures
            timer == (StepTimer { elapsed: 0, period }),
    {
        StepTimer { elapsed: 0, period }
    }

    /// Whether the timer fires in a frame that lasts `delta` nanoseconds.
    pub open spec fn fires(self, delta: u64) -> bool {
        self.elapsed + delta >= self.period
    }

    /// The timer after a frame that lasts `delta` nanoseconds. A frame that
    /// spans several periods leaves the remainder of the last one.
    pub open spec fn after(self, delta: u64) -> StepTimer {
        StepTimer {
            elapsed: if self.period == 0 {
                0
            } else {
                ((self.elapsed + delta) % (self.period as int)) as u64
            },
            period: self.period,
        }
    }

    /// Advances the timer by one frame. Returns whether it fired.
    pub fn tick(&mut self, delta: u64) -> (fired: bool)
        ensures
            fired == old(self).fires(delta),
            *final(self) == old(self).after(delta),
    {
        let total: u128 = self.elapsed as u128 + delta as u128;
        let fired = total >= self.period as u128;
        if self.period == 0 {
            self.elapsed = 0;
        } else {
            self.elapsed = (total % self.period as u128) as u64;
        }
        fired
    }
}

/// One frame of the tick scheduler: the timer advances by `delta`
/// nanoseconds, and if it fires while the game is running, the lattice is
/// replaced by its next generation. Returns whether that happened.
pub fn update(delta: u64, timer: &mut StepTimer, state: Game, lattice: &mut Lattice) -> (stepped:
    bool)
    requires
        old(lattice)@.len() <= MAX_CELLS,
    ensures
        *final(timer) == old(timer).after(delta),
        stepped == (old(timer).fires(delta) && state == Game::Running),
        final(lattice)@ == if stepped {
            next_generation(old(lattice)@, default_rule())
        } else {
            old(lattice)@
        },
{
    let fired = timer.tick(delta);
    if !fired || !state.is_running() {
        return false;
    }
    let rule = Rule { survive: SURVIVE_NUM, birth: BIRTH_NUM, die: DIE_NUM };
    let next = step(lattice, &rule);
    *lattice = next;
    true
}

/// The paint latch: `None` while no drag has touched a cell, `Some(true)`
/// while the drag in progress creates cells, `Some(false)` while it
/// destroys them.
#[derive(Clone, Copy, Debug, PartialEq, Eq, Structural)]
pub struct CellControlType(pub Option<bool>);

impl Default for CellControlType {
    fn default() -> (latch: CellControlType)
        ensures
            latch.0 is None,
    {
        CellControlType(None)
    }
}

/// The lattice and the latch after the paint controller has seen one frame.
///
/// The end of a drag clears the latch. A click toggles the cell under the
/// cursor. A drag toggles it too, unless that would undo what the drag has
/// done so far: its first toggle sets the latch, and from then on it only
/// creates or only destroys. Nothing happens for any other act of the
/// button, or while the cursor is outside the window.
pub open spec fn paint(live: Set<IVec2>, latch: Option<bool>, left: CBAct, pos: Option<Vec2>) -> (
    Set<IVec2>,
    Option<bool>,
) {
    if left is EndDrag {
        (live, None)
    } else if pos is None || !(left is Clicked || left is Dragged) {
        (live, latch)
    } else {
        let idx = cell_index(pos->0);
        if left is Clicked {
            if live.contains(idx) {
                (live.remove(idx), latch)
            } else {
                (live.insert(idx), latch)
            }
        } else if live.contains(idx) {
            if latch == Some(true) {
                (live, latch)
            } else {
                (live.remove(idx), Some(false))
            }
        } else {
            if latch == Some(false) {
                (live, latch)
            } else {
                (live.insert(idx), Some(true))
            }
        }
    }
}

/// One frame of the paint controller, driven by the left button.
pub fn handle_swap(lattice: &mut Lattice, mouse: &MouseAct, ctl_state: &mut CellControlType)
    ensures
        (final(lattice)@, final(ctl_state).0) == paint(
            old(lattice)@,
            old(ctl_state).0,
            mouse.left,
            mouse.pos,
        ),
{
    if mouse.left.is_end_drag() {
        ctl_state.0 = None;
        return ;
    }
    if !(mouse.left.is_clicked() || mouse.left.is_dragged()) {
        return ;
    }
    let pos = match mouse.pos {
        Some(pos) => pos,
        None => {
            return ;
        },
    };
    let idx = get_idx(&pos);
    if lattice.contains(&idx) {
        if mouse.left.is_dragged() {
            match ctl_state.0 {
                None => {
                    ctl_state.0 = Some(false);
                },
                Some(true) => {
                    return ;
                },
                Some(false) => {},
            }
        }
        lattice.remove(&idx);
    } else {
        if mouse.left.is_dragged() {
            match ctl_state.0 {
                None => {
                    ctl_state.0 = Some(true);
                },
                Some(false) => {
                    return ;
                },
                Some(true) => {},
            }
        }
        lattice.insert(idx);
    }
}

/// The lattice and the latch after the paint controller has seen a run of
/// frames, each given as the pointer of that frame.
pub open spec fn paint_after(live: Set<IVec2>, latch: Option<bool>, frames: Seq<MouseAct>) -> (
    Set<IVec2>,
    Option<bool>,
)
    decreases frames.len(),
{
    if frames.len() == 0 {
        (live, latch)
    } else {
        let before = paint_after(live, latch, frames.drop_last());
        paint(before.0, before.1, frames.last().left, frames.last().pos)
    }
}

/// A drag is monotonic: over a run of frames in which the left button
/// drags, either no frame destroys a cell or no frame creates one. So no
/// cell is both created and destroyed within one drag.
pub proof fn lemma_drag_is_monotonic(live: Set<IVec2>, latch: Option<bool>, frames: Seq<MouseAct>)
    requires
        forall|i: int| 0 <= i < frames.len() ==> (#[trigger] frames[i]).left is Dragged,
    ensures
        (forall|k: int|
            0 <= k < frames.len() ==> (#[trigger] paint_after(live, latch, frames.take(k))).0.subset_of(
                paint_after(live, latch, frames.take(k + 1)).0,
            )) || (forall|k: int|
            0 <= k < frames.len() ==> paint_after(live, latch, frames.take(k + 1)).0.subset_of(
                (#[trigger] paint_after(live, latch, frames.take(k))).0,
            )),
{
    lemma_drag_follows_latch(live, latch, frames, frames.len() as int);
    let end = paint_after(live, latch, frames.take(frames.len() as int)).1;
    if end == Some(false) {
        assert forall|k: int| 0 <= k < frames.len() implies paint_after(
            live,
            latch,
            frames.take(k + 1),
        ).0.subset_of((#[trigger] paint_after(live, latch, frames.take(k))).0) by {
            assert(shrinks(live, latch, frames, k));
        }
    } else {
        assert forall|k: int| 0 <= k < frames.len() implies (#[trigger] paint_after(
            live,
            latch,
            frames.take(k),
        )).0.subset_of(paint_after(live, latch, frames.take(k + 1)).0) by {
            assert(grows(live, latch, frames, k));
        }
    }
}

/// The `k`-th frame of the run destroys no cell.
spec fn grows(live: Set<IVec2>, latch: Option<bool>, frames: Seq<MouseAct>, k: int) -> bool {
    paint_after(live, latch, frames.take(k)).0.subset_of(
        paint_after(live, latch, frames.take(k + 1)).0,
    )
}

/// The `k`-th frame of the run creates no cell.
spec fn shrinks(live: Set<IVec2>, latch: Option<bool>, frames: Seq<MouseAct>, k: int) -> bool {
    paint_after(live, latch, frames.take(k + 1)).0.subset_of(
        paint_after(live, latch, frames.take(k)).0,
    )
}

/// After `n` frames of a drag the latch tells what the drag has done: an
/// open latch, nothing; a creating latch, no destruction; a destroying
/// latch, no creation. A latch that is set stays as it is.
proof fn lemma_drag_follows_latch(
    live: Set<IVec2>,
    latch: Option<bool>,
    frames: Seq<MouseAct>,
    n: int,
)
    requires
        0 <= n <= frames.len(),
        forall|i: int| 0 <= i < frames.len() ==> (#[trigger] frames[i]).left is Dragged,
    ensures
        latch is Some ==> paint_after(live, latch, frames.take(n)).1 == latch,
        paint_after(live, latch, frames.take(n)).1 != Some(false) ==> forall|k: int|
            0 <= k < n ==> #[trigger] grows(live, latch, frames, k),
        paint_after(live, latch, frames.take(n)).1 != Some(true) ==> forall|k: int|
            0 <= k < n ==> #[trigger] shrinks(live, latch, frames, k),
    decreases n,
{
    if n > 0 {
        lemma_drag_follows_latch(live, latch, frames, n - 1);
        assert(frames.take(n).drop_last() =~= frames.take(n - 1));
        assert(frames.take(n).last() == frames[n - 1]);
        let before = paint_after(live, latch, frames.take(n - 1));
        let after = paint_after(live, latch, frames.take(n));
        assert(after == paint(before.0, before.1, frames[n - 1].left, frames[n - 1].pos));
        if after.1 != Some(false) {
            assert(grows(live, latch, frames, n - 1));
        }
        if after.1 != Some(true) {
            assert(shrinks(live, latch, frames, n - 1));
        }
    }
}

/// The sum of the frame times of a run, in nanoseconds.
pub open spec fn total_time(deltas: Seq<u64>) -> int
    decreases deltas.len(),
{
    if deltas.len() == 0 {
        0
    } else {
        total_time(deltas.drop_last()) + deltas.last()
    }
}

/// The timer after a run of frames.
pub open spec fn timer_after(timer: StepTimer, deltas: Seq<u64>) -> StepTimer
    decreases deltas.len(),
{
    if deltas.len() == 0 {
        timer
    } else {
        timer_after(timer, deltas.drop_last()).after(deltas.last())
    }
}

/// In how many frames of a run the timer fires.
pub open spec fn fires_in(timer: StepTimer, deltas: Seq<u64>) -> nat
    decreases deltas.len(),
{
    if deltas.len() == 0 {
        0
    } else {
        fires_in(timer, deltas.drop_last()) + if timer_after(timer, deltas.drop_last()).fires(
            deltas.last(),
        ) {
            1nat
        } else {
            0nat
        }
    }
}

/// No frame of the run reaches the end of a second period: none makes the
/// timer skip a tick.
pub open spec fn skips_no_tick(timer: StepTimer, deltas: Seq<u64>) -> bool
    decreases deltas.len(),
{
    deltas.len() > 0 ==> {
        &&& skips_no_tick(timer, deltas.drop_last())
        &&& timer_after(timer, deltas.drop_last()).elapsed + deltas.last() < 2 * timer.period
    }
}

/// The live set after `n` generations under `rule`.
pub open spec fn generations(live: Set<IVec2>, rule: Rule, n: nat) -> Set<IVec2>
    decreases n,
{
    if n == 0 {
        live
    } else {
        next_generation(generations(live, rule, (n - 1) as nat), rule)
    }
}

/// The live set after the tick scheduler has seen a run of frames in one
/// run state.
pub open spec fn lattice_after(
    live: Set<IVec2>,
    timer: StepTimer,
    state: Game,
    deltas: Seq<u64>,
) -> Set<IVec2>
    decreases deltas.len(),
{
    if deltas.len() == 0 {
        live
    } else {
        let before = lattice_after(live, timer, state, deltas.drop_last());
        if timer_after(timer, deltas.drop_last()).fires(deltas.last()) && state == Game::Running {
            next_generation(before, default_rule())
        } else {
            before
        }
    }
}

/// Tick pacing: over a run of frames none of which skips a tick, the timer
/// fires once for each whole period in the time it has gathered, and keeps
/// the remainder.
pub proof fn lemma_tick_pacing(timer: StepTimer, deltas: Seq<u64>)
    requires
        timer.period > 0,
        timer.elapsed < timer.period,
        skips_no_tick(timer, deltas),
    ensures
        fires_in(timer, deltas) == (timer.elapsed + total_time(deltas)) / (timer.period as int),
        timer_after(timer, deltas).elapsed == (timer.elapsed + total_time(deltas)) % (
        timer.period as int),
        timer_after(timer, deltas).period == timer.period,
    decreases deltas.len(),
{
    let p = timer.period as int;
    if deltas.len() == 0 {
        vstd::arithmetic::div_mod::lemma_fundamental_div_mod_converse(
            timer.elapsed as int,
            p,
            0,
            timer.elapsed as int,
        );
    } else {
        let before = deltas.drop_last();
        lemma_tick_pacing(timer, before);
        let gathered = timer.elapsed + total_time(before);
        let q = gathered / p;
        let r = gathered % p;
        let d = deltas.last() as int;
        vstd::arithmetic::div_mod::lemma_fundamental_div_mod(gathered, p);
        vstd::arithmetic::div_mod::lemma_mod_bound(gathered, p);
        assert(timer_after(timer, before).elapsed == r);
        if r + d >= p {
            assert(gathered + d == (q + 1) * p + (r + d - p)) by (nonlinear_arith)
                requires
                    gathered == p * q + r,
            ;
            vstd::arithmetic::div_mod::lemma_fundamental_div_mod_converse(
                gathered + d,
                p,
                q + 1,
                r + d - p,
            );
            vstd::arithmetic::div_mod::lemma_fundamental_div_mod_converse(r + d, p, 1, r + d - p);
        } else {
            assert(gathered + d == q * p + (r + d)) by (nonlinear_arith)
                requires
                    gathered == p * q + r,
            ;
            vstd::arithmetic::div_mod::lemma_fundamental_div_mod_converse(
                gathered + d,
                p,
                q,
                r + d,
            );
            vstd::arithmetic::div_mod::lemma_fundamental_div_mod_converse(r + d, p, 0, r + d);
        }
    }
}

/// While the game runs, the lattice has gone through one generation for
/// each frame in which the timer fired; while it is paused, through none.
pub proof fn lemma_generations_follow_ticks(
    live: Set<IVec2>,
    timer: StepTimer,
    state: Game,
    deltas: Seq<u64>,
)
    ensures
        lattice_after(live, timer, state, deltas) == if state == Game::Running {
            generations(live, default_rule(), fires_in(timer, deltas))
        } else {
            live
        },
    decreases deltas.len(),
{
    if deltas.len() > 0 {
        lemma_generations_follow_ticks(live, timer, state, deltas.drop_last());
    }
}

} // verus!
