use cellular_automata::camera::{Viewport, SCALE_ONE};
use cellular_automata::cell::{handle_space, handle_swap, update, CellControlType, Game, StepTimer};
use cellular_automata::input::mouse::{ButtonInput, MouseButtons};
use cellular_automata::input::{handle_mouse, CBAct, MouseAct};
use cellular_automata::lattice::Lattice;
use cellular_automata::math::{IVec2, Vec2};

const MS: u64 = 1_000_000;

struct Host {
    camera: Viewport,
    mouse: MouseAct,
    state: Game,
    latch: CellControlType,
    timer: StepTimer,
    lattice: Lattice,
    generations: u32,
}

fn host() -> Host {
    Host {
        camera: Viewport {
            size: Vec2::new(800, 600),
            translation: Vec2::zero(),
            scale: SCALE_ONE,
        },
        mouse: MouseAct::default(),
        state: Game::default(),
        latch: CellControlType::default(),
        timer: StepTimer::default(),
        lattice: Lattice::new(),
        generations: 0,
    }
}

const UP: ButtonInput = ButtonInput { just_pressed: false, pressed: false, just_released: false };
const PRESS: ButtonInput = ButtonInput { just_pressed: true, pressed: true, just_released: false };
const HOLD: ButtonInput = ButtonInput { just_pressed: false, pressed: true, just_released: false };
const RELEASE: ButtonInput =
    ButtonInput { just_pressed: false, pressed: false, just_released: true };

impl Host {
    /// One frame, in the order in which a host runs the core.
    fn frame(&mut self, ms: u64, cursor: (i32, i32), left: ButtonInput, motion: (i32, i32), space: bool) {
        handle_mouse(
            ms * MS,
            &mut self.mouse,
            Some(Vec2::new(cursor.0, cursor.1)),
            &self.camera,
            &MouseButtons { left, right: UP, middle: UP },
            Vec2::new(motion.0, motion.1),
            Vec2::zero(),
        );
        self.state = handle_space(self.state, space);
        handle_swap(&mut self.lattice, &self.mouse, &mut self.latch);
        if update(ms * MS, &mut self.timer, self.state, &mut self.lattice) {
            self.generations += 1;
        }
    }

    fn cells(&self) -> Vec<(i32, i32)> {
        let mut cells: Vec<(i32, i32)> = self.lattice.iter().iter().map(|c| (c.x, c.y)).collect();
        cells.sort();
        cells
    }
}

#[test]
fn click_paints_and_click_erases() {
    let mut host = host();
    host.frame(10, (408, 292), PRESS, (0, 0), false);
    assert_eq!(host.mouse.pos, Some(Vec2::new(8, 8)));
    assert!(host.mouse.left.is_pressed());
    assert_eq!(host.cells(), vec![]);
    host.frame(10, (408, 292), RELEASE, (0, 0), false);
    assert_eq!(host.mouse.left, CBAct::Clicked);
    assert_eq!(host.cells(), vec![(0, 0)]);
    host.frame(10, (408, 292), UP, (0, 0), false);
    assert_eq!(host.mouse.left, CBAct::Idle);
    assert_eq!(host.cells(), vec![(0, 0)]);
    host.frame(10, (408, 292), PRESS, (0, 0), false);
    host.frame(10, (408, 292), RELEASE, (0, 0), false);
    assert_eq!(host.cells(), vec![]);
    assert_eq!(host.latch.0, None);
    assert_eq!(host.generations, 0);
}

#[test]
fn drag_paints_under_the_cursor() {
    let mut host = host();
    host.frame(10, (408, 292), PRESS, (0, 0), false);
    host.frame(10, (424, 292), HOLD, (16, 0), false);
    assert_eq!(host.mouse.left, CBAct::Dragged(Vec2::new(16, 0)));
    assert_eq!(host.latch.0, Some(true));
    host.frame(10, (440, 292), HOLD, (16, 0), false);
    host.frame(10, (424, 292), HOLD, (-16, 0), false);
    assert_eq!(host.cells(), vec![(1, 0), (2, 0)]);
    assert_eq!(host.latch.0, Some(true));
    host.frame(10, (424, 292), RELEASE, (0, 0), false);
    assert_eq!(host.mouse.left, CBAct::EndDrag);
    assert_eq!(host.latch.0, None);
    host.frame(10, (424, 292), UP, (0, 0), false);
    assert!(host.mouse.is_none());
    assert_eq!(host.cells(), vec![(1, 0), (2, 0)]);
}

#[test]
fn painted_blinker_turns_with_the_ticks() {
    let mut host = host();
    for x in [392, 408, 424] {
        host.frame(1, (x, 292), PRESS, (0, 0), false);
        host.frame(1, (x, 292), RELEASE, (0, 0), false);
    }
    assert_eq!(host.cells(), vec![(-1, 0), (0, 0), (1, 0)]);
    host.frame(493, (0, 0), UP, (0, 0), false);
    assert_eq!(host.generations, 0);
    host.frame(1, (0, 0), UP, (0, 0), false);
    assert_eq!(host.generations, 1);
    assert_eq!(host.cells(), vec![(0, -1), (0, 0), (0, 1)]);
    host.frame(250, (0, 0), UP, (0, 0), true);
    assert_eq!(host.state, Game::Paused);
    host.frame(250, (0, 0), UP, (0, 0), false);
    host.frame(500, (0, 0), UP, (0, 0), false);
    assert_eq!(host.generations, 1);
    assert_eq!(host.cells(), vec![(0, -1), (0, 0), (0, 1)]);
    host.frame(499, (0, 0), UP, (0, 0), true);
    assert_eq!(host.state, Game::Running);
    assert_eq!(host.generations, 1);
    host.frame(1, (0, 0), UP, (0, 0), false);
    assert_eq!(host.generations, 2);
    assert_eq!(host.cells(), vec![(-1, 0), (0, 0), (1, 0)]);
    assert!(host.lattice.contains(&IVec2::new(0, 0)));
}
