use vstd::prelude::*;

use crate::chance::random_between;
use crate::grid::Grid;
use crate::rule::RuleContext;

verus! {

/// The number of update attempts per tick that a fresh scheduler makes.
pub const DEFAULT_ITERATIONS: i32 = 1000;

/// The frame rate under which auto-adjustment lowers the number of attempts.
pub const TARGET_FPS: u32 = 24;

/// The step by which auto-adjustment moves the number of attempts.
pub const ADJUST_STEP: i32 = 20;

/// The simulation's pace: whether it runs, how many update attempts each
/// tick makes, and whether that number follows the frame rate.
#[derive(Debug, Clone, Copy, PartialEq, Eq, Structural)]
pub struct Scheduler {
    pub running: bool,
    pub auto_adjust: bool,
    pub iterations: i32,
}

/// The attempt count after a tick that ran at `fps` frames per second.
pub open spec fn adjusted(iterations: i32, fps: u32) -> int {
    let next = if fps < TARGET_FPS { iterations - ADJUST_STEP } else { iterations + ADJUST_STEP };
    if next < i32::MIN { i32::MIN as int } else if next > i32::MAX { i32::MAX as int } else { next }
}

impl Scheduler {
    /// A running scheduler with auto-adjustment on and the default count.
    pub fn new() -> (s: Scheduler)
        ensures
            s == (Scheduler { running: true, auto_adjust: true, iterations: DEFAULT_ITERATIONS }),
    {
        Scheduler { running: true, auto_adjust: true, iterations: DEFAULT_ITERATIONS }
    }

    /// Switches between running and paused.
    pub fn toggle_running(&mut self)
        ensures
            *final(self) == (Scheduler { running: !old(self).running, ..*old(self) }),
    {
        self.running = !self.running;
    }

    /// Switches auto-adjustment on or off.
    pub fn toggle_auto_adjust(&mut self)
        ensures
            *final(self) == (Scheduler { auto_adjust: !old(self).auto_adjust, ..*old(self) }),
    {
        self.auto_adjust = !self.auto_adjust;
    }

    /// The number of update attempts the coming tick makes: none while
    /// paused or when the count is not positive.
    pub fn attempts(&self) -> (r: u32)
        ensures
            r == (if self.running && self.iterations > 0 { self.iterations as int } else { 0 }),
    {
        if self.running && self.iterations > 0 {
            self.iterations as u32
        } else {
            0
        }
    }

    /// Ends a tick that ran at `fps` frames per second: while running with
    /// auto-adjustment on, the count drops by the step under the target
    /// frame rate and rises by it otherwise, saturating at the bounds of `i32`.
    pub fn end_tick(&mut self, fps: u32)
        ensures
            final(self).running == old(self).running,
            final(self).auto_adjust == old(self).auto_adjust,
            final(self).iterations == (if old(self).running && old(self).auto_adjust {
                adjusted(old(self).iterations, fps)
            } else {
                old(self).iterations as int
            }),
    {
        if self.running && self.auto_adjust {
            self.iterations = if fps < TARGET_FPS {
                if self.iterations < i32::MIN + ADJUST_STEP { i32::MIN } else { self.iterations - ADJUST_STEP }
            } else {
                if self.iterations > i32::MAX - ADJUST_STEP { i32::MAX } else { self.iterations + ADJUST_STEP }
            };
        }
    }
}

/// One update attempt: a cell drawn uniformly from the whole grid, with
/// replacement, and the rule script of the state it holds, if that state
/// has one. Whatever the draw, the cell lies on the grid and the script is
/// the one its state carries.
pub fn next_update(grid: &Grid) -> (r: (RuleContext, Option<&String>))
    requires
        grid.wf(),
        grid.spec_width() > 0,
        grid.spec_height() > 0,
    ensures
        grid.in_bounds(r.0.x as int, r.0.y as int),
        r.1.is_some() <==> grid.registry()[grid.state_at(r.0.x as int, r.0.y as int) as int].update.is_some(),
        r.1 matches Some(s) ==> grid.registry()[grid.state_at(r.0.x as int, r.0.y as int) as int].update == Some(*s),
{
    let x = random_between(0, grid.width() as i64) as i32;
    let y = random_between(0, grid.height() as i64) as i32;
    (RuleContext { x, y }, grid.script_at(x, y))
}

/// A seed for the rule engine's own random number generator, drawn once
/// at start-up from `0..u32::MAX`.
pub fn engine_seed() -> (r: u32)
    ensures
        r < u32::MAX,
{
    random_between(0, u32::MAX as i64) as u32
}

} // verus!
