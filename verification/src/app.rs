//! The stepper: it owns the live table, accumulates elapsed time and moves
//! the table on by one generation whenever a step interval has been paid
//! for. Time is counted in whole microseconds.

use vstd::prelude::*;
use crate::grid::{is_grid, Grid};
use crate::rules::{evolve, next_generation};
use crate::table::Table;

verus! {

/// The interval between two generations, in microseconds.
pub const STEP_TIME: u64 = 200_000;

/// The state of a stepper as a value of the logic.
pub struct Simulation {
    /// The live generation.
    pub grid: Grid,
    /// The time accumulated since the last step.
    pub time: nat,
    /// The time that one step costs.
    pub step_time: nat,
}

/// Whether `dt` more microseconds pay for a step.
pub open spec fn fires(s: Simulation, dt: nat) -> bool {
    s.time + dt >= s.step_time
}

/// The state after `dt` more microseconds. Where they do not pay for a
/// step they are only added to the account. Where they do, one interval is
/// taken off the account and the grid moves on by one generation: one, not
/// as many as the account could pay for.
pub open spec fn tick(s: Simulation, dt: nat) -> Simulation {
    if fires(s, dt) {
        Simulation {
            grid: next_generation(s.grid),
            time: (s.time + dt - s.step_time) as nat,
            step_time: s.step_time,
        }
    } else {
        Simulation { grid: s.grid, time: s.time + dt, step_time: s.step_time }
    }
}

/// The state after one `tick` for each element of `dts`, in order.
pub open spec fn run(s: Simulation, dts: Seq<nat>) -> Simulation
    decreases dts.len(),
{
    if dts.len() == 0 {
        s
    } else {
        tick(run(s, dts.drop_last()), dts.last())
    }
}

/// How many of those ticks move the grid on.
pub open spec fn steps(s: Simulation, dts: Seq<nat>) -> nat
    decreases dts.len(),
{
    if dts.len() == 0 {
        0
    } else {
        let fired: nat = if fires(run(s, dts.drop_last()), dts.last()) {
            1
        } else {
            0
        };
        steps(s, dts.drop_last()) + fired
    }
}

/// The sum of `dts`.
pub open spec fn total(dts: Seq<nat>) -> nat
    decreases dts.len(),
{
    if dts.len() == 0 {
        0
    } else {
        total(dts.drop_last()) + dts.last()
    }
}

/// Ticks that are each shorter than a step and together no longer than one,
/// on an account that holds less than a step: the grid moves on once if the
/// account reaches a step with them, and not at all if it does not.
proof fn lemma_short_ticks(s: Simulation, dts: Seq<nat>)
    requires
        s.time < s.step_time,
        forall|i: int| 0 <= i < dts.len() ==> dts[i] < s.step_time,
        total(dts) <= s.step_time,
    ensures
        s.time + total(dts) < s.step_time ==> steps(s, dts) == 0 && run(s, dts) == (Simulation {
            grid: s.grid,
            time: s.time + total(dts),
            step_time: s.step_time,
        }),
        s.time + total(dts) >= s.step_time ==> steps(s, dts) == 1 && run(s, dts) == (Simulation {
            grid: next_generation(s.grid),
            time: (s.time + total(dts) - s.step_time) as nat,
            step_time: s.step_time,
        }),
    decreases dts.len(),
{
    if dts.len() > 0 {
        let front = dts.drop_last();
        assert forall|i: int| 0 <= i < front.len() implies front[i] < s.step_time by {
            assert(front[i] == dts[i]);
        }
        lemma_short_ticks(s, front);
    }
}

/// Ticks that are each shorter than a step and add up to exactly one step
/// move the grid on by exactly one generation, and leave the stepper in the
/// state that a single tick of one whole step leaves it in. The account
/// must hold less than a step at the start.
pub proof fn lemma_split_step(s: Simulation, dts: Seq<nat>)
    requires
        s.time < s.step_time,
        forall|i: int| 0 <= i < dts.len() ==> dts[i] < s.step_time,
        total(dts) == s.step_time,
    ensures
        steps(s, dts) == 1,
        run(s, dts) == tick(s, s.step_time),
        run(s, dts).grid == next_generation(s.grid),
        run(s, dts).time == s.time,
{
    lemma_short_ticks(s, dts);
}

/// Ticks of no time at all never change the grid, however many they are,
/// if the account holds less than a step at the start; then they change
/// nothing at all. With a step or more on the account each such tick takes
/// a step, and the grid is kept only where it is its own next generation.
pub proof fn lemma_idle_ticks(s: Simulation, n: nat)
    requires
        0 < s.step_time,
        s.time < s.step_time || next_generation(s.grid) == s.grid,
    ensures
        run(s, Seq::new(n, |i: int| 0nat)).grid == s.grid,
        run(s, Seq::new(n, |i: int| 0nat)).step_time == s.step_time,
        s.time < s.step_time ==> run(s, Seq::new(n, |i: int| 0nat)) == s && steps(
            s,
            Seq::new(n, |i: int| 0nat),
        ) == 0,
    decreases n,
{
    let dts = Seq::new(n, |i: int| 0nat);
    if n > 0 {
        assert(dts.drop_last() =~= Seq::new((n - 1) as nat, |i: int| 0nat));
        lemma_idle_ticks(s, (n - 1) as nat);
    }
}

/// A tick that does not reach a step leaves the account below a step, and
/// so does one that reaches it without reaching a second one.
pub proof fn lemma_account_stays_short(s: Simulation, dt: nat)
    requires
        s.time + dt < 2 * s.step_time,
        0 < s.step_time,
    ensures
        tick(s, dt).time < s.step_time,
{
}

/// The simulation: the live table, the time accumulated towards the next
/// step, and whether the display draws grid lines.
#[derive(Debug)]
pub struct App {
    table: Table,
    time: u64,
    view_grid: bool,
    step_time: u64,
}

impl View for App {
    type V = Simulation;

    closed spec fn view(&self) -> Simulation {
        Simulation {
            grid: self.table@,
            time: self.time as nat,
            step_time: self.step_time as nat,
        }
    }
}

impl App {
    /// The representation invariant: the table is well formed and a step
    /// costs time.
    pub closed spec fn wf(&self) -> bool {
        &&& self.table.wf()
        &&& self.step_time > 0
    }

    /// Whether the display should draw grid lines. The simulation itself
    /// never consults it.
    pub closed spec fn shows_grid(&self) -> bool {
        self.view_grid
    }

    /// What a well-formed stepper is seen as: a grid, and a step that costs
    /// time and fits the clock.
    pub proof fn lemma_view(&self)
        requires
            self.wf(),
        ensures
            is_grid(self@.grid),
            0 < self@.step_time <= u64::MAX,
            self@.time <= u64::MAX,
    {
        self.table.lemma_view_is_grid();
    }

    /// Takes over a seeded table. No time has passed yet, a step costs
    /// `STEP_TIME`, and grid lines are shown.
    pub fn new(table: Table) -> (app: App)
        requires
            table.wf(),
        ensures
            app.wf(),
            app@ == (Simulation { grid: table@, time: 0, step_time: STEP_TIME as nat }),
            app.shows_grid(),
    {
        App { table, time: 0, view_grid: true, step_time: STEP_TIME }
    }

    /// The live table, to read.
    pub fn get_table(&self) -> (table: &Table)
        requires
            self.wf(),
        ensures
            table.wf(),
            table@ == self@.grid,
    {
        &self.table
    }

    /// The time accumulated since the last step, in microseconds.
    pub fn time(&self) -> (time: u64)
        ensures
            time == self@.time,
    {
        self.time
    }

    /// The time that one step costs, in microseconds.
    pub fn step_time(&self) -> (step_time: u64)
        ensures
            step_time == self@.step_time,
    {
        self.step_time
    }

    /// Whether the display should draw grid lines.
    pub fn view_grid(&self) -> (shown: bool)
        ensures
            shown == self.shows_grid(),
    {
        self.view_grid
    }

    /// Lets `dt` microseconds pass: one `tick`. The new generation is built
    /// in a table of its own and replaces the live one whole. The sum of the
    /// account and `dt` must fit the clock.
    pub fn update(&mut self, dt: u64)
        requires
            old(self).wf(),
            old(self)@.time + dt <= u64::MAX,
        ensures
            final(self).wf(),
            final(self)@ == tick(old(self)@, dt as nat),
            final(self).shows_grid() == old(self).shows_grid(),
    {
        self.time = self.time + dt;
        if self.time < self.step_time {
            return;
        }
        self.time = self.time - self.step_time;
        let updated_table = evolve(&self.table);
        self.table = updated_table;
    }
}

} // verus!
