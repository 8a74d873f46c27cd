//! The simulation context and the per-frame pipeline.
//!
//! One `Game` owns every piece of core state. Each host frame feeds it
//! the elapsed time, the raw directional intent and the pause toggle;
//! the game gates everything through the pause state, resolves the
//! intent, advances the movement clock, and on a tick runs the movement
//! pipeline: advance the head, detect eating, grow or shrink, place a
//! new apple and keep the scores.

use vstd::prelude::*;
use crate::apple::free_cells;
use crate::apple::place_apple;
use crate::chain::BodyChain;
use crate::direction::Bend;
use crate::direction::Direction;
use crate::direction::DirectionState;
use crate::direction::Intent;
use crate::direction::classify_bend;
use crate::direction::spec_bend;
use crate::direction::spec_resolve;
use crate::direction::step_cell;
use crate::direction::stepped_cell;
use crate::grid::Cell;
use crate::grid::cell_in_grid;
use crate::scheduler::MovementScheduler;
use crate::score::ScoreKeeper;

verus! {

/// Whether the simulation is running or paused.
#[derive(Clone, Copy, PartialEq, Eq, Structural, Debug)]
pub enum GameState {
    Running,
    Paused,
}

impl Default for GameState {
    /// A fresh game runs.
    fn default() -> (s: Self)
        ensures
            s == GameState::Running,
    {
        GameState::Running
    }
}

/// What one movement tick did, for the host to render and sound.
#[derive(Clone, Copy, Debug)]
pub struct StepResult {
    /// The cell the head moved onto.
    pub new_head: Cell,
    /// How the segment left behind by the head bends.
    pub bend: Bend,
    /// Whether the head landed on the apple.
    pub ate: bool,
    /// An improved high score to persist, if the record was beaten.
    pub new_high: Option<u32>,
}

/// The complete simulation state.
pub struct Game {
    pub chain: BodyChain,
    pub dirs: DirectionState,
    pub apple: Cell,
    pub scores: ScoreKeeper,
    pub state: GameState,
    pub scheduler: MovementScheduler,
}

impl Game {
    /// Every component is well-formed and the apple lies on a free grid
    /// cell.
    pub open spec fn wf(self) -> bool {
        &&& self.chain.wf()
        &&& self.dirs.wf()
        &&& self.scores.wf()
        &&& self.scheduler.wf()
        &&& cell_in_grid(self.apple)
        &&& !self.chain.occupied(self.apple)
    }

    /// The pause state after this frame's toggle input.
    pub open spec fn next_state(self, toggle: bool) -> GameState {
        if toggle {
            if self.state == GameState::Running {
                GameState::Paused
            } else {
                GameState::Running
            }
        } else {
            self.state
        }
    }

    /// Whether the game runs once this frame's toggle is applied.
    pub open spec fn running_after(self, toggle: bool) -> bool {
        self.next_state(toggle) == GameState::Running
    }

    /// The direction this frame's intent resolves to.
    pub open spec fn resolved_dir(self, intent: Intent) -> Direction {
        spec_resolve(intent, self.dirs.current, self.dirs.last)
    }

    /// The cell the head would move onto in direction `d`.
    pub open spec fn target_cell(self, d: Direction) -> Cell {
        stepped_cell(self.chain.head_cell_spec(), d)
    }

    /// A movement tick in direction `d` stays within the rules: on an
    /// eating tick the grid must still have a free cell for the next
    /// apple and the counters must have room; on a plain tick the
    /// target cell must not be covered by a segment that remains (the
    /// vacated tail cell is free to enter).
    pub open spec fn step_ok(self, d: Direction) -> bool {
        let nc = self.target_cell(d);
        if nc == self.apple {
            &&& self.chain.len_spec() < usize::MAX
            &&& self.scores.score < u32::MAX
            &&& exists|w: Cell|
                cell_in_grid(w) && !self.chain.cells().push(nc).contains(w)
        } else {
            !self.chain.cells().subrange(1, self.chain.len_spec() as int).contains(nc)
        }
    }

    /// The grid cannot run out of apple cells before the snake covers
    /// it: while the chain is shorter than one less than the grid's
    /// 169 cells, an eating tick always finds a free cell for the next
    /// apple.
    pub proof fn lemma_grid_not_exhausted(self, d: Direction)
        requires
            self.wf(),
            self.chain.len_spec() < 168,
            self.target_cell(d) == self.apple,
        ensures
            exists|w: Cell|
                cell_in_grid(w) && !self.chain.cells().push(self.target_cell(d)).contains(w),
    {
        let nc = self.target_cell(d);
        let covered = self.chain.cells().push(nc);
        self.chain.lemma_cells_distinct();
        assert forall|k: int| 0 <= k < covered.len() implies cell_in_grid(
            #[trigger] covered[k]) by {
            if k < self.chain.cells().len() {
                assert(covered[k] == self.chain.cells()[k]);
            }
        }
        assert forall|k1: int, k2: int| 0 <= k1 < k2 < covered.len() implies covered[k1]
            != covered[k2] by {
            if k2 == covered.len() - 1 {
                assert(covered[k1] == self.chain.cells()[k1]);
                assert(self.chain.cells().contains(self.chain.cells()[k1]));
            }
        }
        crate::apple::lemma_free_cell_exists(covered);
    }

    /// Whether a movement tick fires this frame.
    pub open spec fn would_tick(self, elapsed_ms: u64, toggle: bool) -> bool {
        self.running_after(toggle) && self.scheduler.acc_ms + elapsed_ms
            >= self.scheduler.period_ms
    }

    /// Set up a fresh game: the starting chain, an apple on a free
    /// cell, score zero against the loaded record, running, with an
    /// idle movement clock.
    pub fn new(high_score: u32, period_ms: u64) -> (g: Game)
        requires
            period_ms > 0,
        ensures
            g.wf(),
            g.state == GameState::Running,
            g.chain.len_spec() == 3,
            g.chain.head_cell_spec() == (Cell { x: 0i32, y: 0i32 }),
            g.dirs.current == Direction::Right,
            g.dirs.last == Direction::Right,
            g.scores.score == 0,
            g.scores.high_score == high_score,
            g.scheduler.period_ms == period_ms,
            g.scheduler.acc_ms == 0,
    {
        let chain = BodyChain::new();
        let occ = chain.cells_vec();
        proof {
            let w = Cell { x: 3i32, y: 3i32 };
            assert(occ@[0] != w && occ@[1] != w && occ@[2] != w);
            assert(!occ@.contains(w));
            assert(cell_in_grid(w) && !occ@.contains(w));
        }
        let apple = place_apple(&occ);
        Game {
            chain,
            dirs: DirectionState::new(),
            apple,
            scores: ScoreKeeper::new(high_score),
            state: GameState::Running,
            scheduler: MovementScheduler::new(period_ms),
        }
    }

    /// Flip between running and paused.
    pub fn toggle_pause(&mut self)
        requires
            old(self).wf(),
        ensures
            final(self).wf(),
            final(self).state == old(self).next_state(true),
            final(self).chain == old(self).chain,
            final(self).dirs == old(self).dirs,
            final(self).apple == old(self).apple,
            final(self).scores == old(self).scores,
            final(self).scheduler == old(self).scheduler,
    {
        if self.state == GameState::Running {
            self.state = GameState::Paused;
        } else {
            self.state = GameState::Running;
        }
    }

    /// One movement tick: the head advances one wrapped step in the
    /// committed direction; landing on the apple eats it, grows the
    /// chain by keeping the tail, places a new apple and scores,
    /// otherwise the tail moves up and nothing else changes.
    pub fn step(&mut self) -> (r: StepResult)
        requires
            old(self).wf(),
            old(self).step_ok(old(self).dirs.current),
        ensures
            final(self).wf(),
            r.new_head == old(self).target_cell(old(self).dirs.current),
            final(self).chain.head_cell_spec() == r.new_head,
            r.bend == spec_bend(old(self).dirs.last, old(self).dirs.current),
            r.ate == (r.new_head == old(self).apple),
            final(self).dirs.current == old(self).dirs.current,
            final(self).dirs.last == old(self).dirs.current,
            final(self).state == old(self).state,
            final(self).scheduler == old(self).scheduler,
            final(self).scores.high_score >= old(self).scores.high_score,
            r.ate ==> {
                &&& final(self).chain.cells() == old(self).chain.cells().push(r.new_head)
                &&& final(self).chain.len_spec() == old(self).chain.len_spec() + 1
                &&& final(self).scores.score == old(self).scores.score + 1
                &&& (old(self).scores.score == old(self).scores.high_score ==> final(self).scores.high_score == old(self).scores.high_score + 1 && r.new_high == Some(
                    final(self).scores.high_score,
                ))
                &&& (old(self).scores.score < old(self).scores.high_score ==> final(self).scores.high_score == old(self).scores.high_score && r.new_high is None)
            },
            !r.ate ==> {
                &&& final(self).chain.cells() == old(self).chain.cells().subrange(
                    1,
                    old(self).chain.len_spec() as int,
                ).push(r.new_head)
                &&& final(self).chain.len_spec() == old(self).chain.len_spec()
                &&& final(self).apple == old(self).apple
                &&& final(self).scores == old(self).scores
                &&& r.new_high is None
            },
    {
        let head_c = self.chain.head_cell();
        let dir = self.dirs.current;
        let nc = step_cell(head_c, dir);
        let bend = classify_bend(self.dirs.last, dir);
        let ate = nc == self.apple;
        let new_high: Option<u32>;
        if ate {
            proof {
                assert(nc == old(self).target_cell(old(self).dirs.current));
                assert(old(self).chain.len_spec() < usize::MAX);
            }
            self.chain.advance(dir);
            let occ = self.chain.cells_vec();
            self.apple = place_apple(&occ);
            new_high = self.scores.on_eat();
        } else {
            let ghost cells0 = self.chain.cells();
            self.chain.shrink_tail();
            proof {
                assert(!self.chain.occupied(nc));
                // the apple is not on the shortened chain either
                assert(!self.chain.cells().contains(self.apple)) by {
                    if self.chain.cells().contains(self.apple) {
                        let j = choose|j: int|
                            0 <= j < self.chain.cells().len() && self.chain.cells()[j]
                                == self.apple;
                        assert(cells0[j + 1] == self.apple);
                        assert(cells0.contains(self.apple));
                    }
                }
            }
            let ghost cells1 = self.chain.cells();
            proof {
                old(self).chain.lemma_len_bound();
            }
            self.chain.advance(dir);
            new_high = None;
            proof {
                // the apple stays off the chain: the new head cell is not
                // the apple, and the remaining segments never held it
                assert(!self.chain.occupied(self.apple)) by {
                    if self.chain.cells().contains(self.apple) {
                        let j = choose|j: int|
                            0 <= j < self.chain.cells().len() && self.chain.cells()[j]
                                == self.apple;
                        if j < cells1.len() {
                            assert(cells1[j] == self.apple);
                            assert(cells1.contains(self.apple));
                        }
                    }
                }
            }
        }
        self.dirs.commit_tick();
        StepResult { new_head: nc, bend, ate, new_high }
    }

    /// Feed one frame of raw input into the resolver, unless paused.
    pub fn apply_intent(&mut self, intent: Intent)
        requires
            old(self).wf(),
        ensures
            final(self).wf(),
            old(self).state == GameState::Running ==> final(self).dirs.current == old(self).resolved_dir(intent),
            old(self).state != GameState::Running ==> final(self).dirs == old(self).dirs,
            final(self).dirs.last == old(self).dirs.last,
            final(self).chain == old(self).chain,
            final(self).apple == old(self).apple,
            final(self).scores == old(self).scores,
            final(self).state == old(self).state,
            final(self).scheduler == old(self).scheduler,
    {
        if self.state == GameState::Running {
            self.dirs.apply_intent(intent);
        }
    }

    /// One host frame: apply the pause toggle, resolve the intent,
    /// advance the movement clock, and run the movement pipeline if a
    /// tick fires. While paused nothing accumulates and nothing moves;
    /// the countdown later resumes from its kept remainder.
    pub fn frame(&mut self, elapsed_ms: u64, intent: Intent, toggle: bool) -> (r: Option<
        StepResult,
    >)
        requires
            old(self).wf(),
            elapsed_ms <= u64::MAX - old(self).scheduler.period_ms,
            old(self).would_tick(elapsed_ms, toggle) ==> old(self).step_ok(
                old(self).resolved_dir(intent),
            ),
        ensures
            final(self).wf(),
            final(self).state == old(self).next_state(toggle),
            final(self).scheduler.period_ms == old(self).scheduler.period_ms,
            (r is Some) == old(self).would_tick(elapsed_ms, toggle),
            !old(self).running_after(toggle) ==> {
                &&& final(self).scheduler.acc_ms == old(self).scheduler.acc_ms
                &&& final(self).chain == old(self).chain
                &&& final(self).apple == old(self).apple
                &&& final(self).scores == old(self).scores
                &&& final(self).dirs == old(self).dirs
            },
            old(self).running_after(toggle) ==> final(self).dirs.current == old(self).resolved_dir(intent),
            (old(self).running_after(toggle) && !old(self).would_tick(elapsed_ms, toggle)) ==> {
                &&& final(self).scheduler.acc_ms == old(self).scheduler.acc_ms + elapsed_ms
                &&& final(self).chain == old(self).chain
                &&& final(self).apple == old(self).apple
                &&& final(self).scores == old(self).scores
                &&& final(self).dirs.last == old(self).dirs.last
            },
            r matches Some(sr) ==> {
                &&& sr.new_head == stepped_cell(
                    old(self).chain.head_cell_spec(),
                    old(self).resolved_dir(intent),
                )
                &&& final(self).chain.head_cell_spec() == sr.new_head
                &&& sr.ate == (sr.new_head == old(self).apple)
                &&& sr.bend == spec_bend(old(self).dirs.last, old(self).resolved_dir(intent))
                &&& (sr.ate ==> final(self).chain.len_spec() == old(self).chain.len_spec() + 1
                    && final(self).scores.score == old(self).scores.score + 1)
                &&& (!sr.ate ==> final(self).chain.len_spec() == old(self).chain.len_spec()
                    && final(self).apple == old(self).apple && final(self).scores == old(self).scores)
                &&& (sr.ate && old(self).scores.score == old(self).scores.high_score
                    ==> sr.new_high == Some((old(self).scores.high_score + 1) as u32) && final(self).scores.high_score == old(self).scores.high_score + 1)
                &&& (sr.ate && old(self).scores.score < old(self).scores.high_score
                    ==> sr.new_high is None && final(self).scores.high_score == old(self).scores.high_score)
                &&& (!sr.ate ==> sr.new_high is None)
                &&& final(self).dirs.last == old(self).resolved_dir(intent)
            },
    {
        if toggle {
            self.toggle_pause();
        }
        let running = self.state == GameState::Running;
        if running {
            self.dirs.apply_intent(intent);
        }
        let ticked = self.scheduler.on_frame(elapsed_ms, running);
        if ticked {
            Some(self.step())
        } else {
            None
        }
    }

    /// Whether a tick in direction `d` would stay within the rules,
    /// decided at run time.
    pub fn step_ok_check(&self, d: Direction) -> (r: bool)
        requires
            self.wf(),
        ensures
            r == self.step_ok(d),
    {
        let head_c = self.chain.head_cell();
        let nc = step_cell(head_c, d);
        let mut occ = self.chain.cells_vec();
        if nc == self.apple {
            if self.chain.length() == usize::MAX {
                return false;
            }
            if self.scores.score == u32::MAX {
                return false;
            }
            occ.push(nc);
            let free = free_cells(&occ);
            proof {
                assert(occ@ == self.chain.cells().push(nc));
                if free@.len() > 0 {
                    assert(free@.contains(free@[0]));
                    assert(cell_in_grid(free@[0]) && !occ@.contains(free@[0]));
                    assert(exists|w: Cell|
                        cell_in_grid(w) && !self.chain.cells().push(nc).contains(w)) by {
                        assert(cell_in_grid(free@[0]) && !self.chain.cells().push(nc).contains(
                            free@[0],
                        ));
                    }
                }
                if exists|w: Cell| cell_in_grid(w) && !self.chain.cells().push(nc).contains(w) {
                    let w = choose|w: Cell|
                        cell_in_grid(w) && !self.chain.cells().push(nc).contains(w);
                    assert(free@.contains(w));
                    let j = choose|j: int| 0 <= j < free@.len() && free@[j] == w;
                    assert(free@.len() > 0);
                }
            }
            free.len() > 0
        } else {
            let n = occ.len();
            let ghost rest = self.chain.cells().subrange(1, self.chain.len_spec() as int);
            let mut idx: usize = 1;
            while idx < n
                invariant
                    self.wf(),
                    n == occ@.len(),
                    occ@ == self.chain.cells(),
                    rest == self.chain.cells().subrange(1, self.chain.len_spec() as int),
                    nc == self.target_cell(d),
                    nc != self.apple,
                    1 <= idx <= n,
                    forall|j: int| 1 <= j < idx ==> occ@[j] != nc,
                decreases n - idx,
            {
                if occ[idx] == nc {
                    proof {
                        assert(rest[idx - 1] == nc);
                        assert(rest.contains(nc));
                    }
                    return false;
                }
                idx = idx + 1;
            }
            proof {
                assert(!rest.contains(nc)) by {
                    if rest.contains(nc) {
                        let j = choose|j: int| 0 <= j < rest.len() && rest[j] == nc;
                        assert(occ@[j + 1] == nc);
                    }
                }
            }
            true
        }
    }

    /// Whether this frame's inputs can be fed to `frame` as the rules
    /// demand, decided at run time.
    pub fn frame_ok_check(&self, elapsed_ms: u64, intent: Intent, toggle: bool) -> (r: bool)
        requires
            self.wf(),
            elapsed_ms <= u64::MAX - self.scheduler.period_ms,
        ensures
            r == (self.would_tick(elapsed_ms, toggle) ==> self.step_ok(
                self.resolved_dir(intent),
            )),
    {
        let running = if toggle {
            self.state != GameState::Running
        } else {
            self.state == GameState::Running
        };
        let fires = running && self.scheduler.acc_ms + elapsed_ms >= self.scheduler.period_ms;
        if !fires {
            return true;
        }
        let d = crate::direction::resolve(intent, self.dirs.current, self.dirs.last);
        self.step_ok_check(d)
    }
}

} // verus!
