//! The game clock: translates real frame time into simulated ("game") time.
//! The speed multiplier grows linearly with elapsed game time, so the game
//! ramps up the longer a run lasts; a fixed low-frequency tick, paced by real
//! time, drives sprite animation independently of that ramp.
//!
//! Times are milliseconds; the multiplier is in thousandths (1000 = 1x).

use vstd::prelude::*;

use vstd::arithmetic::div_mod::{lemma_div_denominator, lemma_div_is_ordered, lemma_div_multiples_vanish};

verus! {

/// Game milliseconds for the effective speed to double: the multiplier is
/// `1 + elapsed / GAME_TIME_DOUBLING_TIME`.
pub const GAME_TIME_DOUBLING_TIME: u64 = 60_000;

/// The multiplier value meaning "real speed" (1x), in thousandths.
pub const MULTIPLIER_ONE: u64 = 1000;

/// Game milliseconds per one-thousandth of multiplier growth
/// (`GAME_TIME_DOUBLING_TIME / MULTIPLIER_ONE`).
pub const MULTIPLIER_STEP: u64 = 60;

/// Real milliseconds between fixed animation ticks.
pub const FIXED_UPDATE_PERIOD: u64 = 100;

/// Real milliseconds before the first fixed animation tick of a run.
pub const FIRST_FIXED_UPDATE: u64 = 500;

/// Cap on accumulated game and real time: about thirty years of play.
/// Elapsed time saturates here so that every later frame still has exact,
/// overflow-free arithmetic.
pub const ELAPSED_CAP: u64 = 1_000_000_000_000;

/// Largest multiplier the cap allows: `MULTIPLIER_ONE + ELAPSED_CAP / MULTIPLIER_STEP`.
pub const MULTIPLIER_CAP: u64 = 16_666_667_666;

/// Largest real frame delta a caller may pass: one hour.
pub const FRAME_DELTA_CAP: u64 = 3_600_000;

/// Upper bound on a single frame's game delta, implied by the caps above;
/// the rest of the simulation sizes its arithmetic to this.
pub const GAME_DELTA_CAP: u64 = 100_000_000_000_000;

/// Wall-clock-to-game-time translator.
#[derive(Clone, Copy, Debug, PartialEq, Eq, Structural)]
pub struct GameTime {
    /// Speed multiplier in thousandths; 1000 means real speed.
    pub multiplier: u64,
    /// Total simulated milliseconds.
    pub elapsed: u64,
    /// Simulated milliseconds of the last frame (real delta x multiplier).
    pub delta: u64,
    /// Total real milliseconds of the run.
    pub real_elapsed: u64,
    /// Real-time deadline for the next fixed animation tick.
    pub next_fixed_update: u64,
    /// True on frames where the fixed animation tick fires.
    pub fixed_update: bool,
}

impl GameTime {
    /// The multiplier is always the exact linear function of elapsed game
    /// time, and all accumulators stay under their caps.
    pub open spec fn wf(self) -> bool {
        &&& self.elapsed <= ELAPSED_CAP
        &&& self.multiplier == MULTIPLIER_ONE + self.elapsed / MULTIPLIER_STEP
        &&& self.delta <= GAME_DELTA_CAP
        &&& self.real_elapsed <= ELAPSED_CAP
        &&& self.next_fixed_update <= ELAPSED_CAP + FIXED_UPDATE_PERIOD
    }

    /// The state a new run starts from.
    pub open spec fn spec_reset() -> GameTime {
        GameTime {
            multiplier: MULTIPLIER_ONE,
            elapsed: 0,
            delta: 0,
            real_elapsed: 0,
            next_fixed_update: FIRST_FIXED_UPDATE,
            fixed_update: false,
        }
    }

    /// The clock after one `advance` by `real_delta` real milliseconds.
    pub open spec fn spec_advance(self, real_delta: int) -> GameTime {
        let d = self.multiplier * real_delta / (MULTIPLIER_ONE as int);
        let e = if self.elapsed + d <= ELAPSED_CAP {
            self.elapsed + d
        } else {
            ELAPSED_CAP as int
        };
        let re = if self.real_elapsed + real_delta <= ELAPSED_CAP {
            self.real_elapsed + real_delta
        } else {
            ELAPSED_CAP as int
        };
        let fires = re > self.next_fixed_update;
        GameTime {
            multiplier: (MULTIPLIER_ONE + e / (MULTIPLIER_STEP as int)) as u64,
            elapsed: e as u64,
            delta: d as u64,
            real_elapsed: re as u64,
            next_fixed_update: if fires {
                (re + FIXED_UPDATE_PERIOD) as u64
            } else {
                self.next_fixed_update
            },
            fixed_update: fires,
        }
    }

    /// A fresh clock, identical to the reset state.
    pub fn new() -> (r: Self)
        ensures
            r == Self::spec_reset(),
            r.wf(),
    {
        GameTime {
            multiplier: MULTIPLIER_ONE,
            elapsed: 0,
            delta: 0,
            real_elapsed: 0,
            next_fixed_update: FIRST_FIXED_UPDATE,
            fixed_update: false,
        }
    }

    /// Resets the game timer to start a new game.
    pub fn reset(&mut self)
        ensures
            *final(self) == Self::spec_reset(),
            final(self).wf(),
    {
        self.multiplier = MULTIPLIER_ONE;
        self.elapsed = 0;
        self.delta = 0;
        self.real_elapsed = 0;
        self.next_fixed_update = FIRST_FIXED_UPDATE;
        self.fixed_update = false;
    }

    /// Advances the clock by one frame of `real_delta` real milliseconds:
    /// the frame's game delta is the real delta scaled by the current
    /// multiplier, elapsed game time grows by that delta (saturating at the
    /// cap), and the multiplier is recomputed from the new elapsed time, so
    /// it never decreases.  The fixed animation tick fires whenever total
    /// real time passes the next tick deadline.
    ///
    /// The multiplier depends on elapsed game time alone, so replaying the
    /// same sequence of real deltas reproduces the same clock states.
    pub fn advance(&mut self, real_delta: u64)
        requires
            old(self).wf(),
            real_delta <= FRAME_DELTA_CAP,
        ensures
            *final(self) == old(self).spec_advance(real_delta as int),
            final(self).wf(),
            final(self).multiplier >= old(self).multiplier,
            final(self).multiplier == MULTIPLIER_ONE + final(self).elapsed / MULTIPLIER_STEP,
            final(self).delta <= GAME_DELTA_CAP,
    {
        proof {
            lemma_div_is_ordered(
                old(self).elapsed as int,
                ELAPSED_CAP as int,
                MULTIPLIER_STEP as int,
            );
            assert(self.multiplier <= MULTIPLIER_CAP);
            assert(self.multiplier * real_delta <= MULTIPLIER_CAP * FRAME_DELTA_CAP)
                by (nonlinear_arith)
                requires
                    self.multiplier <= MULTIPLIER_CAP,
                    real_delta <= FRAME_DELTA_CAP,
            ;
        }
        let d = self.multiplier * real_delta / MULTIPLIER_ONE;
        proof {
            lemma_div_is_ordered(
                (old(self).multiplier * real_delta) as int,
                (MULTIPLIER_CAP * FRAME_DELTA_CAP) as int,
                MULTIPLIER_ONE as int,
            );
        }
        self.delta = d;
        self.elapsed = if self.elapsed + d <= ELAPSED_CAP {
            self.elapsed + d
        } else {
            ELAPSED_CAP
        };
        proof {
            lemma_div_is_ordered(
                old(self).elapsed as int,
                self.elapsed as int,
                MULTIPLIER_STEP as int,
            );
            lemma_div_is_ordered(self.elapsed as int, ELAPSED_CAP as int, MULTIPLIER_STEP as int);
        }
        self.multiplier = MULTIPLIER_ONE + self.elapsed / MULTIPLIER_STEP;
        self.real_elapsed = if self.real_elapsed + real_delta <= ELAPSED_CAP {
            self.real_elapsed + real_delta
        } else {
            ELAPSED_CAP
        };
        if self.real_elapsed > self.next_fixed_update {
            self.next_fixed_update = self.real_elapsed + FIXED_UPDATE_PERIOD;
            self.fixed_update = true;
        } else {
            self.fixed_update = false;
        }
    }
}

/// The ramp formula, in the doubling-period form: the multiplier is exactly
/// one (in thousandths) plus elapsed game time over the doubling period —
/// the per-step form `elapsed / MULTIPLIER_STEP` the clock maintains
/// computes the same value.
pub proof fn lemma_multiplier_formula(t: GameTime)
    requires
        t.wf(),
    ensures
        t.multiplier == MULTIPLIER_ONE + t.elapsed * MULTIPLIER_ONE / (GAME_TIME_DOUBLING_TIME as int),
{
    let e = t.elapsed as int;
    lemma_div_multiples_vanish(e, MULTIPLIER_ONE as int);
    lemma_div_denominator(e * MULTIPLIER_ONE, MULTIPLIER_ONE as int, MULTIPLIER_STEP as int);
    assert(e * MULTIPLIER_ONE == MULTIPLIER_ONE * e) by (nonlinear_arith);
    assert(e * MULTIPLIER_ONE / (MULTIPLIER_ONE as int) == e);
    assert(e * MULTIPLIER_ONE / ((MULTIPLIER_ONE * MULTIPLIER_STEP) as int) == e
        / (MULTIPLIER_STEP as int));
}

} // verus!
