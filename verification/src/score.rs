//! The score: game time accrues points while the ship lives, and each
//! captured obstacle pays a fixed bonus exactly once.
//!
//! Scores are milli-points, so one point per simulated second of survival.

use vstd::prelude::*;

use crate::game_time::GAME_DELTA_CAP;
use crate::obstacles::{
    lemma_capture_paid_once, spec_captured_count, spec_clear_captured, ObstacleField,
    MAX_OBSTACLES,
};
use crate::units::{cap_add_u64, spec_cap_add};

verus! {

/// Milli-points paid for one captured obstacle (ten points).
pub const CAPTURE_BONUS: u64 = 10_000;

/// The running score.
#[derive(Clone, Copy, Debug, PartialEq, Eq, Structural)]
pub struct Score {
    /// Accumulated milli-points; saturates at `u64::MAX`.
    pub current: u64,
    /// Per-millisecond score rate; one in the stock game.
    pub multiplier: u64,
}

impl Score {
    /// A small rate keeps the per-frame arithmetic exact.
    pub open spec fn wf(self) -> bool {
        self.multiplier <= 1000
    }

    /// The score after one frame of `delta` game milliseconds.
    pub open spec fn spec_update(self, delta: int, ship_is_dead: bool) -> Score {
        if ship_is_dead {
            self
        } else {
            Score { current: spec_cap_add(self.current as int, delta * self.multiplier) as u64, ..self }
        }
    }

    /// The score after paying the bonus for `count` captured obstacles.
    pub open spec fn spec_bonus(self, count: int) -> Score {
        Score { current: spec_cap_add(self.current as int, count * CAPTURE_BONUS) as u64, ..self }
    }

    /// Whole points for display: the floor of the milli-point total.
    pub fn points(&self) -> (r: u64)
        ensures
            r == self.current / 1000u64,
    {
        self.current / 1000
    }

    /// Increments the score by the frame's game time (times the rate) while
    /// the ship lives; a dead ship scores nothing.
    pub fn update(&mut self, delta: u64, ship_is_dead: bool)
        requires
            old(self).wf(),
            delta <= GAME_DELTA_CAP,
        ensures
            final(self).wf(),
            *final(self) == old(self).spec_update(delta as int, ship_is_dead),
            ship_is_dead ==> *final(self) == *old(self),
    {
        if ship_is_dead {
            return ;
        }
        proof {
            assert(delta * self.multiplier <= GAME_DELTA_CAP * 1000) by (nonlinear_arith)
                requires
                    delta <= GAME_DELTA_CAP,
                    self.multiplier <= 1000,
            ;
        }
        self.current = cap_add_u64(self.current, delta * self.multiplier);
    }
}

impl Default for Score {
    /// A zero score at the stock rate of one point per second.
    fn default() -> (r: Self)
        ensures
            r == (Score { current: 0, multiplier: 1 }),
            r.wf(),
    {
        Score { current: 0, multiplier: 1 }
    }
}

/// Pays the capture bonus for every obstacle marked captured and clears the
/// marks, so each capture is paid exactly once; a dead ship's marks are left
/// alone (the run is over and nothing scores).
pub fn score_captured_obstacles(field: &mut ObstacleField, score: &mut Score, ship_is_dead: bool)
    requires
        old(field).wf(),
        old(score).wf(),
    ensures
        final(field).wf(),
        final(score).wf(),
        ship_is_dead ==> *final(field) == *old(field) && *final(score) == *old(score),
        !ship_is_dead ==> {
            &&& final(field).obstacles@ == spec_clear_captured(old(field).obstacles@)
            &&& final(field).spawn_timer == old(field).spawn_timer
            &&& final(field).patterns == old(field).patterns
            &&& *final(score) == old(score).spec_bonus(spec_captured_count(old(field).obstacles@))
        },
{
    if ship_is_dead {
        return ;
    }
    let count = field.take_captured();
    proof {
        lemma_captured_count_le_len(old(field).obstacles@);
        assert(count * CAPTURE_BONUS <= MAX_OBSTACLES * CAPTURE_BONUS) by (nonlinear_arith)
            requires
                0 <= count <= MAX_OBSTACLES,
        ;
    }
    score.current = cap_add_u64(score.current, count * CAPTURE_BONUS);
}

/// The captured count never exceeds the number of obstacles.
proof fn lemma_captured_count_le_len(s: Seq<crate::obstacles::Obstacle>)
    ensures
        0 <= spec_captured_count(s) <= s.len(),
    decreases s.len(),
{
    if s.len() > 0 {
        lemma_captured_count_le_len(s.drop_last());
    }
}

/// Capture exactly-once, at the score: paying the bonuses consumes the
/// marks, so paying again immediately afterwards changes neither the field
/// nor the score, however many frames pass before the obstacles are cleaned
/// up.
pub proof fn lemma_capture_bonus_once(s: Seq<crate::obstacles::Obstacle>, score: Score)
    ensures
        spec_captured_count(spec_clear_captured(s)) == 0,
        spec_clear_captured(spec_clear_captured(s)) == spec_clear_captured(s),
        score.spec_bonus(spec_captured_count(spec_clear_captured(s))) == score,
{
    lemma_capture_paid_once(s);
}

} // verus!
