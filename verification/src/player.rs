//! The tether-constrained dual-ship movement model.  Two coupled ships move
//! horizontally; their separation past a maximum accrues strain, and strain
//! past a threshold — or the ships colliding — ends the run.
//!
//! Positions are milli-units, times milliseconds, strain milli-strain
//! (one unit of strain per second overstretched).

use vstd::prelude::*;

use crate::game_map::GameMap;
use crate::game_time::{FRAME_DELTA_CAP, GAME_DELTA_CAP};
use crate::units::{abs_i64, clamp_i64, spec_abs, spec_clamp, MILLI};

verus! {

/// Strain (in milli-strain) past which the tether breaks.
pub const MAX_SEPARATION_STRAIN: u64 = 5000;

/// Why a run ended.
#[derive(Clone, Copy, Debug, PartialEq, Eq, Structural)]
pub enum DeathReason {
    /// The two ships came closer than the minimum separation.
    ShipsCollided,
    /// The separation strain passed `MAX_SEPARATION_STRAIN`.
    TetherBroke,
    /// A falling obstacle crossed the tether line within strike range of a ship.
    ObstacleStrike,
}

impl DeathReason {
    /// The message shown to the player for this way the run ended.
    pub fn message(&self) -> (r: &'static str)
        ensures
            *self == DeathReason::ShipsCollided ==> r@ == "The ships collided!"@,
            *self == DeathReason::TetherBroke ==> r@ == "The tether broke!"@,
            *self == DeathReason::ObstacleStrike ==> r@ == "A tractor hit an obstacle!"@,
    {
        match self {
            DeathReason::ShipsCollided => "The ships collided!",
            DeathReason::TetherBroke => "The tether broke!",
            DeathReason::ObstacleStrike => "A tractor hit an obstacle!",
        }
    }
}

/// The two coupled ships and their tether.
#[derive(Clone, Copy, Debug)]
pub struct PlayerShip {
    /// Latched once any death condition fires; a dead ship never moves again.
    pub is_dead: bool,
    /// Why the ship died; `Some` exactly when `is_dead`.
    pub death_reason: Option<DeathReason>,
    /// Movement speed in world units per second.
    pub speed: i64,
    /// Maximum tether separation in milli-units.
    pub max_separation: i64,
    /// Accumulated overstretch, in milli-strain.
    pub separation_strain: u64,
    /// X of the left ship, milli-units.
    pub left_x: i64,
    /// X of the right ship, milli-units.
    pub right_x: i64,
}

/// Separation below which the ships count as collided: three quarters of a
/// sprite, in milli-units.
pub open spec fn spec_min_separation(map: GameMap) -> int {
    3 * map.sprite_size * MILLI / 4
}

/// Unclamped displacement for one side in one frame: the ship speed (with
/// its fixed 1.5x handling factor) times the intent times the frame's *real*
/// delta, so player agility is independent of the difficulty ramp.
pub open spec fn spec_move_amount(speed: int, intent: int, real_delta: int) -> int {
    (3 * speed / 2) * intent * real_delta
}

/// Left target after its own move and the per-ship map clamp.
pub open spec fn spec_free_left(s: PlayerShip, li: int, rd: int, map: GameMap) -> int {
    spec_clamp(
        s.left_x + spec_move_amount(s.speed as int, li, rd),
        -map.spec_x_bound(),
        map.spec_x_bound(),
    )
}

/// Right target after its own move and the per-ship map clamp.
pub open spec fn spec_free_right(s: PlayerShip, ri: int, rd: int, map: GameMap) -> int {
    spec_clamp(
        s.right_x + spec_move_amount(s.speed as int, ri, rd),
        -map.spec_x_bound(),
        map.spec_x_bound(),
    )
}

/// Opposite-signed intents: the sides try to move in opposite directions.
pub open spec fn spec_opposite(li: int, ri: int) -> bool {
    (li < 0 && ri > 0) || (li > 0 && ri < 0)
}

/// With the tether taut, the larger-magnitude displacement drags both sides.
pub open spec fn spec_shared_disp(dl: int, dr: int) -> int {
    if spec_abs(dl) >= spec_abs(dr) {
        dl
    } else {
        dr
    }
}

/// Left X after one step of an alive ship: each side is clamped to the map
/// first; if the current separation is at or past the maximum, opposite
/// intents are blocked outright and any other move drags both sides by the
/// shared (larger) displacement, re-clamped; under the maximum both sides
/// move freely.
pub open spec fn spec_post_left_x(s: PlayerShip, li: int, ri: int, rd: int, map: GameMap) -> int {
    let xb = map.spec_x_bound();
    let dl = spec_free_left(s, li, rd, map) - s.left_x;
    let dr = spec_free_right(s, ri, rd, map) - s.right_x;
    if s.right_x - s.left_x >= s.max_separation {
        if spec_opposite(li, ri) {
            s.left_x as int
        } else {
            spec_clamp(s.left_x + spec_shared_disp(dl, dr), -xb, xb)
        }
    } else {
        spec_free_left(s, li, rd, map)
    }
}

/// Right X after one step of an alive ship; see `spec_post_left_x`.
pub open spec fn spec_post_right_x(s: PlayerShip, li: int, ri: int, rd: int, map: GameMap) -> int {
    let xb = map.spec_x_bound();
    let dl = spec_free_left(s, li, rd, map) - s.left_x;
    let dr = spec_free_right(s, ri, rd, map) - s.right_x;
    if s.right_x - s.left_x >= s.max_separation {
        if spec_opposite(li, ri) {
            s.right_x as int
        } else {
            spec_clamp(s.right_x + spec_shared_disp(dl, dr), -xb, xb)
        }
    } else {
        spec_free_right(s, ri, rd, map)
    }
}

/// Strain after one step of an alive ship: it grows by the frame's game
/// delta while the post-move separation is strictly past the maximum, and
/// otherwise decays by three quarters of the delta, floored at zero.
pub open spec fn spec_post_strain(
    s: PlayerShip,
    li: int,
    ri: int,
    rd: int,
    delta: int,
    map: GameMap,
) -> int {
    let dx2 = spec_post_right_x(s, li, ri, rd, map) - spec_post_left_x(s, li, ri, rd, map);
    if dx2 > s.max_separation {
        s.separation_strain + delta
    } else {
        let dec = 3 * delta / 4;
        if s.separation_strain >= dec {
            s.separation_strain - dec
        } else {
            0
        }
    }
}

/// The death newly caused by one step of an alive ship, if any: ships closer
/// than the minimum separation collide, and that takes precedence over the
/// tether breaking on overstrain.
pub open spec fn spec_new_death(
    s: PlayerShip,
    li: int,
    ri: int,
    rd: int,
    delta: int,
    map: GameMap,
) -> Option<DeathReason> {
    if s.is_dead {
        None
    } else if spec_abs(
        spec_post_right_x(s, li, ri, rd, map) - spec_post_left_x(s, li, ri, rd, map),
    ) < spec_min_separation(map) {
        Some(DeathReason::ShipsCollided)
    } else if spec_post_strain(s, li, ri, rd, delta, map) > MAX_SEPARATION_STRAIN {
        Some(DeathReason::TetherBroke)
    } else {
        None
    }
}

/// The whole ship state after one step: a dead ship is untouched; an alive
/// ship moves, accrues or decays strain, and latches any new death.
pub open spec fn spec_step_ship(
    s: PlayerShip,
    li: int,
    ri: int,
    rd: int,
    delta: int,
    map: GameMap,
) -> PlayerShip {
    if s.is_dead {
        s
    } else {
        let nd = spec_new_death(s, li, ri, rd, delta, map);
        PlayerShip {
            left_x: spec_post_left_x(s, li, ri, rd, map) as i64,
            right_x: spec_post_right_x(s, li, ri, rd, map) as i64,
            separation_strain: spec_post_strain(s, li, ri, rd, delta, map) as u64,
            is_dead: nd is Some,
            death_reason: if nd is Some {
                nd
            } else {
                s.death_reason
            },
            ..s
        }
    }
}

/// Clamped displacement for one side, as executable code.
fn move_amount(speed: i64, intent: i8, real_delta: u64) -> (r: i64)
    requires
        0 < speed <= 10_000,
        -1 <= intent <= 1,
        real_delta <= FRAME_DELTA_CAP,
    ensures
        r as int == spec_move_amount(speed as int, intent as int, real_delta as int),
        -54_000_000_000 <= r <= 54_000_000_000,
{
    let eff = 3 * speed / 2;
    proof {
        assert(eff * real_delta <= 15_000 * 3_600_000) by (nonlinear_arith)
            requires
                0 <= eff <= 15_000,
                0 <= real_delta <= 3_600_000,
        ;
    }
    let base = eff * (real_delta as i64);
    if intent == 0 {
        proof {
            assert(spec_move_amount(speed as int, 0, real_delta as int) == 0) by (nonlinear_arith);
        }
        0
    } else if intent > 0 {
        proof {
            assert(spec_move_amount(speed as int, 1, real_delta as int) == eff * real_delta)
                by (nonlinear_arith)
                requires
                    eff == 3 * speed / 2,
            ;
        }
        base
    } else {
        proof {
            assert(spec_move_amount(speed as int, -1, real_delta as int) == -(eff * real_delta))
                by (nonlinear_arith)
                requires
                    eff == 3 * speed / 2,
            ;
        }
        -base
    }
}

impl PlayerShip {
    /// Bounds that keep every step exact and overflow-free, plus the death
    /// latch invariants: the reason is recorded exactly when dead, and an
    /// alive ship's strain has not passed the breaking threshold.
    pub open spec fn wf(self) -> bool {
        &&& 0 < self.speed <= 10_000
        &&& 0 < self.max_separation <= 1_000_000_000
        &&& -1_000_000_000 <= self.left_x <= 1_000_000_000
        &&& -1_000_000_000 <= self.right_x <= 1_000_000_000
        &&& (self.is_dead <==> self.death_reason is Some)
        &&& (!self.is_dead ==> self.separation_strain <= MAX_SEPARATION_STRAIN)
        &&& self.separation_strain <= MAX_SEPARATION_STRAIN + GAME_DELTA_CAP
    }

    /// The ship a new run starts with: both sides half a sprite from the
    /// centre, tether good for five sprites of separation, no strain.
    pub open spec fn spec_spawn(map: GameMap) -> PlayerShip {
        PlayerShip {
            is_dead: false,
            death_reason: None,
            speed: 150,
            max_separation: (5 * map.sprite_size * MILLI) as i64,
            separation_strain: 0,
            left_x: (-(map.sprite_size * MILLI / 2)) as i64,
            right_x: (map.sprite_size * MILLI / 2) as i64,
        }
    }

    /// Spawns the ship for a new run.
    pub fn spawn(map: &GameMap) -> (r: Self)
        requires
            map.wf(),
        ensures
            r == Self::spec_spawn(*map),
            r.wf(),
            -map.spec_x_bound() <= r.left_x <= map.spec_x_bound(),
            -map.spec_x_bound() <= r.right_x <= map.spec_x_bound(),
    {
        proof {
            assert(map.sprite_size * MILLI / 2 <= map.width * map.sprite_size * MILLI / 2)
                by (nonlinear_arith)
                requires
                    1 <= map.width,
                    0 < map.sprite_size,
            ;
        }
        PlayerShip {
            is_dead: false,
            death_reason: None,
            speed: 150,
            max_separation: 5 * map.sprite_size * MILLI,
            separation_strain: 0,
            left_x: -(map.sprite_size * MILLI / 2),
            right_x: map.sprite_size * MILLI / 2,
        }
    }

    /// Latches a death from outside the tether model (an obstacle strike).
    /// Already-dead ships are left untouched, so a reason is recorded once.
    pub fn kill(&mut self, reason: DeathReason)
        ensures
            old(self).is_dead ==> *final(self) == *old(self),
            !old(self).is_dead ==> *final(self) == (PlayerShip {
                is_dead: true,
                death_reason: Some(reason),
                ..*old(self)
            }),
            old(self).wf() ==> final(self).wf(),
    {
        if !self.is_dead {
            self.is_dead = true;
            self.death_reason = Some(reason);
        }
    }

    /// Tether strain as a percentage of the breaking threshold, as the
    /// score line displays it.
    pub fn strain_percent(&self) -> (r: u64)
        requires
            self.wf(),
        ensures
            r == 100 * self.separation_strain / (MAX_SEPARATION_STRAIN as int),
    {
        100 * self.separation_strain / MAX_SEPARATION_STRAIN
    }

    /// How many animation frames the tether sprite cycles through: a calm
    /// tether holds two; a stretched one flickers through more as strain
    /// approaches the breaking threshold (thresholds at 66% and 33%).
    pub fn laser_frame_count(&self) -> (r: u64)
        requires
            self.wf(),
        ensures
            r == self.spec_laser_frame_count(),
    {
        if self.right_x - self.left_x > self.max_separation {
            if self.separation_strain > MAX_SEPARATION_STRAIN * 66 / 100 {
                10
            } else if self.separation_strain > MAX_SEPARATION_STRAIN * 33 / 100 {
                5
            } else {
                3
            }
        } else {
            2
        }
    }

    /// The flicker rule `laser_frame_count` computes.
    pub open spec fn spec_laser_frame_count(self) -> u64 {
        if self.right_x - self.left_x > self.max_separation {
            if self.separation_strain > MAX_SEPARATION_STRAIN * 66 / 100 {
                10
            } else if self.separation_strain > MAX_SEPARATION_STRAIN * 33 / 100 {
                5
            } else {
                3
            }
        } else {
            2
        }
    }

    /// X of the tether sprite's midpoint between the ships, milli-units.
    pub fn laser_midpoint_x(&self) -> (r: i64)
        requires
            self.wf(),
            self.left_x <= self.right_x,
        ensures
            r as int == self.left_x + (self.right_x - self.left_x) / 2,
    {
        self.left_x + (self.right_x - self.left_x) / 2
    }

    /// One frame of the coupled movement model.
    ///
    /// A dead ship is a no-op (the state freezes on death).  Otherwise each
    /// side's target is clamped to the map before the coupling rule runs, so
    /// a ship pinned at the edge cannot block its partner; then strain
    /// accrues or decays from the post-move separation; then the death
    /// checks run, ship collision before tether break.  Returns the death
    /// this step caused, if any.
    pub fn step(
        &mut self,
        left_intent: i8,
        right_intent: i8,
        delta: u64,
        real_delta: u64,
        map: &GameMap,
    ) -> (died: Option<DeathReason>)
        requires
            old(self).wf(),
            map.wf(),
            -1 <= left_intent <= 1,
            -1 <= right_intent <= 1,
            delta <= GAME_DELTA_CAP,
            real_delta <= FRAME_DELTA_CAP,
        ensures
            final(self).wf(),
            *final(self) == spec_step_ship(
                *old(self),
                left_intent as int,
                right_intent as int,
                real_delta as int,
                delta as int,
                *map,
            ),
            died == spec_new_death(
                *old(self),
                left_intent as int,
                right_intent as int,
                real_delta as int,
                delta as int,
                *map,
            ),
            old(self).is_dead ==> *final(self) == *old(self),
    {
        if self.is_dead {
            return None;
        }
        let xb = map.get_x_bound();
        let ml = move_amount(self.speed, left_intent, real_delta);
        let mr = move_amount(self.speed, right_intent, real_delta);
        let target_l = clamp_i64(self.left_x + ml, -xb, xb);
        let target_r = clamp_i64(self.right_x + mr, -xb, xb);
        let dl = target_l - self.left_x;
        let dr = target_r - self.right_x;
        let dx = self.right_x - self.left_x;
        if dx >= self.max_separation {
            let opposite = (left_intent < 0 && right_intent > 0) || (left_intent > 0
                && right_intent < 0);
            if !opposite {
                let shared = if abs_i64(dl) >= abs_i64(dr) {
                    dl
                } else {
                    dr
                };
                self.left_x = clamp_i64(self.left_x + shared, -xb, xb);
                self.right_x = clamp_i64(self.right_x + shared, -xb, xb);
            }
        } else {
            self.left_x = target_l;
            self.right_x = target_r;
        }
        let dx2 = self.right_x - self.left_x;
        if dx2 > self.max_separation {
            self.separation_strain = self.separation_strain + delta;
        } else {
            let dec = 3 * delta / 4;
            self.separation_strain = if self.separation_strain >= dec {
                self.separation_strain - dec
            } else {
                0
            };
        }
        let min_sep = 3 * map.sprite_size * MILLI / 4;
        let died: Option<DeathReason> = if abs_i64(dx2) < min_sep {
            Some(DeathReason::ShipsCollided)
        } else if self.separation_strain > MAX_SEPARATION_STRAIN {
            Some(DeathReason::TetherBroke)
        } else {
            None
        };
        match died {
            Some(reason) => {
                self.is_dead = true;
                self.death_reason = Some(reason);
            },
            None => {},
        }
        died
    }
}

/// Coupling law: with the tether at (or past) its maximum separation,
/// opposite-signed intents on the two sides are blocked outright — both
/// positions are unchanged by the step.
pub proof fn lemma_coupling_opposite_blocked(
    s: PlayerShip,
    li: int,
    ri: int,
    rd: int,
    map: GameMap,
)
    requires
        s.right_x - s.left_x >= s.max_separation,
        spec_opposite(li, ri),
    ensures
        spec_post_left_x(s, li, ri, rd, map) == s.left_x,
        spec_post_right_x(s, li, ri, rd, map) == s.right_x,
{
}

/// Coupling law: at maximum separation with only the left side active
/// (intents +1 and 0), both sides shift by the left side's clamped
/// displacement — the right ship is dragged along.  Stated away from the far
/// map edge, where the dragged ship would itself be clamped.
pub proof fn lemma_coupling_drag_along(s: PlayerShip, rd: int, map: GameMap)
    requires
        s.wf(),
        map.wf(),
        rd >= 0,
        s.right_x - s.left_x == s.max_separation,
        -map.spec_x_bound() <= s.left_x <= map.spec_x_bound(),
        -map.spec_x_bound() <= s.right_x,
        s.right_x + (spec_free_left(s, 1, rd, map) - s.left_x) <= map.spec_x_bound(),
    ensures
        spec_post_left_x(s, 1, 0, rd, map) == spec_free_left(s, 1, rd, map),
        spec_post_left_x(s, 1, 0, rd, map) - s.left_x == spec_post_right_x(s, 1, 0, rd, map)
            - s.right_x,
{
    let xb = map.spec_x_bound();
    assert(spec_move_amount(s.speed as int, 1, rd) >= 0) by (nonlinear_arith)
        requires
            s.speed > 0,
            rd >= 0,
    ;
    assert(spec_move_amount(s.speed as int, 0, rd) == 0) by (nonlinear_arith);
    let dl = spec_free_left(s, 1, rd, map) - s.left_x;
    assert(dl >= 0);
    assert(spec_free_right(s, 0, rd, map) == s.right_x);
}

/// Sum of a sequence of frame deltas.
pub open spec fn spec_sum_deltas(deltas: Seq<u64>) -> int
    decreases deltas.len(),
{
    if deltas.len() == 0 {
        0
    } else {
        deltas[0] + spec_sum_deltas(deltas.drop_first())
    }
}

/// The ship after a whole sequence of frames with fixed intents.
pub open spec fn spec_run(
    s: PlayerShip,
    deltas: Seq<u64>,
    li: int,
    ri: int,
    rd: int,
    map: GameMap,
) -> PlayerShip
    decreases deltas.len(),
{
    if deltas.len() == 0 {
        s
    } else {
        spec_run(
            spec_step_ship(s, li, ri, rd, deltas[0] as int, map),
            deltas.drop_first(),
            li,
            ri,
            rd,
            map,
        )
    }
}

proof fn lemma_sum_deltas_nonneg(deltas: Seq<u64>)
    ensures
        spec_sum_deltas(deltas) >= 0,
    decreases deltas.len(),
{
    if deltas.len() > 0 {
        lemma_sum_deltas_nonneg(deltas.drop_first());
    }
}

/// Strain law, accrual side: while the ships sit strictly past the maximum
/// separation and neither side has a movement intent, strain grows by
/// exactly the total game time of the frames (rate one), positions do not
/// move, and the run stays alive as long as the total stays at or under the
/// breaking threshold.
pub proof fn lemma_strain_accrues_while_stretched(
    s: PlayerShip,
    deltas: Seq<u64>,
    rd: int,
    map: GameMap,
)
    requires
        s.wf(),
        map.wf(),
        !s.is_dead,
        -map.spec_x_bound() <= s.left_x <= map.spec_x_bound(),
        -map.spec_x_bound() <= s.right_x <= map.spec_x_bound(),
        s.right_x - s.left_x > s.max_separation,
        s.max_separation >= spec_min_separation(map),
        s.separation_strain + spec_sum_deltas(deltas) <= MAX_SEPARATION_STRAIN,
        forall|i: int| 0 <= i < deltas.len() ==> deltas[i] <= GAME_DELTA_CAP,
    ensures
        !spec_run(s, deltas, 0, 0, rd, map).is_dead,
        spec_run(s, deltas, 0, 0, rd, map).left_x == s.left_x,
        spec_run(s, deltas, 0, 0, rd, map).right_x == s.right_x,
        spec_run(s, deltas, 0, 0, rd, map).separation_strain == s.separation_strain
            + spec_sum_deltas(deltas),
    decreases deltas.len(),
{
    if deltas.len() > 0 {
        let d0 = deltas[0] as int;
        assert(spec_move_amount(s.speed as int, 0, rd) == 0) by (nonlinear_arith);
        assert(spec_free_left(s, 0, rd, map) == s.left_x);
        assert(spec_free_right(s, 0, rd, map) == s.right_x);
        let s1 = spec_step_ship(s, 0, 0, rd, d0, map);
        lemma_sum_deltas_nonneg(deltas.drop_first());
        assert(s1.left_x == s.left_x && s1.right_x == s.right_x);
        assert(s1.separation_strain == s.separation_strain + d0);
        assert(!s1.is_dead);
        lemma_strain_accrues_while_stretched(s1, deltas.drop_first(), rd, map);
    }
}

/// Strain law, decay side: once the post-move separation is back at or under
/// the maximum, strain falls by three quarters of the game delta, floored at
/// zero — it never goes negative and never grows.
pub proof fn lemma_strain_decays_within_limit(
    s: PlayerShip,
    li: int,
    ri: int,
    rd: int,
    delta: int,
    map: GameMap,
)
    requires
        delta >= 0,
        spec_post_right_x(s, li, ri, rd, map) - spec_post_left_x(s, li, ri, rd, map)
            <= s.max_separation,
    ensures
        spec_post_strain(s, li, ri, rd, delta, map) == (if s.separation_strain >= 3 * delta / 4 {
            s.separation_strain - 3 * delta / 4
        } else {
            0
        }),
        0 <= spec_post_strain(s, li, ri, rd, delta, map) <= s.separation_strain,
{
}

} // verus!
