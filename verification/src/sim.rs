//! The simulation driver: the Loading → Menu → Playing → GameOver state
//! machine and the fixed per-frame order within Playing — clock, tether
//! step, obstacle spawn, obstacle advance, obstacle cleanup, score — with
//! the frame's output events.
//!
//! Randomness (spawn column and pattern pick) enters only through
//! `Game::update`; `Game::frame_seeded` takes the two draws as arguments and
//! is fully deterministic, so a frame is replayable and testable.

use vstd::prelude::*;

use crate::game_map::GameMap;
use crate::game_time::{GameTime, FRAME_DELTA_CAP};
use crate::obstacles::{
    spec_advance_captures, spec_advance_obstacles, spec_captured_count, spec_cleanup_y,
    spec_clear_captured, spec_first_hit, spec_kept, spec_obstacles_after_spawn,
    spec_spawn_timer_after, spec_stock_catalog, spec_strike_range, Obstacle, ObstacleField,
    OBSTACLE_FALL_SPEED, SPAWN_PERIOD,
};
use crate::player::{spec_step_ship, DeathReason, PlayerShip};
use crate::rng::random_in_range;
use crate::score::{score_captured_obstacles, Score};

verus! {

/// The application states.
#[derive(Clone, Copy, Debug, PartialEq, Eq, Structural)]
pub enum GameState {
    /// Waiting for the shell to report the assets loaded.
    Loading,
    /// The menu; a start request begins a run.
    Menu,
    /// A live run.
    Playing,
    /// The run ended; a restart request returns to the menu.
    GameOver,
}

/// What one frame reports to the shell (UI and audio).
#[derive(Clone, Copy, Debug, PartialEq, Eq, Structural)]
pub enum GameEvent {
    /// An obstacle passed through the gap; play the collect sound.
    ObstacleCaptured,
    /// The run just ended, and why.
    ShipDied(DeathReason),
    /// The score changed; update the display (milli-points).
    ScoreChanged(u64),
}

/// Per-frame player input, as the shell reads it.
#[derive(Clone, Copy, Debug)]
pub struct Actions {
    /// Left ship intent: -1, 0 or +1.
    pub player_left_move: i8,
    /// Right ship intent: -1, 0 or +1.
    pub player_right_move: i8,
    /// Edge-triggered start/restart request.
    pub restart_requested: bool,
}

impl Actions {
    /// The frame's actions from the pressed keys: each side's two steering
    /// keys cancel out when held together, and the start/restart request
    /// mirrors the space key.
    pub fn from_keys(key_a: bool, key_d: bool, key_j: bool, key_l: bool, key_space: bool) -> (r:
        Actions)
        ensures
            r.player_left_move as int == (if key_d {
                1int
            } else {
                0int
            }) - (if key_a {
                1int
            } else {
                0int
            }),
            r.player_right_move as int == (if key_l {
                1int
            } else {
                0int
            }) - (if key_j {
                1int
            } else {
                0int
            }),
            r.restart_requested == key_space,
            -1 <= r.player_left_move <= 1,
            -1 <= r.player_right_move <= 1,
    {
        let mut left: i8 = 0;
        let mut right: i8 = 0;
        if key_a {
            left = left - 1;
        }
        if key_d {
            left = left + 1;
        }
        if key_j {
            right = right - 1;
        }
        if key_l {
            right = right + 1;
        }
        Actions { player_left_move: left, player_right_move: right, restart_requested: key_space }
    }
}

impl Default for Actions {
    /// No movement, no request.
    fn default() -> (r: Self)
        ensures
            r == (Actions { player_left_move: 0, player_right_move: 0, restart_requested: false }),
    {
        Actions { player_left_move: 0, player_right_move: 0, restart_requested: false }
    }
}

/// The whole simulation: map, clock, ships, obstacles, score, and the
/// application state.
pub struct Game {
    pub state: GameState,
    pub map: GameMap,
    pub time: GameTime,
    pub ship: PlayerShip,
    pub field: ObstacleField,
    pub score: Score,
}

/// The events one frame emits: one `ObstacleCaptured` per capture, then the
/// death if the run just ended, then the new score if it changed.
pub open spec fn spec_frame_events(
    ncap: int,
    new_death: Option<DeathReason>,
    score_changed: bool,
    new_score: u64,
) -> Seq<GameEvent> {
    let caps = Seq::new(ncap as nat, |i: int| GameEvent::ObstacleCaptured);
    let deaths = match new_death {
        Some(r) => seq![GameEvent::ShipDied(r)],
        None => Seq::<GameEvent>::empty(),
    };
    let scores = if score_changed {
        seq![GameEvent::ScoreChanged(new_score)]
    } else {
        Seq::<GameEvent>::empty()
    };
    caps + deaths + scores
}

/// One Playing frame, as a relation between the state before, the state
/// after, and the emitted events, given the frame's inputs and the two
/// random draws.  The steps run in the fixed order: clock advance, tether
/// step, obstacle spawn (skipped once dead), obstacle advance (skipped once
/// dead; a strike kills the ship), obstacle cleanup, score update and
/// capture bonus (both skipped once dead).  The frame ends in GameOver
/// exactly when the ship is dead.
pub open spec fn spec_frame_rel(
    pre: Game,
    post: Game,
    events: Seq<GameEvent>,
    real_delta: int,
    li: int,
    ri: int,
    col: int,
    pick: int,
) -> bool {
    let t1 = pre.time.spec_advance(real_delta);
    let delta = t1.delta as int;
    let ship1 = spec_step_ship(pre.ship, li, ri, real_delta, delta, pre.map);
    let fires = pre.field.spawn_timer + delta >= SPAWN_PERIOD;
    let timer1 = if ship1.is_dead {
        pre.field.spawn_timer as int
    } else {
        spec_spawn_timer_after(pre.field.spawn_timer as int, delta)
    };
    let obs1 = if ship1.is_dead {
        pre.field.obstacles@
    } else {
        spec_obstacles_after_spawn(
            pre.field.obstacles@,
            pre.field.patterns.patterns@,
            fires,
            pre.score.current as int,
            col,
            pick,
            pre.map,
        )
    };
    let dy = OBSTACLE_FALL_SPEED * delta;
    let line = pre.map.spec_bottom_y();
    let range = spec_strike_range(pre.map);
    let lx = ship1.left_x as int;
    let rx = ship1.right_x as int;
    let struck = !ship1.is_dead && spec_first_hit(obs1, dy, line, lx, rx, range) < obs1.len();
    let ncap = if ship1.is_dead {
        0int
    } else {
        spec_advance_captures(obs1, dy, line, lx, rx, range)
    };
    let obs2 = if ship1.is_dead {
        obs1
    } else {
        spec_advance_obstacles(obs1, dy, line, lx, rx, range)
    };
    let ship2 = if struck {
        PlayerShip { is_dead: true, death_reason: Some(DeathReason::ObstacleStrike), ..ship1 }
    } else {
        ship1
    };
    let obs3 = spec_kept(obs2, spec_cleanup_y(pre.map));
    let sc1 = pre.score.spec_update(delta, ship2.is_dead);
    let obs4 = if ship2.is_dead {
        obs3
    } else {
        spec_clear_captured(obs3)
    };
    let sc2 = if ship2.is_dead {
        sc1
    } else {
        sc1.spec_bonus(spec_captured_count(obs3))
    };
    let new_death = if !pre.ship.is_dead && ship2.is_dead {
        ship2.death_reason
    } else {
        None
    };
    &&& post.map == pre.map
    &&& post.state == (if ship2.is_dead {
        GameState::GameOver
    } else {
        GameState::Playing
    })
    &&& post.time == t1
    &&& post.ship == ship2
    &&& post.field.spawn_timer == timer1
    &&& post.field.patterns == pre.field.patterns
    &&& post.field.obstacles@ == obs4
    &&& post.score == sc2
    &&& events == spec_frame_events(ncap, new_death, sc2.current != pre.score.current, sc2.current)
}

/// A freshly started run over the same map: everything reset, state Playing.
pub open spec fn spec_started(pre: Game, post: Game) -> bool {
    &&& post.map == pre.map
    &&& post.state == GameState::Playing
    &&& post.time == GameTime::spec_reset()
    &&& post.ship == PlayerShip::spec_spawn(pre.map)
    &&& post.field.obstacles@ == Seq::<Obstacle>::empty()
    &&& post.field.spawn_timer == 0
    &&& post.field.patterns.wf()
    &&& spec_stock_catalog(post.field.patterns.patterns@)
    &&& post.score == (Score { current: 0, multiplier: 1 })
}

impl Game {
    /// Component well-formedness, plus the ships standing inside the map.
    pub open spec fn wf(self) -> bool {
        &&& self.map.wf()
        &&& self.time.wf()
        &&& self.ship.wf()
        &&& self.field.wf()
        &&& self.score.wf()
        &&& -self.map.spec_x_bound() <= self.ship.left_x <= self.map.spec_x_bound()
        &&& -self.map.spec_x_bound() <= self.ship.right_x <= self.map.spec_x_bound()
    }

    /// A fresh game in the Loading state.
    pub fn new(map: GameMap) -> (r: Game)
        requires
            map.wf(),
        ensures
            r.wf(),
            r.state == GameState::Loading,
            r.map == map,
            r.time == GameTime::spec_reset(),
            r.ship == PlayerShip::spec_spawn(map),
            r.field.obstacles@ == Seq::<Obstacle>::empty(),
            r.field.spawn_timer == 0,
            spec_stock_catalog(r.field.patterns.patterns@),
            r.score == (Score { current: 0, multiplier: 1 }),
    {
        let r = Game {
            state: GameState::Loading,
            map,
            time: GameTime::new(),
            ship: PlayerShip::spawn(&map),
            field: ObstacleField::new(),
            score: Score::default(),
        };
        proof {
            assert(r.field.obstacles@ =~= Seq::<Obstacle>::empty());
        }
        r
    }

    /// The shell reports all assets loaded: Loading moves to Menu; any
    /// other state is untouched.
    pub fn assets_loaded(&mut self)
        ensures
            old(self).state == GameState::Loading ==> *final(self) == (Game {
                state: GameState::Menu,
                ..*old(self)
            }),
            old(self).state != GameState::Loading ==> *final(self) == *old(self),
            old(self).wf() ==> final(self).wf(),
    {
        match self.state {
            GameState::Loading => {
                self.state = GameState::Menu;
            },
            _ => {},
        }
    }

    /// Starts a run: resets the clock, ships, obstacles and score, and
    /// enters Playing.
    pub fn start(&mut self)
        requires
            old(self).map.wf(),
        ensures
            final(self).wf(),
            spec_started(*old(self), *final(self)),
    {
        self.state = GameState::Playing;
        self.time.reset();
        self.ship = PlayerShip::spawn(&self.map);
        self.field = ObstacleField::new();
        self.score = Score::default();
        proof {
            assert(self.field.obstacles@ =~= Seq::<Obstacle>::empty());
        }
    }

    /// One Playing frame with the two random draws injected: fully
    /// deterministic, per `spec_frame_rel`.
    pub fn frame_seeded(
        &mut self,
        real_delta: u64,
        left_intent: i8,
        right_intent: i8,
        spawn_col: i64,
        pattern_pick: u64,
    ) -> (events: Vec<GameEvent>)
        requires
            old(self).wf(),
            old(self).state == GameState::Playing,
            real_delta <= FRAME_DELTA_CAP,
            -1 <= left_intent <= 1,
            -1 <= right_intent <= 1,
            -500 <= spawn_col <= 500,
        ensures
            final(self).wf(),
            spec_frame_rel(
                *old(self),
                *final(self),
                events@,
                real_delta as int,
                left_intent as int,
                right_intent as int,
                spawn_col as int,
                pattern_pick as int,
            ),
    {
        let score_before = self.score.current;
        self.time.advance(real_delta);
        let delta = self.time.delta;
        let died_step = self.ship.step(left_intent, right_intent, delta, real_delta, &self.map);
        self.field.spawn_tick(
            delta,
            self.ship.is_dead,
            self.score.current,
            &self.map,
            spawn_col,
            pattern_pick,
        );
        let advanced = self.field.advance(
            delta,
            self.ship.is_dead,
            self.ship.left_x,
            self.ship.right_x,
            &self.map,
        );
        let struck = advanced.0;
        let caps = advanced.1;
        let mut new_death: Option<DeathReason> = died_step;
        if struck {
            self.ship.kill(DeathReason::ObstacleStrike);
            new_death = Some(DeathReason::ObstacleStrike);
        }
        self.field.cleanup(&self.map);
        self.score.update(delta, self.ship.is_dead);
        score_captured_obstacles(&mut self.field, &mut self.score, self.ship.is_dead);
        if self.ship.is_dead {
            self.state = GameState::GameOver;
        }
        let mut events: Vec<GameEvent> = Vec::new();
        let mut i: u64 = 0;
        while i < caps
            invariant
                0 <= i <= caps,
                events@ =~= Seq::new(i as nat, |k: int| GameEvent::ObstacleCaptured),
            decreases caps - i,
        {
            events.push(GameEvent::ObstacleCaptured);
            proof {
                assert(events@ =~= Seq::new((i + 1) as nat, |k: int| GameEvent::ObstacleCaptured));
            }
            i = i + 1;
        }
        match new_death {
            Some(r) => {
                events.push(GameEvent::ShipDied(r));
            },
            None => {},
        }
        if self.score.current != score_before {
            events.push(GameEvent::ScoreChanged(self.score.current));
        }
        proof {
            let ncap = caps as int;
            let nd = new_death;
            let changed = self.score.current != score_before;
            assert(events@ =~= spec_frame_events(ncap, nd, changed, self.score.current));
        }
        events
    }

    /// One frame of the whole application.
    ///
    /// Loading waits for `assets_loaded`; Menu starts a run on a start
    /// request; Playing runs one simulation frame with freshly drawn spawn
    /// randomness; GameOver returns to the Menu on a restart request.
    /// Only a Playing frame emits events.
    pub fn update(&mut self, real_delta: u64, actions: &Actions) -> (events: Vec<GameEvent>)
        requires
            old(self).wf(),
            real_delta <= FRAME_DELTA_CAP,
            -1 <= actions.player_left_move <= 1,
            -1 <= actions.player_right_move <= 1,
        ensures
            final(self).wf(),
            old(self).state == GameState::Loading ==> *final(self) == *old(self) && events@
                =~= Seq::<GameEvent>::empty(),
            old(self).state == GameState::Menu && actions.restart_requested ==> spec_started(
                *old(self),
                *final(self),
            ) && events@ =~= Seq::<GameEvent>::empty(),
            old(self).state == GameState::Menu && !actions.restart_requested ==> *final(self)
                == *old(self) && events@ =~= Seq::<GameEvent>::empty(),
            old(self).state == GameState::GameOver && actions.restart_requested ==> *final(self)
                == (Game { state: GameState::Menu, ..*old(self) }) && events@ =~= Seq::<
                GameEvent,
            >::empty(),
            old(self).state == GameState::GameOver && !actions.restart_requested ==> *final(self)
                == *old(self) && events@ =~= Seq::<GameEvent>::empty(),
            old(self).state == GameState::Playing ==> exists|col: int, pick: int|
                {
                    &&& -(old(self).map.width as int) / 2 <= col <= (old(self).map.width as int)
                        / 2
                    &&& 0 <= pick
                    &&& spec_frame_rel(
                        *old(self),
                        *final(self),
                        events@,
                        real_delta as int,
                        actions.player_left_move as int,
                        actions.player_right_move as int,
                        col,
                        pick,
                    )
                },
    {
        match self.state {
            GameState::Loading => Vec::new(),
            GameState::Menu => {
                if actions.restart_requested {
                    self.start();
                }
                Vec::new()
            },
            GameState::GameOver => {
                if actions.restart_requested {
                    self.state = GameState::Menu;
                }
                Vec::new()
            },
            GameState::Playing => {
                let w2 = self.map.width / 2;
                let col = random_in_range(-w2, w2);
                let pick = random_in_range(0, 1_000_000);
                let events = self.frame_seeded(
                    real_delta,
                    actions.player_left_move,
                    actions.player_right_move,
                    col,
                    pick as u64,
                );
                proof {
                    assert(-(old(self).map.width as int) / 2 <= col as int <= (old(
                        self,
                    ).map.width as int) / 2);
                }
                events
            },
        }
    }
}

} // verus!
