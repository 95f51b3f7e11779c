//! The obstacle field: falling obstacles, the periodic spawn timer with its
//! weighted, score-gated pattern catalog, and the per-frame advance that
//! resolves each obstacle's crossing of the tether line exactly once —
//! a ship strike (fatal) takes precedence over a gap capture (scored).

use vstd::prelude::*;

use crate::game_map::GameMap;
use crate::game_time::GAME_DELTA_CAP;
use crate::units::{abs_i64, spec_abs, MILLI};

verus! {

/// Fall speed in world units per second (equivalently milli-units per
/// game millisecond).
pub const OBSTACLE_FALL_SPEED: i64 = 150;

/// Game milliseconds between spawn waves.
pub const SPAWN_PERIOD: u64 = 3000;

/// Obstacles never fall below this Y (milli-units); it lies far under every
/// cleanup threshold, so clamping there is unobservable and keeps the fall
/// arithmetic exact.
pub const OBSTACLE_Y_FLOOR: i64 = -10_000_000_000;

/// Cap on live obstacles; a spawn wave that would pass it is skipped.
pub const MAX_OBSTACLES: usize = 1_000_000;

/// One falling obstacle.
#[derive(Clone, Copy, Debug, PartialEq, Eq, Structural)]
pub struct Obstacle {
    /// X in milli-units; never changes after spawning.
    pub x: i64,
    /// Y in milli-units; falls every frame.
    pub y: i64,
    /// Cleared when the obstacle is captured, so it is drawn and checked no more.
    pub visible: bool,
    /// Set when captured; cleared again once its score bonus is paid.
    pub captured: bool,
}

/// One offset of a spawn pattern, in whole sprites relative to the wave's column.
#[derive(Clone, Copy, Debug, PartialEq, Eq, Structural)]
pub struct PatternOffset {
    pub x: i64,
    pub y: i64,
}

/// Possible spawn patterns for obstacles, specified as sprite-sized offsets
/// from the main spawn column, unlocked once the score passes `min_score`.
#[derive(Clone, Debug)]
pub struct SpawnPattern {
    /// Where each obstacle of the wave appears, in sprites.
    pub offsets: Vec<PatternOffset>,
    /// The pattern is eligible while this is strictly below the current
    /// score (milli-points); -1000 means always.
    pub min_score: i64,
}

/// The immutable pattern catalog.
pub struct AvailableSpawnPatterns {
    pub patterns: Vec<SpawnPattern>,
}

/// The live obstacles plus the spawn machinery.
pub struct ObstacleField {
    pub obstacles: Vec<Obstacle>,
    /// Game milliseconds since the last spawn wave.
    pub spawn_timer: u64,
    pub patterns: AvailableSpawnPatterns,
}

/// Coordinate bounds every live obstacle satisfies.
pub open spec fn obstacle_wf(o: Obstacle) -> bool {
    &&& OBSTACLE_Y_FLOOR <= o.y <= 10_000_000_000
    &&& -10_000_000_000 <= o.x <= 10_000_000_000
}

/// A pattern is a non-empty bounded set of small offsets.
pub open spec fn pattern_wf(p: SpawnPattern) -> bool {
    &&& 1 <= p.offsets.len() <= 100
    &&& forall|i: int|
        0 <= i < p.offsets.len() ==> -100 <= #[trigger] p.offsets[i].x <= 100 && -100
            <= p.offsets[i].y <= 100
}

/// A pattern's eligibility: its gate is strictly below the current score.
pub open spec fn spec_eligible(p: SpawnPattern, score: int) -> bool {
    p.min_score < score
}

impl AvailableSpawnPatterns {
    /// Every pattern is well-formed and at least one (gate below zero) is
    /// eligible at any score, so a wave can always spawn.
    pub open spec fn wf(self) -> bool {
        &&& 1 <= self.patterns.len() <= 100
        &&& forall|i: int| 0 <= i < self.patterns.len() ==> pattern_wf(#[trigger] self.patterns[i])
        &&& exists|i: int| 0 <= i < self.patterns.len() && #[trigger] self.patterns[i].min_score < 0
    }
}

/// Y after falling `dy` milli-units, floored far below the map.
pub open spec fn spec_fall_y(y: int, dy: int) -> int {
    if y - dy >= OBSTACLE_Y_FLOOR {
        y - dy
    } else {
        OBSTACLE_Y_FLOOR as int
    }
}

/// A still-visible obstacle crosses the tether line this frame: strictly
/// above before the fall, strictly below after it.
pub open spec fn spec_crosses(o: Obstacle, dy: int, line: int) -> bool {
    o.visible && o.y > line && spec_fall_y(o.y as int, dy) < line
}

/// X within strike range of either ship.
pub open spec fn spec_strikes(x: int, left_x: int, right_x: int, range: int) -> bool {
    spec_abs(x - left_x) < range || spec_abs(x - right_x) < range
}

/// X strictly inside the open gap between the ships.
pub open spec fn spec_in_gap(x: int, left_x: int, right_x: int) -> bool {
    left_x < x && x < right_x
}

/// This obstacle's crossing is a fatal ship strike this frame.
pub open spec fn spec_hits(
    o: Obstacle,
    dy: int,
    line: int,
    left_x: int,
    right_x: int,
    range: int,
) -> bool {
    spec_crosses(o, dy, line) && spec_strikes(o.x as int, left_x, right_x, range)
}

/// This obstacle's crossing is a capture this frame: through the open gap,
/// clear of both ships.
pub open spec fn spec_captures_now(
    o: Obstacle,
    dy: int,
    line: int,
    left_x: int,
    right_x: int,
    range: int,
) -> bool {
    spec_crosses(o, dy, line) && !spec_strikes(o.x as int, left_x, right_x, range) && spec_in_gap(
        o.x as int,
        left_x,
        right_x,
    )
}

/// One obstacle after one frame: it falls, and on a capture-crossing it is
/// marked captured and hidden.  (A striking obstacle only falls; the strike
/// is handled by ending the run.)
pub open spec fn spec_step_obstacle(
    o: Obstacle,
    dy: int,
    line: int,
    left_x: int,
    right_x: int,
    range: int,
) -> Obstacle {
    let o2 = Obstacle { y: spec_fall_y(o.y as int, dy) as i64, ..o };
    if spec_captures_now(o, dy, line, left_x, right_x, range) {
        Obstacle { visible: false, captured: true, ..o2 }
    } else {
        o2
    }
}

/// Index of the first obstacle whose crossing is a ship strike this frame;
/// the sequence's length if none is.
pub open spec fn spec_first_hit(
    s: Seq<Obstacle>,
    dy: int,
    line: int,
    left_x: int,
    right_x: int,
    range: int,
) -> int
    decreases s.len(),
{
    if s.len() == 0 {
        0
    } else if spec_hits(s[0], dy, line, left_x, right_x, range) {
        0
    } else {
        1 + spec_first_hit(s.drop_first(), dy, line, left_x, right_x, range)
    }
}

/// How many obstacles of `s` capture this frame.
pub open spec fn spec_capture_count(
    s: Seq<Obstacle>,
    dy: int,
    line: int,
    left_x: int,
    right_x: int,
    range: int,
) -> int
    decreases s.len(),
{
    if s.len() == 0 {
        0
    } else {
        spec_capture_count(s.drop_last(), dy, line, left_x, right_x, range) + if spec_captures_now(
            s.last(),
            dy,
            line,
            left_x,
            right_x,
            range,
        ) {
            1int
        } else {
            0int
        }
    }
}

/// The obstacle sequence after one frame's advance: obstacles up to and
/// including the first striking one have fallen (and captured where they
/// capture); on a strike the run ends there, so later obstacles are
/// untouched that frame.
pub open spec fn spec_advance_obstacles(
    s: Seq<Obstacle>,
    dy: int,
    line: int,
    left_x: int,
    right_x: int,
    range: int,
) -> Seq<Obstacle> {
    let fh = spec_first_hit(s, dy, line, left_x, right_x, range);
    Seq::new(
        s.len(),
        |i: int|
            if i <= fh {
                spec_step_obstacle(s[i], dy, line, left_x, right_x, range)
            } else {
                s[i]
            },
    )
}

/// How many captures one frame's advance performs: those before the first
/// strike, which ends processing.
pub open spec fn spec_advance_captures(
    s: Seq<Obstacle>,
    dy: int,
    line: int,
    left_x: int,
    right_x: int,
    range: int,
) -> int {
    let fh = spec_first_hit(s, dy, line, left_x, right_x, range);
    spec_capture_count(
        s.take(
            if fh <= s.len() {
                fh
            } else {
                s.len() as int
            },
        ),
        dy,
        line,
        left_x,
        right_x,
        range,
    )
}

/// Strike range: four fifths of a sprite, in milli-units.
pub open spec fn spec_strike_range(map: GameMap) -> int {
    4 * map.sprite_size * MILLI / 5
}

/// Obstacles whose Y has fallen below this are removed by cleanup: three
/// pad rows under the bottom edge.
pub open spec fn spec_cleanup_y(map: GameMap) -> int {
    map.spec_bottom_y() - 3 * map.pad_y * map.sprite_size * MILLI
}

/// The obstacle a wave spawn places for one pattern offset: on the offset
/// column, several sprite rows above the top edge so it falls into view.
pub open spec fn spec_spawn_obstacle(off: PatternOffset, col: int, map: GameMap) -> Obstacle {
    Obstacle {
        x: ((col + off.x) * map.sprite_size * MILLI) as i64,
        y: (map.spec_top_y() + 3 * map.pad_y * map.sprite_size * MILLI + off.y * map.sprite_size
            * MILLI) as i64,
        visible: true,
        captured: false,
    }
}

/// The obstacles one wave of `p` at column `col` spawns.
pub open spec fn spec_wave(p: SpawnPattern, col: int, map: GameMap) -> Seq<Obstacle> {
    Seq::new(p.offsets.len() as nat, |i: int| spec_spawn_obstacle(p.offsets[i], col, map))
}

/// Indices of the patterns eligible at `score`, in catalog order.
pub open spec fn spec_eligible_idx(s: Seq<SpawnPattern>, score: int) -> Seq<int>
    decreases s.len(),
{
    if s.len() == 0 {
        Seq::empty()
    } else {
        let rest = spec_eligible_idx(s.drop_last(), score);
        if spec_eligible(s.last(), score) {
            rest.push(s.len() - 1)
        } else {
            rest
        }
    }
}

/// The stock pattern catalog, exactly: a single obstacle and a row of
/// three always available, wider rows, a diagonal and a five-row unlocked
/// at 50, 60, 30 and 100 points.
pub open spec fn spec_stock_catalog(ps: Seq<SpawnPattern>) -> bool {
    &&& ps.len() == 6
    &&& ps[0].min_score == -1000
    &&& ps[0].offsets@ == seq![PatternOffset { x: 0i64, y: 0i64 }]
    &&& ps[1].min_score == -1000
    &&& ps[1].offsets@ == seq![
        PatternOffset { x: -1i64, y: 0i64 },
        PatternOffset { x: 0i64, y: 0i64 },
        PatternOffset { x: 1i64, y: 0i64 },
    ]
    &&& ps[2].min_score == 50_000
    &&& ps[2].offsets@ == seq![
        PatternOffset { x: -2i64, y: 0i64 },
        PatternOffset { x: -1i64, y: 0i64 },
        PatternOffset { x: 0i64, y: 0i64 },
        PatternOffset { x: 1i64, y: 0i64 },
        PatternOffset { x: 2i64, y: 0i64 },
    ]
    &&& ps[3].min_score == 60_000
    &&& ps[3].offsets@ == seq![
        PatternOffset { x: -2i64, y: 0i64 },
        PatternOffset { x: 0i64, y: 0i64 },
        PatternOffset { x: 1i64, y: 0i64 },
        PatternOffset { x: 2i64, y: 0i64 },
    ]
    &&& ps[4].min_score == 30_000
    &&& ps[4].offsets@ == seq![
        PatternOffset { x: -2i64, y: -2i64 },
        PatternOffset { x: 0i64, y: 0i64 },
        PatternOffset { x: 2i64, y: 2i64 },
    ]
    &&& ps[5].min_score == 100_000
    &&& ps[5].offsets@ == seq![
        PatternOffset { x: -4i64, y: 0i64 },
        PatternOffset { x: -2i64, y: 0i64 },
        PatternOffset { x: 0i64, y: 0i64 },
        PatternOffset { x: 2i64, y: 0i64 },
        PatternOffset { x: 4i64, y: 0i64 },
    ]
}

/// The spawn timer after ticking by `delta`, wrapping when a wave fires.
pub open spec fn spec_spawn_timer_after(timer: int, delta: int) -> int {
    if timer + delta >= SPAWN_PERIOD {
        (timer + delta) % (SPAWN_PERIOD as int)
    } else {
        timer + delta
    }
}

/// The obstacle sequence after a spawn tick whose timer fired (`fires`),
/// with the injected random column and pattern choice: the pattern is the
/// `pick % n`-th of the eligible ones, and its wave is appended unless that
/// would pass the obstacle cap.
pub open spec fn spec_obstacles_after_spawn(
    obs: Seq<Obstacle>,
    pats: Seq<SpawnPattern>,
    fires: bool,
    score: int,
    col: int,
    pick: int,
    map: GameMap,
) -> Seq<Obstacle> {
    if !fires {
        obs
    } else {
        let el = spec_eligible_idx(pats, score);
        if el.len() == 0 {
            obs
        } else {
            let p = pats[el[pick % (el.len() as int)]];
            if obs.len() + p.offsets.len() <= MAX_OBSTACLES {
                obs + spec_wave(p, col, map)
            } else {
                obs
            }
        }
    }
}

/// All obstacles of `s` with the captured mark cleared, in place.
pub open spec fn spec_clear_captured(s: Seq<Obstacle>) -> Seq<Obstacle> {
    Seq::new(s.len(), |i: int| Obstacle { captured: false, ..s[i] })
}

/// How many obstacles of `s` carry the captured mark.
pub open spec fn spec_captured_count(s: Seq<Obstacle>) -> int
    decreases s.len(),
{
    if s.len() == 0 {
        0
    } else {
        spec_captured_count(s.drop_last()) + if s.last().captured {
            1int
        } else {
            0int
        }
    }
}

/// The obstacles surviving a cleanup at threshold `thr`, in order.
pub open spec fn spec_kept(s: Seq<Obstacle>, thr: int) -> Seq<Obstacle>
    decreases s.len(),
{
    if s.len() == 0 {
        Seq::empty()
    } else {
        let rest = spec_kept(s.drop_last(), thr);
        if s.last().y >= thr {
            rest.push(s.last())
        } else {
            rest
        }
    }
}

/// If index `i` strikes and nothing before it does, `i` is the first strike.
proof fn lemma_first_hit_found(
    s: Seq<Obstacle>,
    dy: int,
    line: int,
    left_x: int,
    right_x: int,
    range: int,
    i: int,
)
    requires
        0 <= i < s.len(),
        spec_hits(s[i], dy, line, left_x, right_x, range),
        forall|j: int| 0 <= j < i ==> !spec_hits(#[trigger] s[j], dy, line, left_x, right_x, range),
    ensures
        spec_first_hit(s, dy, line, left_x, right_x, range) == i,
    decreases s.len(),
{
    if i > 0 {
        lemma_first_hit_found(s.drop_first(), dy, line, left_x, right_x, range, i - 1);
    }
}

/// If nothing strikes, the first strike index is the length.
proof fn lemma_first_hit_none(
    s: Seq<Obstacle>,
    dy: int,
    line: int,
    left_x: int,
    right_x: int,
    range: int,
)
    requires
        forall|j: int|
            0 <= j < s.len() ==> !spec_hits(#[trigger] s[j], dy, line, left_x, right_x, range),
    ensures
        spec_first_hit(s, dy, line, left_x, right_x, range) == s.len(),
    decreases s.len(),
{
    if s.len() > 0 {
        lemma_first_hit_none(s.drop_first(), dy, line, left_x, right_x, range);
    }
}

/// Extending a prefix by one element adds that element's capture.
proof fn lemma_capture_count_take_step(
    s: Seq<Obstacle>,
    dy: int,
    line: int,
    left_x: int,
    right_x: int,
    range: int,
    i: int,
)
    requires
        0 <= i < s.len(),
    ensures
        spec_capture_count(s.take(i + 1), dy, line, left_x, right_x, range) == spec_capture_count(
            s.take(i),
            dy,
            line,
            left_x,
            right_x,
            range,
        ) + if spec_captures_now(s[i], dy, line, left_x, right_x, range) {
            1int
        } else {
            0int
        },
{
    assert(s.take(i + 1).drop_last() =~= s.take(i));
    assert(s.take(i + 1).last() == s[i]);
}

/// Extending a prefix by one element keeps or adds that element in the cleanup.
proof fn lemma_kept_take_step(s: Seq<Obstacle>, thr: int, i: int)
    requires
        0 <= i < s.len(),
    ensures
        spec_kept(s.take(i + 1), thr) == if s[i].y >= thr {
            spec_kept(s.take(i), thr).push(s[i])
        } else {
            spec_kept(s.take(i), thr)
        },
{
    assert(s.take(i + 1).drop_last() =~= s.take(i));
    assert(s.take(i + 1).last() == s[i]);
}

/// Extending a prefix by one pattern adds its index when eligible.
proof fn lemma_eligible_idx_take_step(s: Seq<SpawnPattern>, score: int, i: int)
    requires
        0 <= i < s.len(),
    ensures
        spec_eligible_idx(s.take(i + 1), score) == if spec_eligible(s[i], score) {
            spec_eligible_idx(s.take(i), score).push(i)
        } else {
            spec_eligible_idx(s.take(i), score)
        },
{
    assert(s.take(i + 1).drop_last() =~= s.take(i));
    assert(s.take(i + 1).last() == s[i]);
}

/// Spawn eligibility law, soundness: every listed index is in range and its
/// pattern's gate is strictly below the score — at score zero only patterns
/// with a negative gate are ever listed, hence ever chosen.
pub proof fn lemma_eligible_idx_sound(s: Seq<SpawnPattern>, score: int)
    ensures
        forall|k: int|
            0 <= k < spec_eligible_idx(s, score).len() ==> {
                let j = #[trigger] spec_eligible_idx(s, score)[k];
                0 <= j < s.len() && spec_eligible(s[j], score)
            },
    decreases s.len(),
{
    if s.len() > 0 {
        lemma_eligible_idx_sound(s.drop_last(), score);
        let el = spec_eligible_idx(s, score);
        let rest = spec_eligible_idx(s.drop_last(), score);
        assert forall|k: int| 0 <= k < el.len() implies {
            let j = #[trigger] el[k];
            0 <= j < s.len() && spec_eligible(s[j], score)
        } by {
            if k < rest.len() {
                assert(el[k] == rest[k]);
                assert(s.drop_last()[rest[k]] == s[rest[k]]);
            } else {
                assert(el[k] == s.len() - 1);
            }
        }
    }
}

/// Spawn eligibility law, completeness: every eligible pattern's index is
/// listed — at a score above every gate, all patterns are eligible choices.
pub proof fn lemma_eligible_idx_complete(s: Seq<SpawnPattern>, score: int)
    ensures
        forall|j: int|
            0 <= j < s.len() && spec_eligible(#[trigger] s[j], score) ==> spec_eligible_idx(
                s,
                score,
            ).contains(j),
    decreases s.len(),
{
    if s.len() > 0 {
        lemma_eligible_idx_complete(s.drop_last(), score);
        assert forall|j: int|
            0 <= j < s.len() && spec_eligible(#[trigger] s[j], score) implies spec_eligible_idx(
            s,
            score,
        ).contains(j) by {
            if j < s.len() - 1 {
                assert(s.drop_last()[j] == s[j]);
                let el = spec_eligible_idx(s.drop_last(), score);
                let k = choose|k: int| 0 <= k < el.len() && el[k] == j;
                assert(spec_eligible_idx(s, score)[k] == j);
            } else {
                let el = spec_eligible_idx(s, score);
                assert(el[el.len() - 1] == j);
            }
        }
    }
}

/// A catalog with an always-eligible pattern yields a non-empty choice list
/// at every score of a run (scores are never negative).
pub proof fn lemma_eligible_idx_nonempty(s: Seq<SpawnPattern>, score: int, witness: int)
    requires
        0 <= witness < s.len(),
        s[witness].min_score < 0,
        score >= 0,
    ensures
        spec_eligible_idx(s, score).len() >= 1,
{
    lemma_eligible_idx_complete(s, score);
    assert(spec_eligible_idx(s, score).contains(witness));
}

/// Death precedence: an obstacle that crosses the tether line inside a
/// ship's strike range is a strike that frame, never a capture — even when
/// its X also lies inside the open gap between the ships.
pub proof fn lemma_strike_precedes_capture(
    o: Obstacle,
    dy: int,
    line: int,
    left_x: int,
    right_x: int,
    range: int,
)
    requires
        spec_crosses(o, dy, line),
        spec_strikes(o.x as int, left_x, right_x, range),
        spec_in_gap(o.x as int, left_x, right_x),
    ensures
        spec_hits(o, dy, line, left_x, right_x, range),
        !spec_captures_now(o, dy, line, left_x, right_x, range),
        spec_step_obstacle(o, dy, line, left_x, right_x, range).captured == o.captured,
        spec_step_obstacle(o, dy, line, left_x, right_x, range).visible == o.visible,
{
}

impl AvailableSpawnPatterns {
    /// The stock catalog: singles and rows of three to five, wider rows and
    /// a diagonal unlocked as the score rises.
    pub fn new() -> (r: Self)
        ensures
            r.wf(),
            spec_stock_catalog(r.patterns@),
    {
        let mut patterns: Vec<SpawnPattern> = Vec::new();

        let mut offs: Vec<PatternOffset> = Vec::new();
        offs.push(PatternOffset { x: 0i64, y: 0i64 });
        patterns.push(SpawnPattern { offsets: offs, min_score: -1000 });

        let mut offs: Vec<PatternOffset> = Vec::new();
        offs.push(PatternOffset { x: -1i64, y: 0i64 });
        offs.push(PatternOffset { x: 0i64, y: 0i64 });
        offs.push(PatternOffset { x: 1i64, y: 0i64 });
        patterns.push(SpawnPattern { offsets: offs, min_score: -1000 });

        let mut offs: Vec<PatternOffset> = Vec::new();
        offs.push(PatternOffset { x: -2i64, y: 0i64 });
        offs.push(PatternOffset { x: -1i64, y: 0i64 });
        offs.push(PatternOffset { x: 0i64, y: 0i64 });
        offs.push(PatternOffset { x: 1i64, y: 0i64 });
        offs.push(PatternOffset { x: 2i64, y: 0i64 });
        patterns.push(SpawnPattern { offsets: offs, min_score: 50_000 });

        let mut offs: Vec<PatternOffset> = Vec::new();
        offs.push(PatternOffset { x: -2i64, y: 0i64 });
        offs.push(PatternOffset { x: 0i64, y: 0i64 });
        offs.push(PatternOffset { x: 1i64, y: 0i64 });
        offs.push(PatternOffset { x: 2i64, y: 0i64 });
        patterns.push(SpawnPattern { offsets: offs, min_score: 60_000 });

        let mut offs: Vec<PatternOffset> = Vec::new();
        offs.push(PatternOffset { x: -2i64, y: -2i64 });
        offs.push(PatternOffset { x: 0i64, y: 0i64 });
        offs.push(PatternOffset { x: 2i64, y: 2i64 });
        patterns.push(SpawnPattern { offsets: offs, min_score: 30_000 });

        let mut offs: Vec<PatternOffset> = Vec::new();
        offs.push(PatternOffset { x: -4i64, y: 0i64 });
        offs.push(PatternOffset { x: -2i64, y: 0i64 });
        offs.push(PatternOffset { x: 0i64, y: 0i64 });
        offs.push(PatternOffset { x: 2i64, y: 0i64 });
        offs.push(PatternOffset { x: 4i64, y: 0i64 });
        patterns.push(SpawnPattern { offsets: offs, min_score: 100_000 });

        let r = AvailableSpawnPatterns { patterns };
        proof {
            assert(r.patterns[0].min_score < 0);
            assert(forall|i: int| 0 <= i < 6 ==> pattern_wf(#[trigger] r.patterns[i]));
            assert(r.patterns@[0].offsets@ =~= seq![PatternOffset { x: 0i64, y: 0i64 }]);
            assert(r.patterns@[1].offsets@ =~= seq![
                PatternOffset { x: -1i64, y: 0i64 },
                PatternOffset { x: 0i64, y: 0i64 },
                PatternOffset { x: 1i64, y: 0i64 },
            ]);
            assert(r.patterns@[2].offsets@ =~= seq![
                PatternOffset { x: -2i64, y: 0i64 },
                PatternOffset { x: -1i64, y: 0i64 },
                PatternOffset { x: 0i64, y: 0i64 },
                PatternOffset { x: 1i64, y: 0i64 },
                PatternOffset { x: 2i64, y: 0i64 },
            ]);
            assert(r.patterns@[3].offsets@ =~= seq![
                PatternOffset { x: -2i64, y: 0i64 },
                PatternOffset { x: 0i64, y: 0i64 },
                PatternOffset { x: 1i64, y: 0i64 },
                PatternOffset { x: 2i64, y: 0i64 },
            ]);
            assert(r.patterns@[4].offsets@ =~= seq![
                PatternOffset { x: -2i64, y: -2i64 },
                PatternOffset { x: 0i64, y: 0i64 },
                PatternOffset { x: 2i64, y: 2i64 },
            ]);
            assert(r.patterns@[5].offsets@ =~= seq![
                PatternOffset { x: -4i64, y: 0i64 },
                PatternOffset { x: -2i64, y: 0i64 },
                PatternOffset { x: 0i64, y: 0i64 },
                PatternOffset { x: 2i64, y: 0i64 },
                PatternOffset { x: 4i64, y: 0i64 },
            ]);
        }
        r
    }
}

/// Lists the indices of the patterns eligible at the current score, in
/// catalog order.  At least one index is always listed.
pub fn eligible_indices(patterns: &AvailableSpawnPatterns, current_score: u64) -> (r: Vec<usize>)
    requires
        patterns.wf(),
    ensures
        r@.map_values(|v: usize| v as int) == spec_eligible_idx(
            patterns.patterns@,
            current_score as int,
        ),
        r@.len() >= 1,
        forall|k: int| 0 <= k < r@.len() ==> #[trigger] r@[k] < patterns.patterns@.len(),
{
    let n = patterns.patterns.len();
    let mut r: Vec<usize> = Vec::new();
    let mut i: usize = 0;
    while i < n
        invariant
            0 <= i <= n,
            n == patterns.patterns@.len(),
            patterns.wf(),
            r@.map_values(|v: usize| v as int) == spec_eligible_idx(
                patterns.patterns@.take(i as int),
                current_score as int,
            ),
            forall|k: int| 0 <= k < r@.len() ==> #[trigger] r@[k] < i,
        decreases n - i,
    {
        let p = &patterns.patterns[i];
        let eligible = p.min_score < 0 || (p.min_score as u64) < current_score;
        proof {
            lemma_eligible_idx_take_step(patterns.patterns@, current_score as int, i as int);
        }
        if eligible {
            r.push(i);
            proof {
                assert(r@.map_values(|v: usize| v as int) =~= spec_eligible_idx(
                    patterns.patterns@.take(i as int + 1),
                    current_score as int,
                ));
            }
        }
        i = i + 1;
    }
    proof {
        assert(patterns.patterns@.take(n as int) =~= patterns.patterns@);
        let w = choose|w: int|
            0 <= w < patterns.patterns@.len() && #[trigger] patterns.patterns@[w].min_score < 0;
        lemma_eligible_idx_nonempty(patterns.patterns@, current_score as int, w);
    }
    r
}

impl ObstacleField {
    /// Obstacle and catalog bounds, and the timer still short of its period.
    pub open spec fn wf(self) -> bool {
        &&& self.obstacles.len() <= MAX_OBSTACLES
        &&& forall|i: int| 0 <= i < self.obstacles.len() ==> obstacle_wf(#[trigger] self.obstacles[i])
        &&& self.spawn_timer < SPAWN_PERIOD
        &&& self.patterns.wf()
    }

    /// An empty field with a fresh timer and the stock catalog.
    pub fn new() -> (r: Self)
        ensures
            r.wf(),
            r.obstacles@.len() == 0,
            r.spawn_timer == 0,
            spec_stock_catalog(r.patterns.patterns@),
    {
        ObstacleField {
            obstacles: Vec::new(),
            spawn_timer: 0,
            patterns: AvailableSpawnPatterns::new(),
        }
    }

    /// Appends the wave of pattern `pattern_index` at column `col`.
    fn spawn_wave(&mut self, col: i64, pattern_index: usize, map: &GameMap)
        requires
            old(self).wf(),
            map.wf(),
            -500 <= col <= 500,
            pattern_index < old(self).patterns.patterns@.len(),
            old(self).obstacles@.len() + old(self).patterns.patterns@[pattern_index as int].offsets@.len()
                <= MAX_OBSTACLES,
        ensures
            final(self).wf(),
            final(self).spawn_timer == old(self).spawn_timer,
            final(self).patterns == old(self).patterns,
            final(self).obstacles@ == old(self).obstacles@ + spec_wave(
                old(self).patterns.patterns@[pattern_index as int],
                col as int,
                *map,
            ),
    {
        let ghost p = self.patterns.patterns@[pattern_index as int];
        let n = self.patterns.patterns[pattern_index].offsets.len();
        let top = map.top_y();
        let mut i: usize = 0;
        while i < n
            invariant
                0 <= i <= n,
                self.patterns == old(self).patterns,
                self.spawn_timer == old(self).spawn_timer,
                map.wf(),
                -500 <= col <= 500,
                pattern_index < self.patterns.patterns@.len(),
                p == self.patterns.patterns@[pattern_index as int],
                pattern_wf(p),
                n == p.offsets@.len(),
                top as int == map.spec_top_y(),
                0 < top <= 500_000_000,
                old(self).obstacles@.len() + n <= MAX_OBSTACLES,
                self.obstacles@ == old(self).obstacles@ + spec_wave(p, col as int, *map).take(
                    i as int,
                ),
                forall|j: int|
                    0 <= j < self.obstacles@.len() ==> obstacle_wf(#[trigger] self.obstacles@[j]),
            decreases n - i,
        {
            let off = self.patterns.patterns[pattern_index].offsets[i];
            proof {
                assert((col + off.x) * map.sprite_size >= -600_000 && (col + off.x)
                    * map.sprite_size <= 600_000) by (nonlinear_arith)
                    requires
                        -600 <= col + off.x <= 600,
                        0 < map.sprite_size <= 1000,
                ;
                assert(0 <= 3 * map.pad_y * map.sprite_size <= 3_000_000) by (nonlinear_arith)
                    requires
                        0 <= map.pad_y <= 1000,
                        0 < map.sprite_size <= 1000,
                ;
                assert(-100_000 <= off.y * map.sprite_size <= 100_000) by (nonlinear_arith)
                    requires
                        -100 <= off.y <= 100,
                        0 < map.sprite_size <= 1000,
                ;
            }
            let x = (col + off.x) * map.sprite_size * MILLI;
            let y = top + 3 * map.pad_y * map.sprite_size * MILLI + off.y * map.sprite_size * MILLI;
            let o = Obstacle { x, y, visible: true, captured: false };
            self.obstacles.push(o);
            proof {
                assert(o == spec_spawn_obstacle(p.offsets@[i as int], col as int, *map));
                assert(self.obstacles@ =~= old(self).obstacles@ + spec_wave(
                    p,
                    col as int,
                    *map,
                ).take(i as int + 1));
            }
            i = i + 1;
        }
        proof {
            assert(spec_wave(p, col as int, *map).take(n as int) =~= spec_wave(p, col as int, *map));
        }
    }

    /// One spawn tick.  A dead ship freezes the field.  Otherwise the timer
    /// ticks by the frame's game delta; when it completes a period it wraps
    /// and one wave spawns: the pattern is the `pick % n`-th of those whose
    /// gate is below the current score, placed at column `col`.  The driver
    /// injects `col` and `pick` (drawn at random in live play), so the spawn
    /// logic itself is deterministic and replayable.
    pub fn spawn_tick(
        &mut self,
        delta: u64,
        ship_is_dead: bool,
        current_score: u64,
        map: &GameMap,
        col: i64,
        pick: u64,
    ) -> (spawned: bool)
        requires
            old(self).wf(),
            map.wf(),
            delta <= GAME_DELTA_CAP,
            -500 <= col <= 500,
        ensures
            final(self).wf(),
            final(self).patterns == old(self).patterns,
            ship_is_dead ==> *final(self) == *old(self) && !spawned,
            !ship_is_dead ==> {
                let fires = old(self).spawn_timer + delta >= SPAWN_PERIOD;
                &&& final(self).spawn_timer == spec_spawn_timer_after(
                    old(self).spawn_timer as int,
                    delta as int,
                )
                &&& final(self).obstacles@ == spec_obstacles_after_spawn(
                    old(self).obstacles@,
                    old(self).patterns.patterns@,
                    fires,
                    current_score as int,
                    col as int,
                    pick as int,
                    *map,
                )
                &&& spawned == (fires && final(self).obstacles@.len() > old(
                    self,
                ).obstacles@.len())
            },
    {
        if ship_is_dead {
            return false;
        }
        let t = self.spawn_timer + delta;
        if t < SPAWN_PERIOD {
            self.spawn_timer = t;
            return false;
        }
        self.spawn_timer = t % SPAWN_PERIOD;
        let el = eligible_indices(&self.patterns, current_score);
        let pk = (pick % (el.len() as u64)) as usize;
        let k = el[pk];
        proof {
            let sel = spec_eligible_idx(self.patterns.patterns@, current_score as int);
            assert(sel[pk as int] == el@.map_values(|v: usize| v as int)[pk as int]);
            lemma_eligible_idx_sound(self.patterns.patterns@, current_score as int);
        }
        let plen = self.patterns.patterns[k].offsets.len();
        if self.obstacles.len() <= MAX_OBSTACLES - plen {
            self.spawn_wave(col, k, map);
            proof {
                assert(self.obstacles@.len() > old(self).obstacles@.len());
            }
            true
        } else {
            false
        }
    }

    /// One frame's fall-and-resolve pass over the obstacles, given the
    /// ships' positions.  A dead ship freezes the field.  Otherwise each
    /// obstacle falls; a visible obstacle crossing the tether line is
    /// resolved exactly then: within strike range of a ship it is a fatal
    /// strike and processing stops (the run is over); strictly inside the
    /// open gap it is captured (marked and hidden); otherwise it just keeps
    /// falling.  Returns whether a strike happened and how many obstacles
    /// were captured.
    pub fn advance(
        &mut self,
        delta: u64,
        ship_is_dead: bool,
        left_x: i64,
        right_x: i64,
        map: &GameMap,
    ) -> (r: (bool, u64))
        requires
            old(self).wf(),
            map.wf(),
            delta <= GAME_DELTA_CAP,
            -1_000_000_000 <= left_x <= 1_000_000_000,
            -1_000_000_000 <= right_x <= 1_000_000_000,
        ensures
            final(self).wf(),
            final(self).spawn_timer == old(self).spawn_timer,
            final(self).patterns == old(self).patterns,
            final(self).obstacles@.len() == old(self).obstacles@.len(),
            ship_is_dead ==> *final(self) == *old(self) && r == (false, 0u64),
            !ship_is_dead ==> {
                let s = old(self).obstacles@;
                let dy = OBSTACLE_FALL_SPEED * delta;
                let line = map.spec_bottom_y();
                let range = spec_strike_range(*map);
                &&& final(self).obstacles@ == spec_advance_obstacles(
                    s,
                    dy as int,
                    line,
                    left_x as int,
                    right_x as int,
                    range,
                )
                &&& r.0 == (spec_first_hit(s, dy as int, line, left_x as int, right_x as int, range)
                    < s.len())
                &&& r.1 == spec_advance_captures(
                    s,
                    dy as int,
                    line,
                    left_x as int,
                    right_x as int,
                    range,
                )
            },
    {
        if ship_is_dead {
            return (false, 0);
        }
        let line = map.bottom_y();
        let range = 4 * map.sprite_size * MILLI / 5;
        let dy = OBSTACLE_FALL_SPEED * (delta as i64);
        let ghost s = self.obstacles@;
        let n = self.obstacles.len();
        let mut i: usize = 0;
        let mut captures: u64 = 0;
        let mut struck = false;
        while i < n && !struck
            invariant
                0 <= i <= n,
                n == self.obstacles@.len(),
                s.len() == n,
                s == old(self).obstacles@,
                self.spawn_timer == old(self).spawn_timer,
                self.patterns == old(self).patterns,
                self.patterns.wf(),
                map.wf(),
                line as int == map.spec_bottom_y(),
                range as int == spec_strike_range(*map),
                dy == OBSTACLE_FALL_SPEED * delta,
                0 <= dy <= 15_000_000_000_000_000,
                -1_000_000_000 <= left_x <= 1_000_000_000,
                -1_000_000_000 <= right_x <= 1_000_000_000,
                forall|j: int| 0 <= j < n ==> obstacle_wf(#[trigger] self.obstacles@[j]),
                forall|j: int| i <= j < n ==> #[trigger] self.obstacles@[j] == s[j],
                captures <= i,
                !struck ==> forall|j: int|
                    0 <= j < i ==> !spec_hits(
                        #[trigger] s[j],
                        dy as int,
                        line as int,
                        left_x as int,
                        right_x as int,
                        range as int,
                    ),
                !struck ==> forall|j: int|
                    0 <= j < i ==> #[trigger] self.obstacles@[j] == spec_step_obstacle(
                        s[j],
                        dy as int,
                        line as int,
                        left_x as int,
                        right_x as int,
                        range as int,
                    ),
                !struck ==> captures == spec_capture_count(
                    s.take(i as int),
                    dy as int,
                    line as int,
                    left_x as int,
                    right_x as int,
                    range as int,
                ),
                struck ==> 1 <= i && spec_hits(
                    s[i - 1],
                    dy as int,
                    line as int,
                    left_x as int,
                    right_x as int,
                    range as int,
                ),
                struck ==> forall|j: int|
                    0 <= j < i - 1 ==> !spec_hits(
                        #[trigger] s[j],
                        dy as int,
                        line as int,
                        left_x as int,
                        right_x as int,
                        range as int,
                    ),
                struck ==> forall|j: int|
                    0 <= j < i ==> #[trigger] self.obstacles@[j] == spec_step_obstacle(
                        s[j],
                        dy as int,
                        line as int,
                        left_x as int,
                        right_x as int,
                        range as int,
                    ),
                struck ==> captures == spec_capture_count(
                    s.take(i - 1),
                    dy as int,
                    line as int,
                    left_x as int,
                    right_x as int,
                    range as int,
                ),
            decreases n - i,
        {
            let o = self.obstacles[i];
            let y2 = if o.y - dy >= OBSTACLE_Y_FLOOR {
                o.y - dy
            } else {
                OBSTACLE_Y_FLOOR
            };
            let mut o2 = o;
            o2.y = y2;
            proof {
                lemma_capture_count_take_step(
                    s,
                    dy as int,
                    line as int,
                    left_x as int,
                    right_x as int,
                    range as int,
                    i as int,
                );
            }
            let crossed = o.visible && o.y > line && y2 < line;
            if crossed {
                let near_left = abs_i64(o.x - left_x) < range;
                let near_right = abs_i64(o.x - right_x) < range;
                if near_left || near_right {
                    self.obstacles.set(i, o2);
                    struck = true;
                } else if left_x < o.x && o.x < right_x {
                    o2.visible = false;
                    o2.captured = true;
                    self.obstacles.set(i, o2);
                    captures = captures + 1;
                } else {
                    self.obstacles.set(i, o2);
                }
            } else {
                self.obstacles.set(i, o2);
            }
            i = i + 1;
        }
        proof {
            let gdy = dy as int;
            let gl = left_x as int;
            let gr = right_x as int;
            let gline = line as int;
            let grange = range as int;
            if struck {
                lemma_first_hit_found(s, gdy, gline, gl, gr, grange, i - 1);
            } else {
                assert(i == n);
                lemma_first_hit_none(s, gdy, gline, gl, gr, grange);
                assert(s.take(n as int) =~= s);
            }
            assert(self.obstacles@ =~= spec_advance_obstacles(s, gdy, gline, gl, gr, grange));
        }
        (struck, captures)
    }

    /// Removes every obstacle that has fallen three pad rows below the
    /// bottom edge, captured or missed, bounding the live count.
    pub fn cleanup(&mut self, map: &GameMap)
        requires
            old(self).wf(),
            map.wf(),
        ensures
            final(self).wf(),
            final(self).spawn_timer == old(self).spawn_timer,
            final(self).patterns == old(self).patterns,
            final(self).obstacles@ == spec_kept(old(self).obstacles@, spec_cleanup_y(*map)),
    {
        proof {
            assert(0 <= 3 * map.pad_y * map.sprite_size <= 3_000_000) by (nonlinear_arith)
                requires
                    0 <= map.pad_y <= 1000,
                    0 < map.sprite_size <= 1000,
            ;
        }
        let thr = map.bottom_y() - 3 * map.pad_y * map.sprite_size * MILLI;
        let ghost s = self.obstacles@;
        let n = self.obstacles.len();
        let mut kept: Vec<Obstacle> = Vec::new();
        let mut i: usize = 0;
        while i < n
            invariant
                0 <= i <= n,
                n == self.obstacles@.len(),
                s == self.obstacles@,
                thr as int == spec_cleanup_y(*map),
                forall|j: int| 0 <= j < n ==> obstacle_wf(#[trigger] s[j]),
                kept@ == spec_kept(s.take(i as int), thr as int),
                kept@.len() <= i,
                forall|j: int| 0 <= j < kept@.len() ==> obstacle_wf(#[trigger] kept@[j]),
            decreases n - i,
        {
            let o = self.obstacles[i];
            proof {
                lemma_kept_take_step(s, thr as int, i as int);
            }
            if o.y >= thr {
                kept.push(o);
            }
            i = i + 1;
        }
        proof {
            assert(s.take(n as int) =~= s);
        }
        self.obstacles = kept;
    }

    /// Clears every captured mark, returning how many were set: the marks a
    /// frame's captures leave are consumed all at once by the scorer, so a
    /// capture is paid exactly once.
    pub fn take_captured(&mut self) -> (count: u64)
        requires
            old(self).wf(),
        ensures
            final(self).wf(),
            final(self).spawn_timer == old(self).spawn_timer,
            final(self).patterns == old(self).patterns,
            final(self).obstacles@ == spec_clear_captured(old(self).obstacles@),
            count == spec_captured_count(old(self).obstacles@),
    {
        let ghost s = self.obstacles@;
        let n = self.obstacles.len();
        let mut i: usize = 0;
        let mut count: u64 = 0;
        while i < n
            invariant
                0 <= i <= n,
                n == self.obstacles@.len(),
                s.len() == n,
                s == old(self).obstacles@,
                self.spawn_timer == old(self).spawn_timer,
                self.patterns == old(self).patterns,
                self.patterns.wf(),
                forall|j: int| 0 <= j < n ==> obstacle_wf(#[trigger] self.obstacles@[j]),
                forall|j: int| i <= j < n ==> #[trigger] self.obstacles@[j] == s[j],
                forall|j: int|
                    0 <= j < i ==> #[trigger] self.obstacles@[j] == (Obstacle {
                        captured: false,
                        ..s[j]
                    }),
                count <= i,
                count == spec_captured_count(s.take(i as int)),
            decreases n - i,
        {
            let o = self.obstacles[i];
            proof {
                assert(s.take(i as int + 1).drop_last() =~= s.take(i as int));
                assert(s.take(i as int + 1).last() == s[i as int]);
            }
            if o.captured {
                let mut o2 = o;
                o2.captured = false;
                self.obstacles.set(i, o2);
                count = count + 1;
            }
            i = i + 1;
        }
        proof {
            assert(s.take(n as int) =~= s);
            assert(self.obstacles@ =~= spec_clear_captured(s));
        }
        count
    }
}

/// Capture exactly-once: after the captured marks are consumed none remain,
/// so consuming again yields nothing and changes nothing.
pub proof fn lemma_capture_paid_once(s: Seq<Obstacle>)
    ensures
        spec_captured_count(spec_clear_captured(s)) == 0,
        spec_clear_captured(spec_clear_captured(s)) == spec_clear_captured(s),
{
    lemma_captured_count_zero(spec_clear_captured(s));
    assert(spec_clear_captured(spec_clear_captured(s)) =~= spec_clear_captured(s));
}

/// A sequence with no captured marks counts zero.
proof fn lemma_captured_count_zero(s: Seq<Obstacle>)
    requires
        forall|i: int| 0 <= i < s.len() ==> !(#[trigger] s[i]).captured,
    ensures
        spec_captured_count(s) == 0,
    decreases s.len(),
{
    if s.len() > 0 {
        lemma_captured_count_zero(s.drop_last());
    }
}

} // verus!
