//! Static geometry of the playable map: its size in cells, the border
//! padding, and the size of one cell in world units, together with the
//! coordinate helpers the rest of the simulation uses.

use vstd::prelude::*;

use crate::units::MILLI;

verus! {

/// Map geometry.  Lengths are whole cells; `sprite_size` is world units per
/// cell.  The map is centred on the origin, so the playable X range is
/// symmetric around zero.
#[derive(Clone, Copy, Debug, PartialEq, Eq, Structural)]
pub struct GameMap {
    /// Playable width in cells.
    pub width: i64,
    /// Playable height in cells.
    pub height: i64,
    /// Horizontal border padding in cells.
    pub pad_x: i64,
    /// Vertical border padding in cells.
    pub pad_y: i64,
    /// World units per cell.
    pub sprite_size: i64,
}

/// For a well-formed map, a product of two cell lengths stays at most a
/// million, so every derived milli-unit coordinate fits comfortably in `i64`.
proof fn lemma_cell_product_bounds(a: int, b: int)
    requires
        0 < a <= 1000,
        0 < b <= 1000,
    ensures
        1 <= a * b <= 1_000_000,
{
    assert(1 <= a * b <= 1_000_000) by (nonlinear_arith)
        requires
            0 < a <= 1000,
            0 < b <= 1000,
    ;
}

impl GameMap {
    /// Bounds that keep every derived coordinate well inside `i64`.
    pub open spec fn wf(self) -> bool {
        &&& 0 < self.width <= 1000
        &&& 0 < self.height <= 1000
        &&& 0 <= self.pad_x <= 1000
        &&& 0 <= self.pad_y <= 1000
        &&& 0 < self.sprite_size <= 1000
    }

    /// Y of the map's bottom edge, in milli-units.
    pub open spec fn spec_bottom_y(self) -> int {
        -(self.height * self.sprite_size * MILLI / 2)
    }

    /// Y of the map's top edge, in milli-units.
    pub open spec fn spec_top_y(self) -> int {
        self.height * self.sprite_size * MILLI / 2
    }

    /// Largest playable X in milli-units; the smallest is its negation.
    pub open spec fn spec_x_bound(self) -> int {
        self.width * self.sprite_size * MILLI / 2
    }

    /// Determines the "bottom" of the map in world coordinates (milli-units).
    pub fn bottom_y(&self) -> (r: i64)
        requires
            self.wf(),
        ensures
            r as int == self.spec_bottom_y(),
            -500_000_000 <= r < 0,
    {
        proof {
            lemma_cell_product_bounds(self.height as int, self.sprite_size as int);
        }
        -(self.height * self.sprite_size * MILLI / 2)
    }

    /// Determines the "top" of the map in world coordinates (milli-units).
    pub fn top_y(&self) -> (r: i64)
        requires
            self.wf(),
        ensures
            r as int == self.spec_top_y(),
            0 < r <= 500_000_000,
    {
        proof {
            lemma_cell_product_bounds(self.height as int, self.sprite_size as int);
        }
        self.height * self.sprite_size * MILLI / 2
    }

    /// Maximum X in the positive direction (milli-units).  The map is
    /// symmetric, so the left boundary is the negation.
    pub fn get_x_bound(&self) -> (r: i64)
        requires
            self.wf(),
        ensures
            r as int == self.spec_x_bound(),
            0 < r <= 500_000_000,
    {
        proof {
            lemma_cell_product_bounds(self.width as int, self.sprite_size as int);
        }
        self.width * self.sprite_size * MILLI / 2
    }
}

impl Default for GameMap {
    /// The stock 16 x 16 map of 32-unit cells with a 3-cell border.
    fn default() -> (r: Self)
        ensures
            r == (GameMap { width: 16, height: 16, pad_x: 3, pad_y: 3, sprite_size: 32 }),
            r.wf(),
    {
        GameMap { width: 16, height: 16, pad_x: 3, pad_y: 3, sprite_size: 32 }
    }
}

} // verus!
