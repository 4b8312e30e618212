//! Layout of the checkered floor: a square of tiles centred on the origin,
//! alternating light and dark.
use vstd::prelude::*;

verus! {

/// Tiles per side.
pub const GRID_SIZE: u32 = 32;

/// Distance between neighbouring tile centres, in world units.
pub const TILE_SPACING: i32 = 2;

/// One floor tile: where its centre stands and its colour.
#[derive(Clone, Copy, Debug, PartialEq, Eq)]
pub struct GridTile {
    pub x: i32,
    pub z: i32,
    pub light: bool,
}

/// The tile in column `i` and row `j`.
pub open spec fn tile_at(i: int, j: int) -> GridTile {
    GridTile {
        x: (TILE_SPACING * i - GRID_SIZE) as i32,
        z: (TILE_SPACING * j - GRID_SIZE) as i32,
        light: (i + j + 1) % 2 == 0,
    }
}

/// All tiles, column by column and within a column row by row.
pub fn grid_layout() -> (r: Vec<GridTile>)
    ensures
        r@.len() == GRID_SIZE * GRID_SIZE,
        forall|i: int, j: int|
            0 <= i < GRID_SIZE && 0 <= j < GRID_SIZE ==> #[trigger] r@[i * GRID_SIZE + j]
                == tile_at(i, j),
{
    let n = GRID_SIZE;
    let mut r: Vec<GridTile> = Vec::new();
    let mut i: u32 = 0;
    while i < n
        invariant
            i <= n,
            n == GRID_SIZE,
            r@.len() == i * n,
            forall|a: int, b: int|
                0 <= a < i && 0 <= b < n ==> #[trigger] r@[a * n + b] == tile_at(a, b),
        decreases n - i,
    {
        let mut j: u32 = 0;
        while j < n
            invariant
                i < n,
                j <= n,
                n == GRID_SIZE,
                r@.len() == i * n + j,
                forall|a: int, b: int|
                    0 <= a < i && 0 <= b < n ==> #[trigger] r@[a * n + b] == tile_at(a, b),
                forall|b: int| 0 <= b < j ==> #[trigger] r@[i * n + b] == tile_at(i as int, b),
            decreases n - j,
        {
            let x: i32 = TILE_SPACING * (i as i32) - (n as i32);
            let z: i32 = TILE_SPACING * (j as i32) - (n as i32);
            r.push(GridTile { x, z, light: (i + j + 1) % 2 == 0 });
            proof {
                assert forall|a: int, b: int|
                    0 <= a < i && 0 <= b < n implies #[trigger] r@[a * n + b] == tile_at(a, b) by {
                    assert(a * n + b < i * n) by (nonlinear_arith)
                        requires
                            0 <= a < i,
                            0 <= b < n,
                    ;
                }
            }
            j = j + 1;
        }
        proof {
            assert forall|a: int, b: int|
                0 <= a < i + 1 && 0 <= b < n implies #[trigger] r@[a * n + b] == tile_at(a, b) by {
                if a == i {
                    assert(r@[i * n + b] == tile_at(i as int, b));
                }
            }
            assert((i + 1) * n == i * n + n) by (nonlinear_arith);
        }
        i = i + 1;
    }
    r
}

} // verus!
