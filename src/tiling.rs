use vstd::prelude::*;

verus! {

/// Parity class of the tile with integer indices `(i, j)`:
/// `(i mod 2 + j mod 2) mod 2`, with the mathematical (non-negative) remainder.
pub open spec fn tile_parity(i: int, j: int) -> int {
    (i % 2 + j % 2) % 2
}

/// Which of the two board colors the tile `(i, j)` shows: `even` when its
/// parity class is 0, `odd` when it is 1.
pub open spec fn tile_pick<T>(i: int, j: int, even: T, odd: T) -> T {
    if tile_parity(i, j) == 0 {
        even
    } else {
        odd
    }
}

/// Parity class of the tile `(i, j)`, 0 or 1, for indices of any sign.
pub fn tile_parity_of(i: i64, j: i64) -> (r: u8)
    ensures
        r as int == tile_parity(i as int, j as int),
        r <= 1,
{
    let pi: u8 = if i % 2 == 0 { 0 } else { 1 };
    let pj: u8 = if j % 2 == 0 { 0 } else { 1 };
    (pi + pj) % 2
}

/// The color of the checkerboard tile with indices `(i, j)`: the first of
/// the two colors on tiles of parity 0, the second on tiles of parity 1.
pub fn checker_pick<T>(i: i64, j: i64, even: T, odd: T) -> (r: T)
    ensures
        r == tile_pick(i as int, j as int, even, odd),
{
    if tile_parity_of(i, j) == 0 {
        even
    } else {
        odd
    }
}

/// Adjacent tiles alternate: a step of one tile along either spanning
/// direction changes the parity class, and so the color shown.
pub proof fn lemma_adjacent_tiles_alternate(i: int, j: int)
    ensures
        tile_parity(i + 1, j) != tile_parity(i, j),
        tile_parity(i, j + 1) != tile_parity(i, j),
        tile_parity(i - 1, j) != tile_parity(i, j),
        tile_parity(i, j - 1) != tile_parity(i, j),
{
}

/// With two distinct board colors, the color shown flips from a tile to the
/// next one along either spanning direction.
pub proof fn lemma_adjacent_tiles_swap_colors<T>(i: int, j: int, even: T, odd: T)
    requires
        even != odd,
    ensures
        tile_pick(i + 1, j, even, odd) != tile_pick(i, j, even, odd),
        tile_pick(i, j + 1, even, odd) != tile_pick(i, j, even, odd),
{
    lemma_adjacent_tiles_alternate(i, j);
}

/// Tiles two steps apart along a spanning direction show the same color.
pub proof fn lemma_tiles_repeat_every_two(i: int, j: int)
    ensures
        tile_parity(i + 2, j) == tile_parity(i, j),
        tile_parity(i, j + 2) == tile_parity(i, j),
{
}

} // verus!
