//! The map of the level, and how the player moves on it.

use vstd::prelude::*;

verus! {

/// Cells along each side of the map.
pub const MAP_SIZE: usize = 16;

/// The map, row by row: zero is a free cell, anything else a kind of wall.
pub const MAP: [u8; 256] = [
    1, 1, 1, 1, 1, 1, 1, 1, 1, 1, 1, 1, 1, 1, 1, 1,
    1, 0, 0, 0, 0, 0, 0, 0, 0, 0, 3, 0, 0, 0, 0, 1,
    1, 0, 0, 0, 0, 0, 6, 0, 6, 0, 3, 0, 2, 2, 0, 1,
    1, 0, 0, 0, 0, 0, 0, 0, 0, 0, 3, 0, 2, 0, 0, 1,
    1, 0, 0, 0, 0, 0, 6, 0, 6, 0, 3, 0, 2, 0, 0, 1,
    1, 0, 0, 0, 0, 0, 0, 0, 0, 0, 0, 0, 2, 2, 0, 1,
    1, 0, 6, 0, 0, 0, 0, 0, 0, 0, 3, 0, 0, 0, 0, 1,
    1, 0, 0, 0, 0, 0, 0, 0, 0, 0, 3, 0, 5, 0, 3, 1,
    1, 0, 6, 0, 0, 0, 0, 0, 0, 0, 3, 0, 0, 0, 3, 1,
    1, 0, 0, 0, 0, 0, 6, 0, 0, 0, 3, 0, 6, 0, 3, 1,
    1, 0, 0, 0, 0, 0, 0, 0, 0, 0, 0, 0, 0, 0, 3, 1,
    1, 0, 2, 2, 0, 0, 6, 0, 0, 0, 3, 0, 6, 0, 3, 1,
    1, 0, 2, 0, 0, 0, 0, 0, 0, 0, 3, 0, 0, 0, 3, 1,
    1, 0, 2, 0, 0, 0, 0, 0, 0, 0, 3, 0, 5, 0, 3, 1,
    1, 0, 0, 0, 0, 0, 0, 0, 0, 0, 0, 0, 0, 0, 0, 1,
    1, 1, 1, 1, 1, 1, 1, 1, 1, 1, 1, 1, 1, 1, 1, 1,
];

/// Which of the two steps of a move are taken.
#[derive(Clone, Copy, Debug, PartialEq, Eq, Structural)]
pub struct Moved {
    pub x: bool,
    pub y: bool,
}

/// The cell in column `x` of row `y` is free.
pub open spec fn is_free(map: Seq<u8>, map_size: int, x: int, y: int) -> bool {
    map[y * map_size + x] == 0
}

/// The row after the step along `y`.
pub open spec fn row_after(
    map: Seq<u8>,
    map_size: int,
    x: int,
    y: int,
    next_y: int,
) -> int {
    if is_free(map, map_size, x, next_y) {
        next_y
    } else {
        y
    }
}

/// Tries to move from one cell towards another, one axis after the other, each
/// only into a free cell: first along `y` in the old column, then along `x` in the
/// row that was reached.
pub fn try_move(
    pos_x: usize,
    pos_y: usize,
    next_x: usize,
    next_y: usize,
    map: &[u8],
    map_size: usize,
) -> (moved: Moved)
    requires
        looks_at_map(
            pos_x as int,
            pos_y as int,
            next_x as int,
            next_y as int,
            map@,
            map_size as int,
        ),
    ensures
        moved.y == is_free(map@, map_size as int, pos_x as int, next_y as int),
        moved.x == is_free(
            map@,
            map_size as int,
            next_x as int,
            row_after(map@, map_size as int, pos_x as int, pos_y as int, next_y as int),
        ),
{
    assert(map@.len() == map.len());
    assert(next_y * map_size >= 0 && pos_y * map_size >= 0) by (nonlinear_arith);
    let y_free = map[next_y * map_size + pos_x] == 0;
    let row: usize = if y_free {
        next_y
    } else {
        pos_y
    };
    let x_free = map[row * map_size + next_x] == 0;
    Moved { x: x_free, y: y_free }
}

/// Both cells that the move looks at are cells of the map.
pub open spec fn looks_at_map(
    pos_x: int,
    pos_y: int,
    next_x: int,
    next_y: int,
    map: Seq<u8>,
    map_size: int,
) -> bool {
    &&& next_y * map_size + pos_x < map.len()
    &&& row_after(map, map_size, pos_x, pos_y, next_y) * map_size + next_x < map.len()
}

fn cell_index(x: usize, y: usize, map: &[u8], map_size: usize) -> (index: Option<usize>)
    ensures
        index == if y * map_size + x < map@.len() {
            Some((y * map_size + x) as usize)
        } else {
            None
        },
{
    assert(map@.len() == map.len());
    assert(y * map_size >= 0) by (nonlinear_arith);
    let row: Option<usize> = y.checked_mul(map_size);
    match row {
        Some(start) => if start < map.len() && x < map.len() - start {
            Some(start + x)
        } else {
            None
        },
        None => None,
    }
}

/// Tries to move as [`try_move`] does, `None` where the move looks beyond the map.
pub fn try_move_on_map(
    pos_x: usize,
    pos_y: usize,
    next_x: usize,
    next_y: usize,
    map: &[u8],
    map_size: usize,
) -> (moved: Option<Moved>)
    ensures
        moved is Some <==> looks_at_map(
            pos_x as int,
            pos_y as int,
            next_x as int,
            next_y as int,
            map@,
            map_size as int,
        ),
        moved matches Some(m) ==> {
            &&& m.y == is_free(map@, map_size as int, pos_x as int, next_y as int)
            &&& m.x == is_free(
                map@,
                map_size as int,
                next_x as int,
                row_after(map@, map_size as int, pos_x as int, pos_y as int, next_y as int),
            )
        },
{
    match cell_index(pos_x, next_y, map, map_size) {
        Some(at) => {
            let row: usize = if map[at] == 0 {
                next_y
            } else {
                pos_y
            };
            match cell_index(next_x, row, map, map_size) {
                Some(_) => Some(try_move(pos_x, pos_y, next_x, next_y, map, map_size)),
                None => None,
            }
        },
        None => None,
    }
}

/// A player in a free cell stays in free cells, whatever the move.
pub proof fn law_player_stays_free(
    map: Seq<u8>,
    map_size: int,
    x: int,
    y: int,
    next_x: int,
    next_y: int,
)
    requires
        is_free(map, map_size, x, y),
    ensures
        ({
            let row = row_after(map, map_size, x, y, next_y);
            let column = if is_free(map, map_size, next_x, row) {
                next_x
            } else {
                x
            };
            is_free(map, map_size, column, row)
        }),
{
}

/// The level is closed: every cell along its edges is a wall.
pub proof fn law_level_is_closed(x: int, y: int)
    requires
        0 <= x < 16,
        0 <= y < 16,
        x == 0 || x == 15 || y == 0 || y == 15,
    ensures
        !is_free(MAP@, 16, x, y),
{
}

/// A player in a free cell who moves by at most one cell along each axis looks
/// only at cells of the map.
pub proof fn law_moves_stay_on_map(x: int, y: int, next_x: int, next_y: int)
    requires
        0 <= x < 16,
        0 <= y < 16,
        is_free(MAP@, 16, x, y),
        x - 1 <= next_x <= x + 1,
        y - 1 <= next_y <= y + 1,
    ensures
        0 <= next_x < 16,
        0 <= next_y < 16,
        0 <= next_y * 16 + x < 256,
        0 <= row_after(MAP@, 16, x, y, next_y) * 16 + next_x < 256,
{
    if x == 0 || x == 15 || y == 0 || y == 15 {
        law_level_is_closed(x, y);
    }
}

/// Places that the patrol walks through.
pub const PATROL_LEN: usize = 8;

/// The place after this one. The first comes after the last.
pub open spec fn waypoint_after(index: int) -> int {
    (index + 1) % 8
}

/// The place after this one. The first comes after the last.
pub fn next_waypoint(index: usize) -> (next: usize)
    requires
        index < PATROL_LEN,
    ensures
        next == (index + 1) % PATROL_LEN as int,
        next == waypoint_after(index as int),
        next < PATROL_LEN,
{
    (index + 1) % PATROL_LEN
}

/// Nothing but a wall stops the player: a player in a free cell ends in a cell that is
/// zero on the map; the step along `y` is taken unless the cell that it leads to in
/// the old column is not zero; and the step along `x` is taken unless the cell that it
/// leads to in the row that was reached is not zero.
pub proof fn law_only_walls_stop(
    map: Seq<u8>,
    map_size: int,
    x: int,
    y: int,
    next_x: int,
    next_y: int,
)
    requires
        map[y * map_size + x] == 0,
    ensures
        ({
            let row = row_after(map, map_size, x, y, next_y);
            let steps = is_free(map, map_size, next_x, row);
            &&& map[next_y * map_size + x] == 0 ==> row == next_y
            &&& map[next_y * map_size + x] != 0 ==> row == y
            &&& map[row * map_size + x] == 0
            &&& steps <==> map[row * map_size + next_x] == 0
        }),
{
}

/// A player who does not change the row or the column is not stopped along it.
pub proof fn law_standing_is_free(map: Seq<u8>, map_size: int, x: int, y: int)
    requires
        map[y * map_size + x] == 0,
    ensures
        row_after(map, map_size, x, y, y) == y,
        is_free(map, map_size, x, y),
{
}

/// The patrol goes through its eight places in their order, and then through them
/// again.
pub proof fn law_patrol_goes_round(index: int)
    requires
        0 <= index < 8,
    ensures
        index < 7 ==> waypoint_after(index) == index + 1,
        waypoint_after(7) == 0,
{
}

} // verus!
