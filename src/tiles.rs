//! Placement of the watermark's glyphs on the tile grid: a brick pattern in
//! which odd rows are shifted by half a spacing, with the text's characters
//! running diagonally across rows and columns.

use vstd::prelude::*;
use vstd::arithmetic::div_mod::lemma_fundamental_div_mod_converse;
use crate::layout::{
    TileGeometry,
    round_div,
    round_div_exec,
    clamp_i32,
    clamp_to_i32,
    ANCHOR_UNIT,
    COUNT_LIMIT,
    EXTENT_LIMIT,
    OFFSET_LIMIT,
    SPACING_LIMIT,
};

verus! {

/// One placement of a glyph: the character, its anchor in pixels, and the
/// anchor of its shadow.
#[derive(Clone, Copy, Debug, PartialEq, Eq, Structural)]
pub struct Tile {
    pub ch: char,
    pub x: i32,
    pub y: i32,
    pub shadow_x: i32,
    pub shadow_y: i32,
}

/// Horizontal shift of row `row`, in trillionths of a pixel: half a spacing
/// on odd rows, none on even ones.
pub open spec fn stagger_x(g: TileGeometry, row: int) -> int {
    if row % 2 == 1 {
        g.spacing_x * 500
    } else {
        0
    }
}

/// Exact horizontal anchor of the tile in row `row` and column `col`, in
/// trillionths of a pixel.
pub open spec fn anchor_x(g: TileGeometry, row: int, col: int) -> int {
    col * g.spacing_x * 1000 + stagger_x(g, row) + g.offset_x
}

/// Exact vertical anchor of the tiles in row `row`, in trillionths of a pixel.
pub open spec fn anchor_y(g: TileGeometry, row: int) -> int {
    row * g.spacing_y * 1000 + g.offset_y
}

/// Index into the text of the character drawn at row `row` and column `col`.
pub open spec fn char_index(len: int, row: int, col: int) -> int {
    (row + col) % len
}

/// The tile at row `row` and column `col`: anchors rounded to whole pixels,
/// the shadow displaced from the rounded anchor, all saturated to `i32`.
pub open spec fn tile_at(g: TileGeometry, text: Seq<char>, row: int, col: int) -> Tile {
    let x = round_div(anchor_x(g, row, col), ANCHOR_UNIT as int);
    let y = round_div(anchor_y(g, row), ANCHOR_UNIT as int);
    Tile {
        ch: text[char_index(text.len() as int, row, col)],
        x: clamp_i32(x),
        y: clamp_i32(y),
        shadow_x: clamp_i32(x + g.shadow_offset_x),
        shadow_y: clamp_i32(y + g.shadow_offset_y),
    }
}

/// `tiles` holds every tile of the grid, row by row: the tile at row `r`
/// and column `c` stands at index `r * columns + c`.
pub open spec fn is_plan_of(tiles: Seq<Tile>, g: TileGeometry, text: Seq<char>) -> bool {
    &&& tiles.len() == g.rows * g.columns
    &&& forall|k: int|
        0 <= k < tiles.len() ==> #[trigger] tiles[k] == tile_at(
            g,
            text,
            k / g.columns as int,
            k % g.columns as int,
        )
}

/// Row `row + 1` is shifted by half a spacing against an even row `row`, and
/// the shift repeats every two rows.
pub proof fn lemma_stagger(g: TileGeometry, row: int, col: int)
    requires
        row >= 0,
        row % 2 == 0,
    ensures
        anchor_x(g, row + 1, col) - anchor_x(g, row, col) == g.spacing_x * 500,
        anchor_x(g, row + 2, col) == anchor_x(g, row, col),
{
    assert((row + 1) % 2 == 1);
    assert((row + 2) % 2 == 0);
}

/// Two tiles show the same character whenever their row and column add up
/// to the same value modulo the length of the text.
pub proof fn lemma_char_cycle(
    g: TileGeometry,
    text: Seq<char>,
    row: int,
    col: int,
    row2: int,
    col2: int,
)
    requires
        text.len() > 0,
        (row + col) % (text.len() as int) == (row2 + col2) % (text.len() as int),
    ensures
        tile_at(g, text, row, col).ch == tile_at(g, text, row2, col2).ch,
{
}

/// The tile at row `row` and column `col` of the grid.
pub fn tile(g: &TileGeometry, text: &Vec<char>, row: u64, col: u64) -> (t: Tile)
    requires
        g.bounded(),
        text@.len() > 0,
        row < g.rows,
        col < g.columns,
    ensures
        t == tile_at(*g, text@, row as int, col as int),
{
    proof {
        if g.columns > 1 {
            assert(col * g.spacing_x <= (g.columns - 1) * g.spacing_x) by (nonlinear_arith)
                requires
                    col <= g.columns - 1,
                    g.spacing_x > 0,
            ;
        }
        if g.rows > 2 && row >= 1 {
            assert((row - 1) * g.spacing_y <= (g.rows - 2) * g.spacing_y) by (nonlinear_arith)
                requires
                    row - 1 <= g.rows - 2,
                    g.spacing_y > 0,
            ;
            assert(row * g.spacing_y == (row - 1) * g.spacing_y + g.spacing_y) by (nonlinear_arith);
        }
        if row <= 1 {
            assert(-SPACING_LIMIT <= row * g.spacing_y <= SPACING_LIMIT) by (nonlinear_arith)
                requires
                    0 <= row <= 1,
                    -SPACING_LIMIT <= g.spacing_y <= SPACING_LIMIT,
            ;
        }
        assert(col == 0 || 0 <= col * g.spacing_x <= EXTENT_LIMIT);
    }
    let cx: i128 = col as i128 * g.spacing_x;
    let ry: i128 = row as i128 * g.spacing_y;
    let stagger: i128 = if row % 2 == 1 { g.spacing_x * 500 } else { 0 };
    let ax: i128 = cx * 1000 + stagger + g.offset_x;
    let ay: i128 = ry * 1000 + g.offset_y;
    proof {
        assert(col * g.spacing_x * 1000 == cx * 1000) by (nonlinear_arith)
            requires
                cx == col * g.spacing_x,
        ;
        assert(row * g.spacing_y * 1000 == ry * 1000) by (nonlinear_arith)
            requires
                ry == row * g.spacing_y,
        ;
    }
    let x: i128 = round_div_exec(ax, ANCHOR_UNIT);
    let y: i128 = round_div_exec(ay, ANCHOR_UNIT);
    let at: usize = ((row + col) % text.len() as u64) as usize;
    Tile {
        ch: text[at],
        x: clamp_to_i32(x),
        y: clamp_to_i32(y),
        shadow_x: clamp_to_i32(x + g.shadow_offset_x as i128),
        shadow_y: clamp_to_i32(y + g.shadow_offset_y as i128),
    }
}

proof fn lemma_grid_index(row: int, col: int, columns: int)
    requires
        row >= 0,
        0 <= col < columns,
    ensures
        (row * columns + col) / columns == row,
        (row * columns + col) % columns == col,
{
    lemma_fundamental_div_mod_converse(row * columns + col, columns, row, col);
}

/// Every tile of the grid, row by row (see `is_plan_of`).
pub fn plan_tiles(g: &TileGeometry, text: &Vec<char>) -> (tiles: Vec<Tile>)
    requires
        g.bounded(),
        text@.len() > 0,
    ensures
        is_plan_of(tiles@, *g, text@),
{
    let mut tiles: Vec<Tile> = Vec::new();
    let mut row: u64 = 0;
    while row < g.rows
        invariant
            g.bounded(),
            text@.len() > 0,
            row <= g.rows,
            tiles@.len() == row * g.columns,
            forall|k: int|
                0 <= k < tiles@.len() ==> #[trigger] tiles@[k] == tile_at(
                    *g,
                    text@,
                    k / g.columns as int,
                    k % g.columns as int,
                ),
        decreases g.rows - row,
    {
        let mut col: u64 = 0;
        while col < g.columns
            invariant
                g.bounded(),
                text@.len() > 0,
                row < g.rows,
                col <= g.columns,
                tiles@.len() == row * g.columns + col,
                forall|k: int|
                    0 <= k < tiles@.len() ==> #[trigger] tiles@[k] == tile_at(
                        *g,
                        text@,
                        k / g.columns as int,
                        k % g.columns as int,
                    ),
            decreases g.columns - col,
        {
            let t = tile(g, text, row, col);
            proof {
                lemma_grid_index(row as int, col as int, g.columns as int);
            }
            tiles.push(t);
            col = col + 1;
        }
        proof {
            assert((row + 1) * g.columns == row * g.columns + g.columns) by (nonlinear_arith);
        }
        row = row + 1;
    }
    tiles
}

} // verus!
