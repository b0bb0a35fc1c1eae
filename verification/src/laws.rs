//! The library's general properties, stated and proved over the models:
//! the transition rule's guarantees and what rendering produces for
//! distinguished grids.

use vstd::prelude::*;

use crate::game::{rendered_pixel, ALIVE_PIXEL, DEAD_PIXEL};
use crate::life::{cell_at, live_neighbors, next_alive, stepped, GameModel};
use crate::render::{
    canvas_pixel, fill_size, gridlines_on, ALIVE_COLOR, DEAD_COLOR, GRID_COLOR,
};

verus! {

/// No spontaneous generation: one step of an all-dead grid leaves every
/// cell dead.
pub proof fn lemma_dead_grid_stays_dead(pre: GameModel, post: GameModel)
    requires
        stepped(pre, post),
        forall|x: int, y: int| !(#[trigger] cell_at(pre, x, y)),
    ensures
        forall|x: int, y: int| !(#[trigger] cell_at(post, x, y)),
{
    assert forall|x: int, y: int| !(#[trigger] cell_at(post, x, y)) by {
        if 0 <= x < post.width && 0 <= y < post.height {
            assert(live_neighbors(pre, x, y) == 0);
            assert(cell_at(post, x, y) == next_alive(pre, x, y));
        }
    }
}

/// The transition rule, cell by cell: after a step, a cell that was alive
/// is alive exactly when it had 2 or 3 live neighbors, and a cell that was
/// dead is alive exactly when it had 3.
pub proof fn lemma_transition_rule(pre: GameModel, post: GameModel, x: int, y: int)
    requires
        stepped(pre, post),
        0 <= x < pre.width,
        0 <= y < pre.height,
    ensures
        cell_at(pre, x, y) ==> (cell_at(post, x, y) <==> (live_neighbors(pre, x, y) == 2
            || live_neighbors(pre, x, y) == 3)),
        !cell_at(pre, x, y) ==> (cell_at(post, x, y) <==> live_neighbors(pre, x, y) == 3),
{
}

/// An isolated live cell, one with no live neighbor, dies after one step.
pub proof fn lemma_isolated_cell_dies(pre: GameModel, post: GameModel, x: int, y: int)
    requires
        stepped(pre, post),
        cell_at(pre, x, y),
        live_neighbors(pre, x, y) == 0,
    ensures
        !cell_at(post, x, y),
{
}

/// Rendering an all-dead grid fills the buffer with the dead color alone.
pub proof fn lemma_render_all_dead(m: GameModel, cell_size: nat, i: int)
    requires
        forall|x: int, y: int| !(#[trigger] cell_at(m, x, y)),
    ensures
        rendered_pixel(m, cell_size, i) == DEAD_PIXEL,
{
}

/// With exactly one live cell, a rendered pixel is the alive color exactly
/// when it belongs to that cell's block.
pub proof fn lemma_render_single_cell(m: GameModel, cell_size: nat, i: int, cx: int, cy: int)
    requires
        forall|x: int, y: int| #[trigger] cell_at(m, x, y) == (x == cx && y == cy),
    ensures
        rendered_pixel(m, cell_size, i) == (if (i % ((m.width * cell_size) as int)) / (
        cell_size as int) == cx && (i / ((m.width * cell_size) as int)) / (cell_size as int) == cy {
            ALIVE_PIXEL
        } else {
            DEAD_PIXEL
        }),
{
}

/// A frame of an all-dead grid holds only gridline color (exactly on the
/// cell boundaries, when gridlines are drawn) and the background color.
pub proof fn lemma_canvas_all_dead(m: GameModel, cell_size: nat, show_grid: bool, px: int, py: int)
    requires
        forall|x: int, y: int| !(#[trigger] cell_at(m, x, y)),
    ensures
        canvas_pixel(m, cell_size, show_grid, px, py) == (if gridlines_on(cell_size, show_grid)
            && (px % (cell_size as int) == 0 || py % (cell_size as int) == 0) {
            GRID_COLOR
        } else {
            DEAD_COLOR
        }),
{
}

/// With exactly one live cell, a frame pixel is the alive color exactly
/// when it lies in that cell's filled square and not on a drawn gridline.
pub proof fn lemma_canvas_single_cell(
    m: GameModel,
    cell_size: nat,
    show_grid: bool,
    px: int,
    py: int,
    cx: int,
    cy: int,
)
    requires
        forall|x: int, y: int| #[trigger] cell_at(m, x, y) == (x == cx && y == cy),
    ensures
        canvas_pixel(m, cell_size, show_grid, px, py) == (if gridlines_on(cell_size, show_grid)
            && (px % (cell_size as int) == 0 || py % (cell_size as int) == 0) {
            GRID_COLOR
        } else if px % (cell_size as int) < fill_size(cell_size, show_grid) && py % (
        cell_size as int) < fill_size(cell_size, show_grid) && px / (cell_size as int) == cx && py
            / (cell_size as int) == cy {
            ALIVE_COLOR
        } else {
            DEAD_COLOR
        }),
{
}

} // verus!
