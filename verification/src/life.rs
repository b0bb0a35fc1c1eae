//! The mathematical model of the cellular automaton: the abstract state of a
//! simulation, the Moore-neighborhood count, and the Game-of-Life transition
//! rule, all as specification functions.

use vstd::prelude::*;

verus! {

/// Abstract view of a running simulation: the current grid, its dimensions,
/// and the engine's bookkeeping (generation, pause flag, tick interval).
/// `cells` is indexed `cells[x][y]` with `0 <= x < width`, `0 <= y < height`.
pub ghost struct GameModel {
    pub width: nat,
    pub height: nat,
    pub cells: Seq<Seq<bool>>,
    pub generation: nat,
    pub paused: bool,
    pub interval_ms: nat,
}

/// A well-formed grid: one column per x coordinate, each of the full height.
pub open spec fn grid_wf(cells: Seq<Seq<bool>>, width: nat, height: nat) -> bool {
    &&& cells.len() == width
    &&& forall|x: int| 0 <= x < width ==> (#[trigger] cells[x]).len() == height
}

/// A well-formed model.
pub open spec fn wf(m: GameModel) -> bool {
    grid_wf(m.cells, m.width, m.height)
}

/// Whether the cell at `(x, y)` is alive; coordinates outside the grid are
/// dead by definition (no wraparound).
pub open spec fn cell_at(m: GameModel, x: int, y: int) -> bool {
    0 <= x < m.width && 0 <= y < m.height && m.cells[x][y]
}

/// 1 for a live cell, 0 for a dead one.
pub open spec fn one_if(alive: bool) -> int {
    if alive {
        1
    } else {
        0
    }
}

/// The number of live cells among the 8 Moore neighbors of `(x, y)`;
/// out-of-bounds positions count as dead.
pub open spec fn live_neighbors(m: GameModel, x: int, y: int) -> int {
    one_if(cell_at(m, x - 1, y - 1)) + one_if(cell_at(m, x, y - 1)) + one_if(
        cell_at(m, x + 1, y - 1),
    ) + one_if(cell_at(m, x - 1, y)) + one_if(cell_at(m, x + 1, y)) + one_if(
        cell_at(m, x - 1, y + 1),
    ) + one_if(cell_at(m, x, y + 1)) + one_if(cell_at(m, x + 1, y + 1))
}

/// The Game-of-Life rule: a live cell survives with exactly 2 or 3 live
/// neighbors; a dead cell comes alive with exactly 3; everything else dies
/// or stays dead.
pub open spec fn next_alive(m: GameModel, x: int, y: int) -> bool {
    if cell_at(m, x, y) {
        live_neighbors(m, x, y) == 2 || live_neighbors(m, x, y) == 3
    } else {
        live_neighbors(m, x, y) == 3
    }
}

/// Relates a model to its successor after one generation: same geometry,
/// every cell rewritten by the rule, generation advanced by one, pause flag
/// and interval untouched.
pub open spec fn stepped(pre: GameModel, post: GameModel) -> bool {
    &&& post.width == pre.width
    &&& post.height == pre.height
    &&& forall|x: int, y: int|
        0 <= x < pre.width && 0 <= y < pre.height ==> #[trigger] cell_at(post, x, y) == next_alive(
            pre,
            x,
            y,
        )
    &&& post.generation == pre.generation + 1
    &&& post.paused == pre.paused
    &&& post.interval_ms == pre.interval_ms
}

} // verus!
