//! The simulation engine: the double-buffered grid, the lifecycle operations
//! (create, get/set cell, clear, resize), the generational tick, and the flat
//! pixel rendering of the current grid.

use vstd::prelude::*;

use crate::life::{cell_at, live_neighbors, next_alive, stepped, wf, GameModel};

verus! {

/// Relies on `std::time::Instant`, an opaque monotonic-clock timestamp.
#[verifier::external_type_specification]
#[verifier::external_body]
pub struct ExInstant(std::time::Instant);

/// Relies on `std::time::Instant::now`: the current instant. Its value
/// depends on the clock, so nothing is promised of it.
#[verifier::external_body]
fn now_instant() -> std::time::Instant {
    std::time::Instant::now()
}

/// Relies on `std::time::Instant::elapsed`: the time since `t`. The result
/// depends on the clock, so nothing is promised of it.
#[verifier::external_body]
fn elapsed_since(t: &std::time::Instant) -> std::time::Duration {
    t.elapsed()
}

/// Relies on `std::time::Duration::as_millis`: the duration in whole
/// milliseconds. The duration itself is opaque, so nothing is promised.
#[verifier::external_body]
fn duration_as_millis(d: &std::time::Duration) -> u128 {
    d.as_millis()
}

/// The color written by `render_to_buffer` for a pixel of a live cell.
pub const ALIVE_PIXEL: u32 = 0xFFFFFFFF;

/// The color written by `render_to_buffer` for every other pixel.
pub const DEAD_PIXEL: u32 = 0x00000000;

/// The color that `render_to_buffer` gives pixel `i` of a buffer whose rows
/// are `width * cell_size` pixels wide: the pixel of a live cell is
/// `ALIVE_PIXEL`, every other pixel (dead cell or outside the grid) is
/// `DEAD_PIXEL`.
pub open spec fn rendered_pixel(m: GameModel, cell_size: nat, i: int) -> u32 {
    let row_pixels = (m.width * cell_size) as int;
    let x = (i % row_pixels) / (cell_size as int);
    let y = (i / row_pixels) / (cell_size as int);
    if cell_at(m, x, y) {
        ALIVE_PIXEL
    } else {
        DEAD_PIXEL
    }
}

/// A Game-of-Life simulation: the current grid (read by every observer), a
/// same-sized scratch grid written during a tick, and the engine's
/// bookkeeping. Grids are indexed `[x][y]`, `0 <= x < width`,
/// `0 <= y < height`.
pub struct GameOfLife {
    width: usize,
    height: usize,
    current_state: Vec<Vec<bool>>,
    next_state: Vec<Vec<bool>>,
    last_update: std::time::Instant,
    frame_delay_ms: u64,
    paused: bool,
    generation: u64,
}

impl View for GameOfLife {
    type V = GameModel;

    closed spec fn view(&self) -> GameModel {
        GameModel {
            width: self.width as nat,
            height: self.height as nat,
            cells: Seq::new(
                self.current_state@.len(),
                |x: int| self.current_state@[x]@,
            ),
            generation: self.generation as nat,
            paused: self.paused,
            interval_ms: self.frame_delay_ms as nat,
        }
    }
}

/// A freshly built all-dead grid of the given dimensions.
fn make_grid(width: usize, height: usize) -> (g: Vec<Vec<bool>>)
    ensures
        g@.len() == width,
        forall|x: int| 0 <= x < width ==> (#[trigger] g@[x])@.len() == height,
        forall|x: int, y: int| 0 <= x < width && 0 <= y < height ==> !(#[trigger] g@[x]@[y]),
{
    let mut g: Vec<Vec<bool>> = Vec::new();
    let mut x: usize = 0;
    while x < width
        invariant
            x <= width,
            g@.len() == x,
            forall|i: int| 0 <= i < x ==> (#[trigger] g@[i])@.len() == height,
            forall|i: int, j: int| 0 <= i < x && 0 <= j < height ==> !(#[trigger] g@[i]@[j]),
        decreases width - x,
    {
        let mut row: Vec<bool> = Vec::new();
        let mut y: usize = 0;
        while y < height
            invariant
                y <= height,
                row@.len() == y,
                forall|j: int| 0 <= j < y ==> !(#[trigger] row@[j]),
            decreases height - y,
        {
            row.push(false);
            y += 1;
        }
        g.push(row);
        x += 1;
    }
    g
}

impl GameOfLife {
    /// Both grids are rectangular, of the engine's stated dimensions.
    pub closed spec fn inv(&self) -> bool {
        &&& self.current_state@.len() == self.width
        &&& forall|x: int|
            0 <= x < self.width ==> (#[trigger] self.current_state@[x])@.len() == self.height
        &&& self.next_state@.len() == self.width
        &&& forall|x: int|
            0 <= x < self.width ==> (#[trigger] self.next_state@[x])@.len() == self.height
    }

    /// The model's dimensions come from machine words.
    pub proof fn lemma_dims_in_range(&self)
        ensures
            self@.width <= usize::MAX,
            self@.height <= usize::MAX,
    {
    }

    /// A new simulation: two all-dead grids, generation 0, running (not
    /// paused), with the given tick interval in milliseconds.
    pub fn new(width: usize, height: usize, initial_delay_ms: u64) -> (game: Self)
        ensures
            game.inv(),
            game@.width == width,
            game@.height == height,
            game@.generation == 0,
            !game@.paused,
            game@.interval_ms == initial_delay_ms,
            forall|x: int, y: int| !(#[trigger] cell_at(game@, x, y)),
            wf(game@),
    {
        let game = GameOfLife {
            width,
            height,
            current_state: make_grid(width, height),
            next_state: make_grid(width, height),
            last_update: now_instant(),
            frame_delay_ms: initial_delay_ms,
            paused: false,
            generation: 0,
        };
        game
    }

    /// The grid's width, in cells.
    pub fn width(&self) -> (w: usize)
        ensures
            w == self@.width,
    {
        self.width
    }

    /// The grid's height, in cells.
    pub fn height(&self) -> (h: usize)
        ensures
            h == self@.height,
    {
        self.height
    }

    /// The current tick interval, in milliseconds.
    pub fn get_frame_delay(&self) -> (delay_ms: u64)
        ensures
            delay_ms == self@.interval_ms,
    {
        self.frame_delay_ms
    }

    /// Whether the simulation is paused.
    pub fn is_paused(&self) -> (paused: bool)
        ensures
            paused == self@.paused,
    {
        self.paused
    }

    /// The number of completed generations since creation or the last clear.
    pub fn get_generation(&self) -> (generation: u64)
        ensures
            generation == self@.generation,
    {
        self.generation
    }

    /// The state of the cell at `(x, y)`; out-of-bounds coordinates read as
    /// dead, never as an error.
    pub fn get_cell_state(&self, x: usize, y: usize) -> (alive: bool)
        requires
            self.inv(),
        ensures
            alive == cell_at(self@, x as int, y as int),
    {
        if x < self.width && y < self.height {
            self.current_state[x][y]
        } else {
            false
        }
    }

    /// Writes the cell at `(x, y)` in the current grid; out-of-bounds
    /// coordinates are silently ignored. Nothing else changes.
    pub fn set_cell(&mut self, x: usize, y: usize, alive: bool)
        requires
            old(self).inv(),
        ensures
            final(self).inv(),
            final(self)@ == (GameModel { cells: final(self)@.cells, ..old(self)@ }),
            forall|i: int, j: int|
                #[trigger] cell_at(final(self)@, i, j) == if i == x as int && j == y as int {
                    x < old(self)@.width && y < old(self)@.height && alive
                } else {
                    cell_at(old(self)@, i, j)
                },
            !(x < old(self)@.width && y < old(self)@.height) ==> final(self)@ == old(self)@,
    {
        if x < self.width && y < self.height {
            self.current_state[x][y] = alive;
        }
    }

    /// Kills every cell and resets the generation counter to 0; the pause
    /// state and the tick interval are left as they were.
    pub fn clear(&mut self)
        requires
            old(self).inv(),
        ensures
            final(self).inv(),
            final(self)@ == (GameModel { cells: final(self)@.cells, generation: 0, ..old(self)@ }),
            forall|i: int, j: int| !(#[trigger] cell_at(final(self)@, i, j)),
            wf(final(self)@),
    {
        let w = self.width;
        let h = self.height;
        let mut x: usize = 0;
        while x < w
            invariant
                old(self).inv(),
                self.inv(),
                x <= w,
                self.width == w,
                self.height == h,
                self@ == (GameModel { cells: self@.cells, ..old(self)@ }),
                forall|i: int, j: int|
                    0 <= i < w && 0 <= j < h && i < x ==> !(#[trigger] self@.cells[i][j]),
                forall|i: int, j: int|
                    x <= i < w && 0 <= j < h ==> #[trigger] self@.cells[i][j] == old(
                        self,
                    )@.cells[i][j],
            decreases w - x,
        {
            let mut y: usize = 0;
            while y < h
                invariant
                    old(self).inv(),
                    self.inv(),
                    x < w,
                    y <= h,
                    self.width == w,
                    self.height == h,
                    self@ == (GameModel { cells: self@.cells, ..old(self)@ }),
                    forall|i: int, j: int|
                        0 <= i < w && 0 <= j < h && i < x ==> !(#[trigger] self@.cells[i][j]),
                    forall|j: int| 0 <= j < y ==> !(#[trigger] self@.cells[x as int][j]),
                    forall|i: int, j: int|
                        x < i < w && 0 <= j < h ==> #[trigger] self@.cells[i][j] == old(
                            self,
                        )@.cells[i][j],
                    forall|j: int|
                        y <= j < h ==> #[trigger] self@.cells[x as int][j] == old(
                            self,
                        )@.cells[x as int][j],
                decreases h - y,
            {
                let ghost prev = self@;
                self.current_state[x][y] = false;
                proof {
                    assert(self.current_state@[x as int]@ =~= prev.cells[x as int].update(
                        y as int,
                        false,
                    ));
                    assert(self@.cells =~= prev.cells.update(
                        x as int,
                        prev.cells[x as int].update(y as int, false),
                    ));
                }
                y += 1;
            }
            x += 1;
        }
        self.generation = 0;
    }

    /// Replaces both grids with all-dead grids of the new dimensions and
    /// copies the overlapping rectangle of the old current grid over; cells
    /// outside the new bounds are discarded, newly added area starts dead.
    /// Generation, pause state and interval are preserved.
    pub fn resize(&mut self, new_width: usize, new_height: usize)
        requires
            old(self).inv(),
        ensures
            final(self).inv(),
            final(self)@.width == new_width,
            final(self)@.height == new_height,
            final(self)@ == (GameModel {
                width: new_width as nat,
                height: new_height as nat,
                cells: final(self)@.cells,
                ..old(self)@
            }),
            forall|i: int, j: int|
                #[trigger] cell_at(final(self)@, i, j) == (i < new_width && j < new_height
                    && cell_at(old(self)@, i, j)),
            wf(final(self)@),
    {
        let mut new_current = make_grid(new_width, new_height);
        let new_next = make_grid(new_width, new_height);

        let min_width = if self.width < new_width {
            self.width
        } else {
            new_width
        };
        let min_height = if self.height < new_height {
            self.height
        } else {
            new_height
        };

        let mut x: usize = 0;
        while x < min_width
            invariant
                self.inv(),
                self == old(self),
                min_width <= self.width,
                min_width <= new_width,
                min_height <= self.height,
                min_height <= new_height,
                x <= min_width,
                new_current@.len() == new_width,
                forall|i: int| 0 <= i < new_width ==> (#[trigger] new_current@[i])@.len() == new_height,
                forall|i: int, j: int|
                    0 <= i < x && 0 <= j < min_height ==> #[trigger] new_current@[i]@[j] == old(
                        self,
                    )@.cells[i][j],
                forall|i: int, j: int|
                    0 <= i < new_width && 0 <= j < new_height && !(0 <= i < x && 0 <= j
                        < min_height) ==> !(#[trigger] new_current@[i]@[j]),
            decreases min_width - x,
        {
            let mut y: usize = 0;
            while y < min_height
                invariant
                    self.inv(),
                    self == old(self),
                    min_width <= self.width,
                    min_width <= new_width,
                    min_height <= self.height,
                    min_height <= new_height,
                    x < min_width,
                    y <= min_height,
                    new_current@.len() == new_width,
                    forall|i: int|
                        0 <= i < new_width ==> (#[trigger] new_current@[i])@.len() == new_height,
                    forall|i: int, j: int|
                        0 <= i < x && 0 <= j < min_height ==> #[trigger] new_current@[i]@[j] == old(
                            self,
                        )@.cells[i][j],
                    forall|j: int|
                        0 <= j < y ==> #[trigger] new_current@[x as int]@[j] == old(
                            self,
                        )@.cells[x as int][j],
                    forall|i: int, j: int|
                        0 <= i < new_width && 0 <= j < new_height && !(0 <= i < x && 0 <= j
                            < min_height) && !(i == x as int && 0 <= j < y) ==> !(
                        #[trigger] new_current@[i]@[j]),
                decreases min_height - y,
            {
                let v = self.current_state[x][y];
                new_current[x][y] = v;
                y += 1;
            }
            x += 1;
        }

        self.width = new_width;
        self.height = new_height;
        self.current_state = new_current;
        self.next_state = new_next;
    }

    /// Overwrites every pixel of `buffer` from the current grid: pixel `i`
    /// belongs to cell `((i % (width*cell_size)) / cell_size,
    /// (i / (width*cell_size)) / cell_size)` and is `ALIVE_PIXEL` exactly
    /// when that cell is in bounds and alive.
    pub fn render_to_buffer(&self, buffer: &mut Vec<u32>, cell_size: usize)
        requires
            self.inv(),
            cell_size >= 1,
            self@.width * cell_size <= usize::MAX,
            old(buffer)@.len() > 0 ==> self@.width >= 1,
        ensures
            final(buffer)@.len() == old(buffer)@.len(),
            forall|i: int|
                0 <= i < old(buffer)@.len() ==> #[trigger] final(buffer)@[i] == rendered_pixel(
                    self@,
                    cell_size as nat,
                    i,
                ),
    {
        let row_pixels = self.width * cell_size;
        let len = buffer.len();
        proof {
            if len > 0 {
                assert(self.width * cell_size >= 1) by (nonlinear_arith)
                    requires
                        self.width >= 1,
                        cell_size >= 1,
                ;
            }
        }
        let mut i: usize = 0;
        while i < len
            invariant
                self.inv(),
                buffer@.len() == len,
                i <= len,
                cell_size >= 1,
                row_pixels == self@.width * cell_size,
                len > 0 ==> row_pixels >= 1,
                forall|k: int|
                    0 <= k < i ==> #[trigger] buffer@[k] == rendered_pixel(
                        self@,
                        cell_size as nat,
                        k,
                    ),
            decreases len - i,
        {
            let x = (i % row_pixels) / cell_size;
            let y = (i / row_pixels) / cell_size;
            let alive = self.get_cell_state(x, y);
            buffer[i] = if alive {
                ALIVE_PIXEL
            } else {
                DEAD_PIXEL
            };
            i += 1;
        }
    }

    /// The number of live cells among the 8 Moore neighbors of `(x, y)`;
    /// neighbors outside the grid count as dead.
    fn count_live_neighbors(&self, x: usize, y: usize) -> (count: u8)
        requires
            self.inv(),
            x < self@.width,
            y < self@.height,
        ensures
            count as int == live_neighbors(self@, x as int, y as int),
    {
        let mut count: u8 = 0;
        if x > 0 && y > 0 && self.get_cell_state(x - 1, y - 1) {
            count = count + 1;
        }
        if y > 0 && self.get_cell_state(x, y - 1) {
            count = count + 1;
        }
        if y > 0 && self.get_cell_state(x + 1, y - 1) {
            count = count + 1;
        }
        if x > 0 && self.get_cell_state(x - 1, y) {
            count = count + 1;
        }
        if self.get_cell_state(x + 1, y) {
            count = count + 1;
        }
        if x > 0 && self.get_cell_state(x - 1, y + 1) {
            count = count + 1;
        }
        if self.get_cell_state(x, y + 1) {
            count = count + 1;
        }
        if self.get_cell_state(x + 1, y + 1) {
            count = count + 1;
        }
        count
    }

    /// One unconditional generation: every cell of the next grid is written
    /// from the rule applied to the current grid, the two grids swap roles,
    /// and the generation counter advances.
    fn step(&mut self)
        requires
            old(self).inv(),
            old(self)@.generation < u64::MAX,
        ensures
            final(self).inv(),
            stepped(old(self)@, final(self)@),
    {
        let w = self.width;
        let h = self.height;
        let ghost pre = self@;
        let mut x: usize = 0;
        while x < w
            invariant
                self.inv(),
                self@ == pre,
                self.width == w,
                self.height == h,
                self.generation == old(self).generation,
                x <= w,
                forall|i: int, j: int|
                    0 <= i < x && 0 <= j < h ==> #[trigger] self.next_state@[i]@[j] == next_alive(
                        pre,
                        i,
                        j,
                    ),
            decreases w - x,
        {
            let mut y: usize = 0;
            while y < h
                invariant
                    self.inv(),
                    self@ == pre,
                    self.width == w,
                    self.height == h,
                    self.generation == old(self).generation,
                    x < w,
                    y <= h,
                    forall|i: int, j: int|
                        0 <= i < x && 0 <= j < h ==> #[trigger] self.next_state@[i]@[j]
                            == next_alive(pre, i, j),
                    forall|j: int|
                        0 <= j < y ==> #[trigger] self.next_state@[x as int]@[j] == next_alive(
                            pre,
                            x as int,
                            j,
                        ),
                decreases h - y,
            {
                let neighbors = self.count_live_neighbors(x, y);
                let alive = self.get_cell_state(x, y);
                let next = if alive {
                    neighbors == 2 || neighbors == 3
                } else {
                    neighbors == 3
                };
                let ghost prev_next = self.next_state@;
                self.next_state[x][y] = next;
                proof {
                    assert(self.next_state@.len() == prev_next.len());
                    assert(self.next_state@[x as int]@ =~= prev_next[x as int]@.update(
                        y as int,
                        next,
                    ));
                    assert(forall|i: int|
                        0 <= i < w && i != x as int ==> #[trigger] self.next_state@[i]
                            == prev_next[i]);
                    assert(next == next_alive(pre, x as int, y as int));
                }
                y += 1;
            }
            x += 1;
        }
        std::mem::swap(&mut self.current_state, &mut self.next_state);
        self.generation = self.generation + 1;
        proof {
            assert forall|i: int, j: int| 0 <= i < pre.width && 0 <= j < pre.height implies
                #[trigger] cell_at(self@, i, j) == next_alive(pre, i, j) by {
                assert(self@.cells[i] == self.current_state@[i]@);
            }
        }
    }

    /// One rate-limited tick: steps the simulation exactly when the engine
    /// is not paused and at least the configured interval has elapsed since
    /// the last completed tick; otherwise leaves everything unchanged.
    pub fn tick(&mut self, elapsed_ms: u64) -> (ticked: bool)
        requires
            old(self).inv(),
            !old(self)@.paused && elapsed_ms >= old(self)@.interval_ms ==> old(self)@.generation
                < u64::MAX,
        ensures
            final(self).inv(),
            ticked == (!old(self)@.paused && elapsed_ms >= old(self)@.interval_ms),
            ticked ==> stepped(old(self)@, final(self)@),
            !ticked ==> final(self)@ == old(self)@,
            wf(final(self)@),
    {
        if self.paused || elapsed_ms < self.frame_delay_ms {
            return false;
        }
        self.step();
        true
    }

    /// The host-facing update: reads the wall clock and ticks when due. When
    /// paused, or when too little time has passed, this leaves the model
    /// unchanged; otherwise it advances it by exactly one generation.
    pub fn update(&mut self)
        requires
            old(self).inv(),
            !old(self)@.paused ==> old(self)@.generation < u64::MAX,
        ensures
            final(self).inv(),
            old(self)@.paused ==> final(self)@ == old(self)@,
            final(self)@ == old(self)@ || stepped(old(self)@, final(self)@),
    {
        let elapsed_duration = elapsed_since(&self.last_update);
        let elapsed_wide = duration_as_millis(&elapsed_duration);
        let elapsed_ms: u64 = if elapsed_wide > u64::MAX as u128 {
            u64::MAX
        } else {
            elapsed_wide as u64
        };
        let ticked = self.tick(elapsed_ms);
        if ticked {
            self.last_update = now_instant();
        }
    }

    /// Flips the pause flag; nothing else changes.
    pub fn toggle_pause(&mut self)
        requires
            old(self).inv(),
        ensures
            final(self).inv(),
            final(self)@ == (GameModel { paused: !old(self)@.paused, ..old(self)@ }),
    {
        self.paused = !self.paused;
    }

    /// Slows the simulation down: adds `step_ms` to the tick interval,
    /// saturating at the largest representable interval.
    pub fn increase_interval(&mut self, step_ms: u64)
        requires
            old(self).inv(),
        ensures
            final(self).inv(),
            final(self)@ == (GameModel {
                interval_ms: (if old(self)@.interval_ms + step_ms <= u64::MAX {
                    (old(self)@.interval_ms + step_ms) as nat
                } else {
                    u64::MAX as nat
                }),
                ..old(self)@
            }),
    {
        if self.frame_delay_ms <= u64::MAX - step_ms {
            self.frame_delay_ms = self.frame_delay_ms + step_ms;
        } else {
            self.frame_delay_ms = u64::MAX;
        }
    }

    /// Speeds the simulation up: subtracts `step_ms` from the tick interval,
    /// clamped from below by `floor_ms`.
    pub fn decrease_interval(&mut self, step_ms: u64, floor_ms: u64)
        requires
            old(self).inv(),
        ensures
            final(self).inv(),
            final(self)@ == (GameModel {
                interval_ms: (if old(self)@.interval_ms - step_ms >= floor_ms {
                    (old(self)@.interval_ms - step_ms) as nat
                } else {
                    floor_ms as nat
                }),
                ..old(self)@
            }),
    {
        if self.frame_delay_ms >= step_ms && self.frame_delay_ms - step_ms >= floor_ms {
            self.frame_delay_ms = self.frame_delay_ms - step_ms;
        } else {
            self.frame_delay_ms = floor_ms;
        }
    }
}


} // verus!
