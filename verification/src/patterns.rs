//! Starting patterns: glyphs written as rows of characters (`#` marks a
//! live cell) stamped onto the grid at an offset, and the seeding trait the
//! host calls once at startup to populate the board, including two
//! randomized regions.

use vstd::prelude::*;
use vstd::string::StrSliceExecFns;

use crate::game::GameOfLife;
use crate::life::{cell_at, GameModel};

verus! {

/// Whether `row`, stamped with its first character at column `x_off`,
/// marks column `x`.
pub open spec fn row_marks(row: Seq<char>, x_off: int, x: int) -> bool {
    0 <= x - x_off < row.len() && row[x - x_off] == '#'
}

/// Whether the glyph `pattern`, stamped with its top-left character at
/// `(x_off, y_off)`, marks grid cell `(x, y)`.
pub open spec fn pattern_marks(
    pattern: Seq<Seq<char>>,
    x_off: int,
    y_off: int,
    x: int,
    y: int,
) -> bool {
    0 <= y - y_off < pattern.len() && row_marks(pattern[y - y_off], x_off, x)
}

/// The character rows of a glyph given as string slices.
pub open spec fn rows_of(pattern: &[&str]) -> Seq<Seq<char>> {
    Seq::new(pattern@.len(), |k: int| pattern@[k]@)
}

/// Pulsar (oscillator, period 3), as stamped by `initialize_patterns`.
pub open spec fn pulsar_rows() -> Seq<Seq<char>> {
    seq!["....##...."@, "...#..#..."@, "..#....#.."@, ".#....#..."@, "#....#...."@, "##..##...."@, "....#....#"@, "....#....#"@, "....##..##"@, "....#....#"@]
}

/// Block (still life), as stamped by `initialize_patterns`.
pub open spec fn block_rows() -> Seq<Seq<char>> {
    seq![".##."@, "#..#"@, ".#.#"@, "..#."@]
}

/// Glider (spaceship, period 4), as stamped by `initialize_patterns`.
pub open spec fn glider_rows() -> Seq<Seq<char>> {
    seq![" # "@, "  #"@, "###"@]
}

/// Gosper glider gun (infinite growth), as stamped by `initialize_patterns`.
pub open spec fn gun_rows() -> Seq<Seq<char>> {
    seq!["........................#..........."@, "......................#.#..........."@, "............##......##............##"@, "...........#...#....##............##"@, "##........#.....#...##.............."@, "##........#...#.##....#.#..........."@, "..........#.....#.......#..........."@, "...........#...#...................."@, "............##......................"@]
}

/// Pentadecathlon (oscillator, period 15), as stamped by `initialize_patterns`.
pub open spec fn pentadecathlon_rows() -> Seq<Seq<char>> {
    seq!["##"@, "##"@, "##"@, "##"@, "##"@, "##"@, "##"@, "##"@, "##"@, "##"@]
}

/// Beacon (oscillator, period 2), as stamped by `initialize_patterns`.
pub open spec fn beacon_rows() -> Seq<Seq<char>> {
    seq!["##.."@, "#..."@, "...#"@, "..##"@]
}

/// Toad (oscillator, period 2), as stamped by `initialize_patterns`.
pub open spec fn toad_rows() -> Seq<Seq<char>> {
    seq![".###"@, "###."@]
}

/// Lightweight spaceship (period 4), as stamped by `initialize_patterns`.
pub open spec fn lwss_rows() -> Seq<Seq<char>> {
    seq!["#..#."@, "....#"@, "#...#"@, ".###."@]
}

/// Acorn (methuselah), as stamped by `initialize_patterns`.
pub open spec fn acorn_rows() -> Seq<Seq<char>> {
    seq![".#....."@, "...#..."@, "##..###"@]
}

/// Diehard (methuselah), as stamped by `initialize_patterns`.
pub open spec fn diehard_rows() -> Seq<Seq<char>> {
    seq!["......#."@, "##......"@, ".#...###"@]
}

/// R-pentomino (methuselah), as stamped by `initialize_patterns`.
pub open spec fn r_pentomino_rows() -> Seq<Seq<char>> {
    seq![".##"@, "##."@, ".#."@]
}

/// Blinker (oscillator, period 2), as stamped by `initialize_patterns`.
pub open spec fn blinker_rows() -> Seq<Seq<char>> {
    seq!["###"@]
}

/// Boat (still life), as stamped by `initialize_patterns`.
pub open spec fn boat_rows() -> Seq<Seq<char>> {
    seq!["##."@, "#.#"@, ".#."@]
}

/// Whether some glyph of the seeding catalog, at its stamped offset, marks
/// cell `(x, y)`.
pub open spec fn catalog_marks(x: int, y: int) -> bool {
    ||| pattern_marks(pulsar_rows(), 10, 10, x, y)
    ||| pattern_marks(block_rows(), 20, 15, x, y)
    ||| pattern_marks(glider_rows(), 15, 20, x, y)
    ||| pattern_marks(gun_rows(), 5, 40, x, y)
    ||| pattern_marks(pentadecathlon_rows(), 35, 10, x, y)
    ||| pattern_marks(beacon_rows(), 30, 25, x, y)
    ||| pattern_marks(toad_rows(), 40, 20, x, y)
    ||| pattern_marks(lwss_rows(), 50, 15, x, y)
    ||| pattern_marks(acorn_rows(), 45, 30, x, y)
    ||| pattern_marks(diehard_rows(), 25, 35, x, y)
    ||| pattern_marks(r_pentomino_rows(), 60, 10, x, y)
    ||| pattern_marks(blinker_rows(), 55, 25, x, y)
    ||| pattern_marks(boat_rows(), 65, 20, x, y)
}

/// Whether `(x, y)` lies in one of the two regions that seeding fills with
/// independently randomized cells: the disc of radius 10 around (15, 15)
/// and the square [45, 65) x [45, 65).
pub open spec fn in_random_region(x: int, y: int) -> bool {
    (5 <= x < 25 && 5 <= y < 25 && (x - 15) * (x - 15) + (y - 15) * (y - 15) <= 100) || (45 <= x
        < 65 && 45 <= y < 65)
}

/// Relies on `rand::random_ratio`: a Bernoulli draw from the thread-local
/// generator that is true with probability `numerator / denominator`. The
/// outcome is random; only the documented certain cases are promised.
#[verifier::external_body]
fn random_chance(numerator: u32, denominator: u32) -> (hit: bool)
    requires
        0 < denominator,
        numerator <= denominator,
    ensures
        numerator == denominator ==> hit,
        numerator == 0 ==> !hit,
{
    rand::random_ratio(numerator, denominator)
}

/// Seeds a board with a fixed catalog of starting shapes; meant to be
/// called exactly once, right after the board is created.
pub trait PatternInitializer {
    /// The well-formedness that seeding relies on and preserves.
    spec fn seed_inv(&self) -> bool;

    /// What seeding guarantees of the state it leaves behind, whatever the
    /// random draws returned.
    spec fn seeded(&self, post: &Self) -> bool;

    /// Clears the board and stamps the catalog of patterns onto it,
    /// together with two independently randomized regions.
    fn initialize_patterns(&mut self)
        requires
            old(self).seed_inv(),
        ensures
            final(self).seed_inv(),
            old(self).seeded(final(self)),
    ;
}

impl GameOfLife {
    /// Stamps a glyph: sets every cell that the glyph marks, leaves every
    /// other cell as it was; marks that fall outside the grid are ignored.
    pub fn set_pattern(&mut self, x_offset: usize, y_offset: usize, pattern: &[&str])
        requires
            old(self).inv(),
        ensures
            final(self).inv(),
            final(self)@ == (GameModel { cells: final(self)@.cells, ..old(self)@ }),
            forall|i: int, j: int|
                #[trigger] cell_at(final(self)@, i, j) == (cell_at(old(self)@, i, j) || (0 <= i
                    < old(self)@.width && 0 <= j < old(self)@.height && pattern_marks(
                    rows_of(pattern),
                    x_offset as int,
                    y_offset as int,
                    i,
                    j,
                ))),
    {
        let n = pattern.len();
        let mut py: usize = 0;
        while py < n
            invariant
                self.inv(),
                self@ == (GameModel { cells: self@.cells, ..old(self)@ }),
                py <= n,
                n == pattern@.len(),
                forall|i: int, j: int|
                    #[trigger] cell_at(self@, i, j) == (cell_at(old(self)@, i, j) || (0 <= i < old(
                        self,
                    )@.width && 0 <= j < old(self)@.height && 0 <= j - y_offset < py && row_marks(
                        rows_of(pattern)[j - y_offset],
                        x_offset as int,
                        i,
                    ))),
            decreases n - py,
        {
            let line: &str = pattern[py];
            let line_len = line.unicode_len();
            let mut px: usize = 0;
            while px < line_len
                invariant
                    self.inv(),
                    self@ == (GameModel { cells: self@.cells, ..old(self)@ }),
                    py < n,
                    px <= line_len,
                    n == pattern@.len(),
                    line@ == rows_of(pattern)[py as int],
                    line_len == line@.len(),
                    forall|i: int, j: int|
                        #[trigger] cell_at(self@, i, j) == (cell_at(old(self)@, i, j) || (0 <= i
                            < old(self)@.width && 0 <= j < old(self)@.height && ((0 <= j - y_offset
                            < py && row_marks(rows_of(pattern)[j - y_offset], x_offset as int, i))
                            || (j - y_offset == py && 0 <= i - x_offset < px && line@[i - x_offset]
                            == '#')))),
                decreases line_len - px,
            {
                proof {
                    self.lemma_dims_in_range();
                }
                let c = line.get_char(px);
                if c == '#' && px <= usize::MAX - x_offset && py <= usize::MAX - y_offset {
                    self.set_cell(x_offset + px, y_offset + py, true);
                }
                px += 1;
            }
            py += 1;
        }
    }
}

impl PatternInitializer for GameOfLife {
    open spec fn seed_inv(&self) -> bool {
        self.inv()
    }

    open spec fn seeded(&self, post: &GameOfLife) -> bool {
        &&& post@ == (GameModel { cells: post@.cells, generation: 0, ..self@ })
        &&& forall|x: int, y: int|
            0 <= x < self@.width && 0 <= y < self@.height && #[trigger] catalog_marks(x, y)
                ==> cell_at(post@, x, y)
        &&& forall|x: int, y: int|
            #[trigger] cell_at(post@, x, y) ==> catalog_marks(x, y) || in_random_region(x, y)
    }

    #[verifier::rlimit(60)]
    fn initialize_patterns(&mut self) {
        self.clear();
        let ghost s_clear = self@;
        // Pulsar (oscillator, period 3)
        let mut pulsar_v: Vec<&str> = Vec::new();
        pulsar_v.push("....##....");
        pulsar_v.push("...#..#...");
        pulsar_v.push("..#....#..");
        pulsar_v.push(".#....#...");
        pulsar_v.push("#....#....");
        pulsar_v.push("##..##....");
        pulsar_v.push("....#....#");
        pulsar_v.push("....#....#");
        pulsar_v.push("....##..##");
        pulsar_v.push("....#....#");
        let pulsar_s = pulsar_v.as_slice();
        self.set_pattern(10, 10, pulsar_s);
        let ghost s_pulsar = self@;
        proof {
            assert(rows_of(pulsar_s) =~= pulsar_rows());
            assert forall|i: int, j: int| #[trigger] cell_at(s_clear, i, j) implies cell_at(
                self@,
                i,
                j,
            ) by {}
            assert forall|i: int, j: int| #[trigger] cell_at(self@, i, j) implies catalog_marks(
                i,
                j,
            ) || in_random_region(i, j) by {}
        }
        // Block (still life)
        let mut block_v: Vec<&str> = Vec::new();
        block_v.push(".##.");
        block_v.push("#..#");
        block_v.push(".#.#");
        block_v.push("..#.");
        let block_s = block_v.as_slice();
        self.set_pattern(20, 15, block_s);
        let ghost s_block = self@;
        proof {
            assert(rows_of(block_s) =~= block_rows());
            assert forall|i: int, j: int| #[trigger] cell_at(s_pulsar, i, j) implies cell_at(
                self@,
                i,
                j,
            ) by {}
            assert forall|i: int, j: int| #[trigger] cell_at(self@, i, j) implies catalog_marks(
                i,
                j,
            ) || in_random_region(i, j) by {}
        }
        // Glider (spaceship, period 4)
        let mut glider_v: Vec<&str> = Vec::new();
        glider_v.push(" # ");
        glider_v.push("  #");
        glider_v.push("###");
        let glider_s = glider_v.as_slice();
        self.set_pattern(15, 20, glider_s);
        let ghost s_glider = self@;
        proof {
            assert(rows_of(glider_s) =~= glider_rows());
            assert forall|i: int, j: int| #[trigger] cell_at(s_block, i, j) implies cell_at(
                self@,
                i,
                j,
            ) by {}
            assert forall|i: int, j: int| #[trigger] cell_at(self@, i, j) implies catalog_marks(
                i,
                j,
            ) || in_random_region(i, j) by {}
        }
        // Random ring around (15, 15) at 40% density
        let ghost s_ring0 = self@;
        let mut x: usize = 5;
        while x < 25
            invariant
                self.inv(),
                5 <= x <= 25,
                self@ == (GameModel { cells: self@.cells, ..s_ring0 }),
                forall|i: int, j: int| #[trigger] cell_at(s_ring0, i, j) ==> cell_at(self@, i, j),
                forall|i: int, j: int|
                    #[trigger] cell_at(self@, i, j) ==> cell_at(s_ring0, i, j) || in_random_region(
                        i,
                        j,
                    ),
            decreases 25 - x,
        {
            let mut y: usize = 5;
            while y < 25
                invariant
                    self.inv(),
                    5 <= x < 25,
                    5 <= y <= 25,
                    self@ == (GameModel { cells: self@.cells, ..s_ring0 }),
                    forall|i: int, j: int|
                        #[trigger] cell_at(s_ring0, i, j) ==> cell_at(self@, i, j),
                    forall|i: int, j: int|
                        #[trigger] cell_at(self@, i, j) ==> cell_at(s_ring0, i, j)
                            || in_random_region(i, j),
                decreases 25 - y,
            {
                let dx: i32 = x as i32 - 15;
                let dy: i32 = y as i32 - 15;
                proof {
                    assert(0 <= dx * dx <= 100 && 0 <= dy * dy <= 100) by (nonlinear_arith)
                        requires
                            -10 <= dx <= 10,
                            -10 <= dy <= 10,
                    ;
                }
                if dx * dx + dy * dy <= 100 && random_chance(2, 5) {
                    proof {
                        assert(in_random_region(x as int, y as int));
                    }
                    self.set_cell(x, y, true);
                }
                y += 1;
            }
            x += 1;
        }
        let ghost s_ring = self@;
        // Gosper glider gun (infinite growth)
        let mut gun_v: Vec<&str> = Vec::new();
        gun_v.push("........................#...........");
        gun_v.push("......................#.#...........");
        gun_v.push("............##......##............##");
        gun_v.push("...........#...#....##............##");
        gun_v.push("##........#.....#...##..............");
        gun_v.push("##........#...#.##....#.#...........");
        gun_v.push("..........#.....#.......#...........");
        gun_v.push("...........#...#....................");
        gun_v.push("............##......................");
        let gun_s = gun_v.as_slice();
        self.set_pattern(5, 40, gun_s);
        let ghost s_gun = self@;
        proof {
            assert(rows_of(gun_s) =~= gun_rows());
            assert forall|i: int, j: int| #[trigger] cell_at(s_ring, i, j) implies cell_at(
                self@,
                i,
                j,
            ) by {}
            assert forall|i: int, j: int| #[trigger] cell_at(self@, i, j) implies catalog_marks(
                i,
                j,
            ) || in_random_region(i, j) by {}
        }
        // Pentadecathlon (oscillator, period 15)
        let mut pentadecathlon_v: Vec<&str> = Vec::new();
        pentadecathlon_v.push("##");
        pentadecathlon_v.push("##");
        pentadecathlon_v.push("##");
        pentadecathlon_v.push("##");
        pentadecathlon_v.push("##");
        pentadecathlon_v.push("##");
        pentadecathlon_v.push("##");
        pentadecathlon_v.push("##");
        pentadecathlon_v.push("##");
        pentadecathlon_v.push("##");
        let pentadecathlon_s = pentadecathlon_v.as_slice();
        self.set_pattern(35, 10, pentadecathlon_s);
        let ghost s_pentadecathlon = self@;
        proof {
            assert(rows_of(pentadecathlon_s) =~= pentadecathlon_rows());
            assert forall|i: int, j: int| #[trigger] cell_at(s_gun, i, j) implies cell_at(
                self@,
                i,
                j,
            ) by {}
            assert forall|i: int, j: int| #[trigger] cell_at(self@, i, j) implies catalog_marks(
                i,
                j,
            ) || in_random_region(i, j) by {}
        }
        // Beacon (oscillator, period 2)
        let mut beacon_v: Vec<&str> = Vec::new();
        beacon_v.push("##..");
        beacon_v.push("#...");
        beacon_v.push("...#");
        beacon_v.push("..##");
        let beacon_s = beacon_v.as_slice();
        self.set_pattern(30, 25, beacon_s);
        let ghost s_beacon = self@;
        proof {
            assert(rows_of(beacon_s) =~= beacon_rows());
            assert forall|i: int, j: int| #[trigger] cell_at(s_pentadecathlon, i, j) implies cell_at(
                self@,
                i,
                j,
            ) by {}
            assert forall|i: int, j: int| #[trigger] cell_at(self@, i, j) implies catalog_marks(
                i,
                j,
            ) || in_random_region(i, j) by {}
        }
        // Toad (oscillator, period 2)
        let mut toad_v: Vec<&str> = Vec::new();
        toad_v.push(".###");
        toad_v.push("###.");
        let toad_s = toad_v.as_slice();
        self.set_pattern(40, 20, toad_s);
        let ghost s_toad = self@;
        proof {
            assert(rows_of(toad_s) =~= toad_rows());
            assert forall|i: int, j: int| #[trigger] cell_at(s_beacon, i, j) implies cell_at(
                self@,
                i,
                j,
            ) by {}
            assert forall|i: int, j: int| #[trigger] cell_at(self@, i, j) implies catalog_marks(
                i,
                j,
            ) || in_random_region(i, j) by {}
        }
        // Lightweight spaceship (period 4)
        let mut lwss_v: Vec<&str> = Vec::new();
        lwss_v.push("#..#.");
        lwss_v.push("....#");
        lwss_v.push("#...#");
        lwss_v.push(".###.");
        let lwss_s = lwss_v.as_slice();
        self.set_pattern(50, 15, lwss_s);
        let ghost s_lwss = self@;
        proof {
            assert(rows_of(lwss_s) =~= lwss_rows());
            assert forall|i: int, j: int| #[trigger] cell_at(s_toad, i, j) implies cell_at(
                self@,
                i,
                j,
            ) by {}
            assert forall|i: int, j: int| #[trigger] cell_at(self@, i, j) implies catalog_marks(
                i,
                j,
            ) || in_random_region(i, j) by {}
        }
        // Acorn (methuselah)
        let mut acorn_v: Vec<&str> = Vec::new();
        acorn_v.push(".#.....");
        acorn_v.push("...#...");
        acorn_v.push("##..###");
        let acorn_s = acorn_v.as_slice();
        self.set_pattern(45, 30, acorn_s);
        let ghost s_acorn = self@;
        proof {
            assert(rows_of(acorn_s) =~= acorn_rows());
            assert forall|i: int, j: int| #[trigger] cell_at(s_lwss, i, j) implies cell_at(
                self@,
                i,
                j,
            ) by {}
            assert forall|i: int, j: int| #[trigger] cell_at(self@, i, j) implies catalog_marks(
                i,
                j,
            ) || in_random_region(i, j) by {}
        }
        // Diehard (methuselah)
        let mut diehard_v: Vec<&str> = Vec::new();
        diehard_v.push("......#.");
        diehard_v.push("##......");
        diehard_v.push(".#...###");
        let diehard_s = diehard_v.as_slice();
        self.set_pattern(25, 35, diehard_s);
        let ghost s_diehard = self@;
        proof {
            assert(rows_of(diehard_s) =~= diehard_rows());
            assert forall|i: int, j: int| #[trigger] cell_at(s_acorn, i, j) implies cell_at(
                self@,
                i,
                j,
            ) by {}
            assert forall|i: int, j: int| #[trigger] cell_at(self@, i, j) implies catalog_marks(
                i,
                j,
            ) || in_random_region(i, j) by {}
        }
        // R-pentomino (methuselah)
        let mut r_pentomino_v: Vec<&str> = Vec::new();
        r_pentomino_v.push(".##");
        r_pentomino_v.push("##.");
        r_pentomino_v.push(".#.");
        let r_pentomino_s = r_pentomino_v.as_slice();
        self.set_pattern(60, 10, r_pentomino_s);
        let ghost s_r_pentomino = self@;
        proof {
            assert(rows_of(r_pentomino_s) =~= r_pentomino_rows());
            assert forall|i: int, j: int| #[trigger] cell_at(s_diehard, i, j) implies cell_at(
                self@,
                i,
                j,
            ) by {}
            assert forall|i: int, j: int| #[trigger] cell_at(self@, i, j) implies catalog_marks(
                i,
                j,
            ) || in_random_region(i, j) by {}
        }
        // Blinker (oscillator, period 2)
        let mut blinker_v: Vec<&str> = Vec::new();
        blinker_v.push("###");
        let blinker_s = blinker_v.as_slice();
        self.set_pattern(55, 25, blinker_s);
        let ghost s_blinker = self@;
        proof {
            assert(rows_of(blinker_s) =~= blinker_rows());
            assert forall|i: int, j: int| #[trigger] cell_at(s_r_pentomino, i, j) implies cell_at(
                self@,
                i,
                j,
            ) by {}
            assert forall|i: int, j: int| #[trigger] cell_at(self@, i, j) implies catalog_marks(
                i,
                j,
            ) || in_random_region(i, j) by {}
        }
        // Boat (still life)
        let mut boat_v: Vec<&str> = Vec::new();
        boat_v.push("##.");
        boat_v.push("#.#");
        boat_v.push(".#.");
        let boat_s = boat_v.as_slice();
        self.set_pattern(65, 20, boat_s);
        let ghost s_boat = self@;
        proof {
            assert(rows_of(boat_s) =~= boat_rows());
            assert forall|i: int, j: int| #[trigger] cell_at(s_blinker, i, j) implies cell_at(
                self@,
                i,
                j,
            ) by {}
            assert forall|i: int, j: int| #[trigger] cell_at(self@, i, j) implies catalog_marks(
                i,
                j,
            ) || in_random_region(i, j) by {}
        }
        // Random cluster at 30% density
        let ghost s_cluster0 = self@;
        let mut cx: usize = 45;
        while cx < 65
            invariant
                self.inv(),
                45 <= cx <= 65,
                self@ == (GameModel { cells: self@.cells, ..s_cluster0 }),
                forall|i: int, j: int|
                    #[trigger] cell_at(s_cluster0, i, j) ==> cell_at(self@, i, j),
                forall|i: int, j: int|
                    #[trigger] cell_at(self@, i, j) ==> cell_at(s_cluster0, i, j)
                        || in_random_region(i, j),
            decreases 65 - cx,
        {
            let mut cy: usize = 45;
            while cy < 65
                invariant
                    self.inv(),
                    45 <= cx < 65,
                    45 <= cy <= 65,
                    self@ == (GameModel { cells: self@.cells, ..s_cluster0 }),
                    forall|i: int, j: int|
                        #[trigger] cell_at(s_cluster0, i, j) ==> cell_at(self@, i, j),
                    forall|i: int, j: int|
                        #[trigger] cell_at(self@, i, j) ==> cell_at(s_cluster0, i, j)
                            || in_random_region(i, j),
                decreases 65 - cy,
            {
                if random_chance(3, 10) {
                    self.set_cell(cx, cy, true);
                }
                cy += 1;
            }
            cx += 1;
        }
        proof {
            assert(self@ == (GameModel {
                cells: self@.cells,
                generation: 0,
                ..old(self)@
            }));
            assert forall|i: int, j: int|
                0 <= i < old(self)@.width && 0 <= j < old(self)@.height && #[trigger] catalog_marks(
                    i,
                    j,
                ) implies cell_at(self@, i, j) by {
                if pattern_marks(pulsar_rows(), 10, 10, i, j) {
                    assert(cell_at(s_pulsar, i, j));
                }
                if pattern_marks(block_rows(), 20, 15, i, j) {
                    assert(cell_at(s_block, i, j));
                }
                if pattern_marks(glider_rows(), 15, 20, i, j) {
                    assert(cell_at(s_glider, i, j));
                }
                if pattern_marks(gun_rows(), 5, 40, i, j) {
                    assert(cell_at(s_gun, i, j));
                }
                if pattern_marks(pentadecathlon_rows(), 35, 10, i, j) {
                    assert(cell_at(s_pentadecathlon, i, j));
                }
                if pattern_marks(beacon_rows(), 30, 25, i, j) {
                    assert(cell_at(s_beacon, i, j));
                }
                if pattern_marks(toad_rows(), 40, 20, i, j) {
                    assert(cell_at(s_toad, i, j));
                }
                if pattern_marks(lwss_rows(), 50, 15, i, j) {
                    assert(cell_at(s_lwss, i, j));
                }
                if pattern_marks(acorn_rows(), 45, 30, i, j) {
                    assert(cell_at(s_acorn, i, j));
                }
                if pattern_marks(diehard_rows(), 25, 35, i, j) {
                    assert(cell_at(s_diehard, i, j));
                }
                if pattern_marks(r_pentomino_rows(), 60, 10, i, j) {
                    assert(cell_at(s_r_pentomino, i, j));
                }
                if pattern_marks(blinker_rows(), 55, 25, i, j) {
                    assert(cell_at(s_blinker, i, j));
                }
                if pattern_marks(boat_rows(), 65, 20, i, j) {
                    assert(cell_at(s_boat, i, j));
                }
            }
            assert forall|i: int, j: int| #[trigger] cell_at(self@, i, j) implies catalog_marks(
                i,
                j,
            ) || in_random_region(i, j) by {}
        }
    }
}

} // verus!
