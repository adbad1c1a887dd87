use vstd::prelude::*;
use vstd::utf8::encode_utf8;
use crate::text::chars_of;

verus! {

/// 19 columns x 21 rows. '#' wall, '.' pellet, ' ' empty, 'P' player, 'G' ghost.
pub const MAZE: &'static [&'static str; 21] = &[
    "###################",
    "#........#........#",
    "#.###.###.###.###.#",
    "#.................#",
    "#.###.#.###.#.###.#",
    "#.....#..#..#.....#",
    "#####.##.#.##.#####",
    "#   #.#  G  #.#   #",
    "#####.# ### #.#####",
    "#........#........#",
    "#.###.###.###.###.#",
    "#...#....P....#...#",
    "###.#.#.###.#.#.###",
    "#.....#..#..#.....#",
    "#.#######.#######.#",
    "#.................#",
    "#.###.###.###.###.#",
    "#...#.........#...#",
    "#.#.#.#######.#.#.#",
    "#.................#",
    "###################",
];

} // verus!

verus! {

/// What a cell of the maze is made of.
#[derive(Clone, Copy, PartialEq, Eq, Debug, Structural)]
pub enum Tile {
    Wall,
    Open,
}

/// A tile grid read from ASCII art: walls, pellets, and the start positions
/// of the player and the ghosts.
pub struct Maze {
    pub cols: i32,
    pub rows: i32,
    pub tiles: Vec<Tile>,
    pub pellets: Vec<bool>,
    pub player_start: (i32, i32),
    pub ghost_starts: Vec<(i32, i32)>,
    pub pellet_total: usize,
}

// ---------------------------------------------------------------------------
// The ASCII source
// ---------------------------------------------------------------------------

/// The characters of each row.
pub open spec fn lines_of(rows: Seq<&str>) -> Seq<Seq<char>> {
    Seq::new(rows.len(), |i: int| rows[i]@)
}

/// Length in bytes of the UTF-8 encoding, which is what `str::len` counts.
pub open spec fn byte_len(s: Seq<char>) -> nat {
    encode_utf8(s).len()
}

/// The longest byte length among the first `n` rows (zero for none).
pub open spec fn max_width(lines: Seq<Seq<char>>, n: int) -> nat
    decreases n,
{
    if n <= 0 {
        0
    } else {
        let m = max_width(lines, n - 1);
        let b = byte_len(lines[n - 1]);
        if b > m {
            b
        } else {
            m
        }
    }
}

pub open spec fn width_of(lines: Seq<Seq<char>>) -> nat {
    max_width(lines, lines.len() as int)
}

/// The grid of `lines` fits the `i32` arithmetic the maze is indexed with.
pub open spec fn fits_grid(lines: Seq<Seq<char>>) -> bool {
    &&& lines.len() <= i32::MAX
    &&& width_of(lines) <= i32::MAX
    &&& width_of(lines) * lines.len() <= i32::MAX
}

/// The character at column `c` of row `r`, if the row has one there.
pub open spec fn cell(lines: Seq<Seq<char>>, c: int, r: int) -> Option<char> {
    if 0 <= r < lines.len() && 0 <= c < lines[r].len() {
        Some(lines[r][c])
    } else {
        None
    }
}

/// Positions `(column, row)` of `ch` among the first `k` characters of row `r`.
pub open spec fn row_positions(line: Seq<char>, r: int, ch: char, k: int) -> Seq<(i32, i32)>
    decreases k,
{
    if k <= 0 {
        seq![]
    } else {
        row_positions(line, r, ch, k - 1) + if line[k - 1] == ch {
            seq![((k - 1) as i32, r as i32)]
        } else {
            seq![]
        }
    }
}

/// Positions of `ch` in the first `n` rows, row by row, left to right.
pub open spec fn grid_positions(lines: Seq<Seq<char>>, ch: char, n: int) -> Seq<(i32, i32)>
    decreases n,
{
    if n <= 0 {
        seq![]
    } else {
        grid_positions(lines, ch, n - 1) + row_positions(
            lines[n - 1],
            n - 1,
            ch,
            lines[n - 1].len() as int,
        )
    }
}

/// Positions of `ch` in the whole grid, row by row, left to right.
pub open spec fn positions(lines: Seq<Seq<char>>, ch: char) -> Seq<(i32, i32)> {
    grid_positions(lines, ch, lines.len() as int)
}

/// Where the player starts: the last 'P' of the grid, or (1, 1) without one.
pub open spec fn start_from(ps: Seq<(i32, i32)>) -> (i32, i32) {
    if ps.len() > 0 {
        ps.last()
    } else {
        (1i32, 1i32)
    }
}

/// Row-major position of cell `(c, r)` in a grid `cols` wide.
pub open spec fn flat(cols: int, c: int, r: int) -> int {
    r * cols + c
}

/// The number of `true` entries.
pub open spec fn count_true(s: Seq<bool>) -> nat
    decreases s.len(),
{
    if s.len() == 0 {
        0
    } else {
        count_true(s.drop_last()) + if s.last() {
            1nat
        } else {
            0nat
        }
    }
}

// ---------------------------------------------------------------------------
// Lemmas
// ---------------------------------------------------------------------------

pub proof fn lemma_flat_bound(cols: int, rows: int, c: int, r: int)
    by (nonlinear_arith)
    requires
        0 <= c < cols,
        0 <= r < rows,
    ensures
        0 <= flat(cols, c, r) < cols * rows,
{
    assert(r * cols + c < (r + 1) * cols);
    assert((r + 1) * cols <= rows * cols);
}

pub proof fn lemma_flat_injective(cols: int, c1: int, r1: int, c2: int, r2: int)
    by (nonlinear_arith)
    requires
        0 <= c1 < cols,
        0 <= c2 < cols,
        0 <= r1,
        0 <= r2,
        c1 != c2 || r1 != r2,
    ensures
        flat(cols, c1, r1) != flat(cols, c2, r2),
{
    if r1 < r2 {
        assert(r1 * cols + c1 < (r1 + 1) * cols);
        assert((r1 + 1) * cols <= r2 * cols);
    } else if r2 < r1 {
        assert(r2 * cols + c2 < (r2 + 1) * cols);
        assert((r2 + 1) * cols <= r1 * cols);
    }
}

pub proof fn lemma_count_true_update(s: Seq<bool>, i: int, v: bool)
    requires
        0 <= i < s.len(),
    ensures
        count_true(s.update(i, v)) + (if s[i] { 1int } else { 0int }) == count_true(s) + (if v {
            1int
        } else {
            0int
        }),
    decreases s.len(),
{
    let t = s.update(i, v);
    if i == s.len() - 1 {
        assert(t.drop_last() =~= s.drop_last());
    } else {
        lemma_count_true_update(s.drop_last(), i, v);
        assert(t.drop_last() =~= s.drop_last().update(i, v));
    }
}

pub proof fn lemma_count_true_push(s: Seq<bool>, v: bool)
    ensures
        count_true(s.push(v)) == count_true(s) + if v { 1nat } else { 0nat },
{
    assert(s.push(v).drop_last() =~= s);
}

pub proof fn lemma_count_true_bound(s: Seq<bool>)
    ensures
        count_true(s) <= s.len(),
    decreases s.len(),
{
    if s.len() > 0 {
        lemma_count_true_bound(s.drop_last());
    }
}

/// A row holds no more characters than its UTF-8 encoding holds bytes.
pub proof fn lemma_chars_le_bytes(s: Seq<char>)
    ensures
        s.len() <= byte_len(s),
    decreases s.len(),
{
    if s.len() > 0 {
        lemma_chars_le_bytes(s.drop_first());
    }
}

pub proof fn lemma_max_width(lines: Seq<Seq<char>>, n: int, i: int)
    requires
        0 <= i < n <= lines.len(),
    ensures
        byte_len(lines[i]) <= max_width(lines, n),
        max_width(lines, n) <= max_width(lines, lines.len() as int),
    decreases n,
{
    if i < n - 1 {
        lemma_max_width(lines, n - 1, i);
    }
    lemma_max_width_mono(lines, n, lines.len() as int);
}

pub proof fn lemma_max_width_mono(lines: Seq<Seq<char>>, n: int, m: int)
    requires
        0 <= n <= m,
    ensures
        max_width(lines, n) <= max_width(lines, m),
    decreases m - n,
{
    if n < m {
        lemma_max_width_mono(lines, n, m - 1);
    }
}

} // verus!

verus! {

impl Maze {
    /// Which cells are walls, row by row.
    pub open spec fn walls(self) -> Seq<bool> {
        self.tiles@.map_values(|t: Tile| t == Tile::Wall)
    }

    /// Which cells hold a pellet, row by row.
    pub open spec fn pellet_cells(self) -> Seq<bool> {
        self.pellets@
    }

    /// The grid's dimensions agree with its cells and fit in `i32`.
    pub open spec fn wf(self) -> bool {
        &&& 0 <= self.cols
        &&& 0 <= self.rows
        &&& self.cols * self.rows <= i32::MAX
        &&& self.walls().len() == self.cols * self.rows
        &&& self.pellet_cells().len() == self.cols * self.rows
    }

    pub open spec fn inside(self, c: int, r: int) -> bool {
        0 <= c < self.cols && 0 <= r < self.rows
    }

    /// Whether `(c, r)` blocks movement: every cell outside the grid does.
    pub open spec fn wall_at(self, c: int, r: int) -> bool {
        !self.inside(c, r) || self.walls()[flat(self.cols as int, c, r)]
    }

    pub open spec fn pellet_on(self, c: int, r: int) -> bool {
        self.inside(c, r) && self.pellet_cells()[flat(self.cols as int, c, r)]
    }

    /// How many pellets are left.
    pub open spec fn pellet_count(self) -> nat {
        count_true(self.pellet_cells())
    }

    /// No pellet lies on a wall (and so none outside the grid).
    pub open spec fn pellets_off_walls(self) -> bool {
        forall|c: int, r: int| #[trigger] self.pellet_on(c, r) ==> !self.wall_at(c, r)
    }

    /// The cells `(c, r)` that hold a pellet.
    pub open spec fn pellet_cell_set(self) -> Set<(int, int)> {
        Set::new(|p: (int, int)| self.pellet_on(p.0, p.1))
    }

    /// `new` is `self` with the pellet at `(c, r)` eaten, if there is one
    /// (`ate` tells which); nothing else differs.
    pub open spec fn eat_result(self, new: Maze, c: int, r: int, ate: bool) -> bool {
        &&& ate == self.pellet_on(c, r)
        &&& new.cols == self.cols
        &&& new.rows == self.rows
        &&& new.walls() == self.walls()
        &&& new.player_start == self.player_start
        &&& new.ghost_starts@ == self.ghost_starts@
        &&& new.pellet_total == self.pellet_total
        &&& new.pellet_cells() == if ate {
            self.pellet_cells().update(flat(self.cols as int, c, r), false)
        } else {
            self.pellet_cells()
        }
    }

    fn in_bounds(&self, c: i32, r: i32) -> (b: bool)
        ensures
            b == self.inside(c as int, r as int),
    {
        c >= 0 && r >= 0 && c < self.cols && r < self.rows
    }

    fn index(&self, c: i32, r: i32) -> (i: usize)
        requires
            self.wf(),
            self.inside(c as int, r as int),
        ensures
            i == flat(self.cols as int, c as int, r as int),
            i < self.cols * self.rows,
    {
        proof {
            lemma_flat_bound(self.cols as int, self.rows as int, c as int, r as int);
        }
        (r * self.cols + c) as usize
    }

    /// True for walls and for every cell outside the grid.
    pub fn is_wall(&self, c: i32, r: i32) -> (b: bool)
        requires
            self.wf(),
        ensures
            b == self.wall_at(c as int, r as int),
    {
        if !self.in_bounds(c, r) {
            return true;
        }
        self.tiles[self.index(c, r)] == Tile::Wall
    }

    pub fn pellet_at(&self, c: i32, r: i32) -> (b: bool)
        requires
            self.wf(),
        ensures
            b == self.pellet_on(c as int, r as int),
    {
        self.in_bounds(c, r) && self.pellets[self.index(c, r)]
    }

    /// Eats the pellet at `(c, r)` if there is one. Returns whether it did;
    /// the pellet count then drops by exactly one.
    pub fn eat(&mut self, c: i32, r: i32) -> (ate: bool)
        requires
            old(self).wf(),
        ensures
            final(self).wf(),
            old(self).eat_result(*final(self), c as int, r as int, ate),
            !final(self).pellet_on(c as int, r as int),
            final(self).pellet_count() + (if ate { 1int } else { 0int }) == old(self).pellet_count(),
            old(self).pellets_off_walls() ==> final(self).pellets_off_walls(),
    {
        if self.pellet_at(c, r) {
            let i = self.index(c, r);
            self.pellets.set(i, false);
            proof {
                lemma_eat_result(*old(self), *self, c as int, r as int, true);
            }
            true
        } else {
            false
        }
    }

    /// How many pellets are left.
    pub fn pellets_remaining(&self) -> (n: usize)
        requires
            self.wf(),
        ensures
            n == self.pellet_count(),
    {
        let mut n: usize = 0;
        let mut i: usize = 0;
        while i < self.pellets.len()
            invariant
                i <= self.pellets@.len(),
                n == count_true(self.pellets@.take(i as int)),
                n <= i,
            decreases self.pellets@.len() - i,
        {
            proof {
                assert(self.pellets@.take(i + 1) =~= self.pellets@.take(i as int).push(
                    self.pellets@[i as int],
                ));
                lemma_count_true_push(self.pellets@.take(i as int), self.pellets@[i as int]);
            }
            if self.pellets[i] {
                n += 1;
            }
            i += 1;
        }
        assert(self.pellets@.take(i as int) =~= self.pellets@);
        n
    }

    /// True once every pellet has been eaten.
    pub fn cleared(&self) -> (b: bool)
        requires
            self.wf(),
        ensures
            b == (self.pellet_count() == 0),
    {
        self.pellets_remaining() == 0
    }
}

} // verus!

verus! {

/// Cell `(cc, rr)` comes before cell `(c, r)` in row-major reading order.
pub open spec fn before(cc: int, rr: int, c: int, r: int) -> bool {
    rr < r || (rr == r && cc < c)
}

impl Maze {
    /// Reads a maze from rows of ASCII art: `#` is a wall, `.` a pellet, `P`
    /// the player's start and `G` a ghost's start; anything else is open
    /// floor. The grid is as wide as the longest row in bytes; cells past the
    /// end of a shorter row are open.
    pub fn from_ascii(rows: &[&str]) -> (m: Self)
        requires
            fits_grid(lines_of(rows@)),
        ensures
            m.wf(),
            m.rows == rows@.len(),
            m.cols == width_of(lines_of(rows@)),
            forall|c: int, r: int|
                m.inside(c, r) ==> (#[trigger] m.wall_at(c, r) <==> cell(lines_of(rows@), c, r)
                    == Some('#')),
            forall|c: int, r: int|
                m.inside(c, r) ==> (#[trigger] m.pellet_on(c, r) <==> cell(lines_of(rows@), c, r)
                    == Some('.')),
            m.ghost_starts@ == positions(lines_of(rows@), 'G'),
            m.player_start == start_from(positions(lines_of(rows@), 'P')),
            m.pellet_total == positions(lines_of(rows@), '.').len(),
            m.pellet_total == m.pellet_count(),
            m.pellets_off_walls(),
    {
        let ghost lines = lines_of(rows@);
        let height = rows.len();
        let mut width: usize = 0;
        let mut i: usize = 0;
        while i < height
            invariant
                height == rows@.len(),
                lines == lines_of(rows@),
                fits_grid(lines),
                i <= height,
                width == max_width(lines, i as int),
            decreases height - i,
        {
            proof {
                lemma_max_width(lines, i + 1, i as int);
            }
            let l = rows[i].len();
            if l > width {
                width = l;
            }
            i += 1;
        }
        let cols = width as i32;
        let nrows = height as i32;
        let n = width * height;
        let mut tiles: Vec<Tile> = Vec::new();
        let mut pellets: Vec<bool> = Vec::new();
        let mut k: usize = 0;
        while k < n
            invariant
                k <= n,
                tiles@.len() == k,
                pellets@.len() == k,
                forall|j: int| 0 <= j < k ==> tiles@[j] == Tile::Open,
                forall|j: int| 0 <= j < k ==> !pellets@[j],
            decreases n - k,
        {
            tiles.push(Tile::Open);
            pellets.push(false);
            k += 1;
        }
        proof {
            assert(count_true(pellets@) == 0) by {
                let z = pellets@;
                assert forall|len: int| 0 <= len <= z.len() implies count_true(#[trigger] z.take(len))
                    == 0 by {
                    lemma_count_true_zero(z, len);
                }
                assert(z.take(z.len() as int) =~= z);
            }
        }
        proof {
            assert forall|rr: int, cc: int| 0 <= rr < height && 0 <= cc < width implies
                (#[trigger] tiles@[flat(width as int, cc, rr)] == Tile::Wall <==> (before(cc, rr, 0, 0)
                && cell(lines, cc, rr) == Some('#'))) by {
                lemma_flat_bound(width as int, height as int, cc, rr);
            }
            assert forall|rr: int, cc: int| 0 <= rr < height && 0 <= cc < width implies
                (#[trigger] pellets@[flat(width as int, cc, rr)] <==> (before(cc, rr, 0, 0)
                && cell(lines, cc, rr) == Some('.'))) by {
                lemma_flat_bound(width as int, height as int, cc, rr);
            }
            assert(cells_read(lines, width as int, height as int, 0, 0, tiles@, pellets@));
        }
        let mut player_start: (i32, i32) = (1, 1);
        let mut ghost_starts: Vec<(i32, i32)> = Vec::new();
        let mut pellet_total: usize = 0;
        let mut r: usize = 0;
        while r < height
            invariant
                height == rows@.len(),
                lines == lines_of(rows@),
                fits_grid(lines),
                width == width_of(lines),
                n == width * height,
                r <= height,
                tiles@.len() == n,
                pellets@.len() == n,
                cells_read(lines, width as int, height as int, 0, r as int, tiles@, pellets@),
                ghost_starts@ == grid_positions(lines, 'G', r as int),
                player_start == start_from(grid_positions(lines, 'P', r as int)),
                pellet_total == grid_positions(lines, '.', r as int).len(),
                pellet_total == count_true(pellets@),
            decreases height - r,
        {
            let line = chars_of(rows[r]);
            proof {
                assert(lines[r as int] == line@);
                lemma_max_width(lines, height as int, r as int);
                lemma_chars_le_bytes(line@);
            }
            let mut c: usize = 0;
            while c < line.len()
                invariant
                    height == rows@.len(),
                    lines == lines_of(rows@),
                    fits_grid(lines),
                    width == width_of(lines),
                    n == width * height,
                    r < height,
                    line@ == lines[r as int],
                    line@.len() <= width,
                    c <= line@.len(),
                    tiles@.len() == n,
                    pellets@.len() == n,
                    cells_read(lines, width as int, height as int, c as int, r as int, tiles@, pellets@),
                    ghost_starts@ == grid_positions(lines, 'G', r as int) + row_positions(
                        line@,
                        r as int,
                        'G',
                        c as int,
                    ),
                    player_start == start_from(
                        grid_positions(lines, 'P', r as int) + row_positions(
                            line@,
                            r as int,
                            'P',
                            c as int,
                        ),
                    ),
                    pellet_total == (grid_positions(lines, '.', r as int) + row_positions(
                        line@,
                        r as int,
                        '.',
                        c as int,
                    )).len(),
                    pellet_total == count_true(pellets@),
                decreases line@.len() - c,
            {
                let ch = line[c];
                proof {
                    lemma_flat_bound(width as int, height as int, c as int, r as int);
                }
                let idx = r * width + c;
                let ghost old_tiles = tiles@;
                let ghost old_pellets = pellets@;
                proof {
                    assert(cell(lines, c as int, r as int) == Some(ch));
                    assert(idx == flat(width as int, c as int, r as int));
                    assert(!pellets@[idx as int]);
                }
                if ch == '#' {
                    tiles.set(idx, Tile::Wall);
                } else if ch == '.' {
                    pellets.set(idx, true);
                    proof {
                        lemma_count_true_update(old_pellets, idx as int, true);
                        lemma_count_true_bound(pellets@);
                    }
                    pellet_total += 1;
                } else if ch == 'P' {
                    player_start = (c as i32, r as i32);
                } else if ch == 'G' {
                    ghost_starts.push((c as i32, r as i32));
                }
                proof {
                    lemma_cells_step(
                        lines,
                        width as int,
                        height as int,
                        c as int,
                        r as int,
                        old_tiles,
                        tiles@,
                        old_pellets,
                        pellets@,
                    );
                    lemma_positions_step(grid_positions(lines, 'G', r as int), line@, r as int, c as int, 'G');
                    lemma_positions_step(grid_positions(lines, 'P', r as int), line@, r as int, c as int, 'P');
                    lemma_positions_step(grid_positions(lines, '.', r as int), line@, r as int, c as int, '.');
                }
                c += 1;
            }
            proof {
                lemma_row_done(lines, width as int, height as int, r as int, tiles@, pellets@);
                assert(grid_positions(lines, 'G', r + 1) == grid_positions(lines, 'G', r as int)
                    + row_positions(line@, r as int, 'G', c as int));
                assert(grid_positions(lines, 'P', r + 1) == grid_positions(lines, 'P', r as int)
                    + row_positions(line@, r as int, 'P', c as int));
                assert(grid_positions(lines, '.', r + 1) == grid_positions(lines, '.', r as int)
                    + row_positions(line@, r as int, '.', c as int));
            }
            r += 1;
        }
        let m = Maze {
            cols,
            rows: nrows,
            tiles,
            pellets,
            player_start,
            ghost_starts,
            pellet_total,
        };
        proof {
            assert forall|c: int, r: int| m.inside(c, r) implies (#[trigger] m.wall_at(c, r)
                <==> cell(lines, c, r) == Some('#')) by {
                lemma_flat_bound(width as int, height as int, c, r);
                assert(m.walls()[flat(width as int, c, r)] == (m.tiles@[flat(width as int, c, r)]
                    == Tile::Wall));
            }
        }
        proof {
            assert forall|c: int, r: int| m.inside(c, r) implies (#[trigger] m.pellet_on(c, r)
                <==> cell(lines, c, r) == Some('.')) by {
                lemma_flat_bound(width as int, height as int, c, r);
            }
            assert forall|c: int, r: int| #[trigger] m.pellet_on(c, r) implies !m.wall_at(c, r) by {
                lemma_flat_bound(width as int, height as int, c, r);
                assert(m.walls()[flat(width as int, c, r)] == (m.tiles@[flat(width as int, c, r)]
                    == Tile::Wall));
            }
        }
        m
    }
}

proof fn lemma_count_true_zero(z: Seq<bool>, len: int)
    requires
        0 <= len <= z.len(),
        forall|j: int| 0 <= j < z.len() ==> !z[j],
    ensures
        count_true(z.take(len)) == 0,
    decreases len,
{
    if len > 0 {
        lemma_count_true_zero(z, len - 1);
        assert(z.take(len).drop_last() =~= z.take(len - 1));
    }
}

} // verus!

verus! {

/// The cells read so far hold exactly the walls and pellets of the cells
/// before `(c, r)`.
spec fn cells_read(
    lines: Seq<Seq<char>>,
    w: int,
    h: int,
    c: int,
    r: int,
    t: Seq<Tile>,
    p: Seq<bool>,
) -> bool {
    &&& forall|rr: int, cc: int|
        0 <= rr < h && 0 <= cc < w ==> (#[trigger] t[flat(w, cc, rr)] == Tile::Wall <==> (before(
            cc,
            rr,
            c,
            r,
        ) && cell(lines, cc, rr) == Some('#')))
    &&& forall|rr: int, cc: int|
        0 <= rr < h && 0 <= cc < w ==> (#[trigger] p[flat(w, cc, rr)] <==> (before(cc, rr, c, r)
            && cell(lines, cc, rr) == Some('.')))
}

proof fn lemma_cells_step(
    lines: Seq<Seq<char>>,
    w: int,
    h: int,
    c: int,
    r: int,
    old_t: Seq<Tile>,
    new_t: Seq<Tile>,
    old_p: Seq<bool>,
    new_p: Seq<bool>,
)
    requires
        0 <= r < h,
        h == lines.len(),
        0 <= c < lines[r].len() <= w,
        old_t.len() == w * h,
        old_p.len() == w * h,
        cells_read(lines, w, h, c, r, old_t, old_p),
        new_t == (if lines[r][c] == '#' {
            old_t.update(flat(w, c, r), Tile::Wall)
        } else {
            old_t
        }),
        new_p == (if lines[r][c] == '.' {
            old_p.update(flat(w, c, r), true)
        } else {
            old_p
        }),
    ensures
        cells_read(lines, w, h, c + 1, r, new_t, new_p),
{
    lemma_flat_bound(w, h, c, r);
    assert forall|rr: int, cc: int| 0 <= rr < h && 0 <= cc < w implies (#[trigger] new_t[flat(
        w,
        cc,
        rr,
    )] == Tile::Wall <==> (before(cc, rr, c + 1, r) && cell(lines, cc, rr) == Some('#'))) by {
        lemma_flat_bound(w, h, cc, rr);
        if cc != c || rr != r {
            lemma_flat_injective(w, cc, rr, c, r);
            assert(old_t[flat(w, cc, rr)] == Tile::Wall <==> (before(cc, rr, c, r) && cell(
                lines,
                cc,
                rr,
            ) == Some('#')));
        }
    }
    assert forall|rr: int, cc: int| 0 <= rr < h && 0 <= cc < w implies (#[trigger] new_p[flat(
        w,
        cc,
        rr,
    )] <==> (before(cc, rr, c + 1, r) && cell(lines, cc, rr) == Some('.'))) by {
        lemma_flat_bound(w, h, cc, rr);
        if cc != c || rr != r {
            lemma_flat_injective(w, cc, rr, c, r);
            assert(old_p[flat(w, cc, rr)] <==> (before(cc, rr, c, r) && cell(lines, cc, rr)
                == Some('.')));
        }
    }
}

proof fn lemma_row_done(
    lines: Seq<Seq<char>>,
    w: int,
    h: int,
    r: int,
    t: Seq<Tile>,
    p: Seq<bool>,
)
    requires
        0 <= r < h,
        h == lines.len(),
        lines[r].len() <= w,
        cells_read(lines, w, h, lines[r].len() as int, r, t, p),
    ensures
        cells_read(lines, w, h, 0, r + 1, t, p),
{
    assert forall|rr: int, cc: int| 0 <= rr < h && 0 <= cc < w implies (#[trigger] t[flat(
        w,
        cc,
        rr,
    )] == Tile::Wall <==> (before(cc, rr, 0, r + 1) && cell(lines, cc, rr) == Some('#'))) by {
        assert(t[flat(w, cc, rr)] == Tile::Wall <==> (before(cc, rr, lines[r].len() as int, r)
            && cell(lines, cc, rr) == Some('#')));
    }
    assert forall|rr: int, cc: int| 0 <= rr < h && 0 <= cc < w implies (#[trigger] p[flat(
        w,
        cc,
        rr,
    )] <==> (before(cc, rr, 0, r + 1) && cell(lines, cc, rr) == Some('.'))) by {
        assert(p[flat(w, cc, rr)] <==> (before(cc, rr, lines[r].len() as int, r) && cell(
            lines,
            cc,
            rr,
        ) == Some('.')));
    }
}

proof fn lemma_positions_step(g: Seq<(i32, i32)>, line: Seq<char>, r: int, c: int, ch: char)
    requires
        0 <= c < line.len(),
    ensures
        g + row_positions(line, r, ch, c + 1) =~= (g + row_positions(line, r, ch, c)) + if line[c]
            == ch {
            seq![(c as i32, r as i32)]
        } else {
            seq![]
        },
{
}

} // verus!

verus! {

/// A pellet, once eaten, is gone: eating the same cell again finds nothing,
/// and the pellet count does not change again.
pub proof fn law_eat_twice(m0: Maze, m1: Maze, m2: Maze, c: int, r: int, a1: bool, a2: bool)
    requires
        m0.wf(),
        m0.eat_result(m1, c, r, a1),
        m1.eat_result(m2, c, r, a2),
    ensures
        !a2,
        m2.pellet_cells() == m1.pellet_cells(),
{
    if m0.inside(c, r) {
        lemma_flat_bound(m0.cols as int, m0.rows as int, c, r);
    }
}

} // verus!

verus! {

/// What eating leaves of a well-formed maze: it stays well formed, the
/// pellet count drops by the number eaten, the pellet total is kept, and no
/// pellet comes to lie on a wall.
pub proof fn lemma_eat_result(m0: Maze, m1: Maze, c: int, r: int, ate: bool)
    requires
        m0.wf(),
        m0.eat_result(m1, c, r, ate),
    ensures
        m1.wf(),
        m1.pellet_count() + (if ate { 1int } else { 0int }) == m0.pellet_count(),
        m1.pellet_total == m0.pellet_total,
        !m1.pellet_on(c, r),
        m0.pellets_off_walls() ==> m1.pellets_off_walls(),
{
    if ate {
        lemma_flat_bound(m0.cols as int, m0.rows as int, c, r);
        lemma_count_true_update(m0.pellet_cells(), flat(m0.cols as int, c, r), false);
        if m0.pellets_off_walls() {
            assert forall|cc: int, rr: int| #[trigger] m1.pellet_on(cc, rr) implies !m1.wall_at(
                cc,
                rr,
            ) by {
                lemma_flat_bound(m0.cols as int, m0.rows as int, cc, rr);
                if cc != c || rr != r {
                    lemma_flat_injective(m0.cols as int, cc, rr, c, r);
                }
                assert(m0.pellet_on(cc, rr));
            }
        }
    } else if m0.pellets_off_walls() {
        assert forall|cc: int, rr: int| #[trigger] m1.pellet_on(cc, rr) implies !m1.wall_at(
            cc,
            rr,
        ) by {
            assert(m0.pellet_on(cc, rr));
        }
    }
}

/// `ms` is a run of eats: `ms[i + 1]` is `ms[i]` after eating at `cells[i]`,
/// which found a pellet when `ates[i]` holds.
pub open spec fn eat_history(ms: Seq<Maze>, cells: Seq<(int, int)>, ates: Seq<bool>) -> bool {
    &&& ms.len() == cells.len() + 1
    &&& ates.len() == cells.len()
    &&& forall|i: int|
        0 <= i < cells.len() ==> #[trigger] ms[i].eat_result(ms[i + 1], cells[i].0, cells[i].1, ates[i])
}

/// Over any run of eats on a maze just read by `from_ascii`: the pellets
/// left are the pellet total less the pellets eaten, never more than the
/// total, and no pellet ever lies on a wall.
pub proof fn law_eat_history(ms: Seq<Maze>, cells: Seq<(int, int)>, ates: Seq<bool>)
    requires
        eat_history(ms, cells, ates),
        ms[0].wf(),
        ms[0].pellet_total == ms[0].pellet_count(),
        ms[0].pellets_off_walls(),
    ensures
        ms.last().wf(),
        ms.last().pellet_total == ms[0].pellet_total,
        ms.last().pellet_count() + count_true(ates) == ms[0].pellet_total,
        ms.last().pellet_count() <= ms[0].pellet_total,
        ms.last().pellets_off_walls(),
    decreases cells.len(),
{
    if cells.len() > 0 {
        let n = cells.len() - 1;
        let ms0 = ms.drop_last();
        assert(eat_history(ms0, cells.drop_last(), ates.drop_last())) by {
            assert forall|i: int| 0 <= i < n implies #[trigger] ms0[i].eat_result(
                ms0[i + 1],
                cells.drop_last()[i].0,
                cells.drop_last()[i].1,
                ates.drop_last()[i],
            ) by {
                assert(ms[i].eat_result(ms[i + 1], cells[i].0, cells[i].1, ates[i]));
            }
        }
        law_eat_history(ms0, cells.drop_last(), ates.drop_last());
        assert(ms[n].eat_result(ms[n + 1], cells[n].0, cells[n].1, ates[n]));
        lemma_eat_result(ms[n], ms[n + 1], cells[n].0, cells[n].1, ates[n]);
        assert(ates.drop_last() =~= ates.take(n));
    }
}

} // verus!

verus! {

/// The pellet cells whose row-major position is below `n`.
spec fn pellet_cells_below(m: Maze, n: int) -> Set<(int, int)> {
    Set::new(|p: (int, int)| m.pellet_on(p.0, p.1) && flat(m.cols as int, p.0, p.1) < n)
}

proof fn lemma_cell_of_position(cols: int, rows: int, n: int)
    requires
        0 <= n < cols * rows,
        0 < cols,
        0 <= rows,
    ensures
        0 <= n % cols < cols,
        0 <= n / cols < rows,
        flat(cols, n % cols, n / cols) == n,
{
    vstd::arithmetic::div_mod::lemma_fundamental_div_mod(n, cols);
    vstd::arithmetic::div_mod::lemma_mod_bound(n, cols);
    let q = n / cols;
    let rm = n % cols;
    assert(q * cols == cols * q) by (nonlinear_arith);
    assert(0 <= q < rows) by (nonlinear_arith)
        requires
            n == cols * q + rm,
            0 <= rm < cols,
            0 <= n < cols * rows,
            0 < cols,
    ;
}

proof fn lemma_pellet_cells_below(m: Maze, n: int)
    requires
        m.wf(),
        0 <= n <= m.pellet_cells().len(),
    ensures
        pellet_cells_below(m, n).finite(),
        pellet_cells_below(m, n).len() == count_true(m.pellet_cells().take(n)),
    decreases n,
{
    let cells = m.pellet_cells();
    let cols = m.cols as int;
    if n == 0 {
        assert forall|p: (int, int)| !pellet_cells_below(m, 0).contains(p) by {
            if m.pellet_on(p.0, p.1) {
                lemma_flat_bound(cols, m.rows as int, p.0, p.1);
            }
        }
        assert(pellet_cells_below(m, 0) =~= Set::<(int, int)>::empty());
        assert(cells.take(0) =~= Seq::<bool>::empty());
    } else {
        let k = n - 1;
        lemma_pellet_cells_below(m, k);
        assert(cols > 0) by {
            if cols == 0 {
                assert(0 * m.rows == 0) by (nonlinear_arith);
            }
        }
        lemma_cell_of_position(cols, m.rows as int, k);
        let q = (k % cols, k / cols);
        assert(cells.take(n).drop_last() =~= cells.take(k));
        let prev = pellet_cells_below(m, k);
        let next = pellet_cells_below(m, n);
        assert forall|p: (int, int)| next.contains(p) <==> (prev.contains(p) || (cells[k] && p
            == q)) by {
            if m.pellet_on(p.0, p.1) && p != q {
                lemma_flat_bound(cols, m.rows as int, p.0, p.1);
                lemma_flat_injective(cols, p.0, p.1, q.0, q.1);
            }
        }
        if cells[k] {
            assert(next =~= prev.insert(q));
            assert(!prev.contains(q));
        } else {
            assert(next =~= prev);
        }
    }
}

/// The pellet count is the number of cells that hold a pellet.
pub proof fn law_pellet_count_counts_cells(m: Maze)
    requires
        m.wf(),
    ensures
        m.pellet_cell_set().finite(),
        m.pellet_cell_set().len() == m.pellet_count(),
{
    let len = m.pellet_cells().len() as int;
    lemma_pellet_cells_below(m, len);
    assert forall|p: (int, int)| m.pellet_cell_set().contains(p) <==> pellet_cells_below(
        m,
        len,
    ).contains(p) by {
        if m.pellet_on(p.0, p.1) {
            lemma_flat_bound(m.cols as int, m.rows as int, p.0, p.1);
        }
    }
    assert(m.pellet_cell_set() =~= pellet_cells_below(m, len));
    assert(m.pellet_cells().take(len) =~= m.pellet_cells());
}

} // verus!
