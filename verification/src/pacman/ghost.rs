use vstd::prelude::*;
use crate::pacman::maze::Maze;

verus! {

/// A ghost on the maze grid, with the direction of its last step.
pub struct MazeGhost {
    pub col: i32,
    pub row: i32,
    pub dir: (i32, i32),
}

/// The four grid directions in the order a ghost considers them:
/// up, down, left, right.
pub open spec fn dir_at(k: int) -> (i32, i32) {
    if k == 0 {
        (0i32, -1i32)
    } else if k == 1 {
        (0i32, 1i32)
    } else if k == 2 {
        (-1i32, 0i32)
    } else {
        (1i32, 0i32)
    }
}

pub open spec fn in_i32(x: int) -> bool {
    i32::MIN <= x <= i32::MAX
}

/// The opposite of direction `d`.
pub open spec fn reverse_of(d: (i32, i32)) -> (i32, i32) {
    ((-d.0) as i32, (-d.1) as i32)
}

/// Squared Euclidean distance from `(c, r)` to `target`.
pub open spec fn sq_dist(c: int, r: int, target: (i32, i32)) -> int {
    (c - target.0) * (c - target.0) + (r - target.1) * (r - target.1)
}

/// Every intermediate of the `i32` distance computation stays in range.
pub open spec fn dist_fits(c: int, r: int, target: (i32, i32)) -> bool {
    let dx = c - target.0;
    let dy = r - target.1;
    &&& in_i32(dx)
    &&& in_i32(dy)
    &&& dx * dx <= i32::MAX
    &&& dy * dy <= i32::MAX
    &&& dx * dx + dy * dy <= i32::MAX
}

/// A heading along one axis by one tile, or standing still.
pub open spec fn unit_or_zero(d: (i32, i32)) -> bool {
    d == (0i32, 0i32) || d == (0i32, -1i32) || d == (0i32, 1i32) || d == (-1i32, 0i32) || d == (
    1i32, 0i32)
}

pub open spec fn abs(x: int) -> int {
    if x < 0 {
        -x
    } else {
        x
    }
}

/// All four neighbours of `(c, r)` are walls.
pub open spec fn walled_in(maze: Maze, c: int, r: int) -> bool {
    forall|k: int| 0 <= k < 4 ==> #[trigger] maze.wall_at(c + dir_at(k).0, r + dir_at(k).1)
}

/// `new` follows `old` as a step on the grid should: it ends on an open tile
/// at most one tile away, keeps a unit or zero heading that is its
/// displacement when it moved, and stays put when walled in on all four
/// sides.
pub open spec fn grid_step(old: MazeGhost, new: MazeGhost, maze: Maze) -> bool {
    &&& !maze.wall_at(new.col as int, new.row as int)
    &&& abs(new.col - old.col) + abs(new.row - old.row) <= 1
    &&& unit_or_zero(new.dir)
    &&& (new.col != old.col || new.row != old.row) ==> (new.dir.0 == new.col - old.col
        && new.dir.1 == new.row - old.row)
    &&& walled_in(maze, old.col as int, old.row as int) ==> (new.col == old.col && new.row
        == old.row && new.dir == old.dir)
}

pub open spec fn widen(b: Option<((i32, i32), i32)>) -> Option<((i32, i32), int)> {
    match b {
        Some((d, x)) => Some((d, x as int)),
        None => None,
    }
}

impl MazeGhost {
    /// Direction `k` leads to an open tile and does not turn the ghost around.
    pub open spec fn is_candidate(self, maze: Maze, k: int) -> bool {
        &&& dir_at(k) != reverse_of(self.dir)
        &&& !maze.wall_at(self.col + dir_at(k).0, self.row + dir_at(k).1)
    }

    /// Distance to `target` after one step in direction `k`.
    pub open spec fn dist_after(self, k: int, target: (i32, i32)) -> int {
        sq_dist(self.col + dir_at(k).0, self.row + dir_at(k).1, target)
    }

    /// Among the first `n` directions, the first candidate nearest to
    /// `target`, with its distance.
    pub open spec fn best_upto(self, maze: Maze, target: (i32, i32), n: int) -> Option<
        ((i32, i32), int),
    >
        decreases n,
    {
        if n <= 0 {
            None
        } else {
            let prev = self.best_upto(maze, target, n - 1);
            if self.is_candidate(maze, n - 1) {
                let d = self.dist_after(n - 1, target);
                match prev {
                    None => Some((dir_at(n - 1), d)),
                    Some((_, bd)) => if d < bd {
                        Some((dir_at(n - 1), d))
                    } else {
                        prev
                    },
                }
            } else {
                prev
            }
        }
    }

    /// The direction the ghost steps in: the nearest non-reversing open
    /// direction, else back the way it came if that is open, else none.
    pub open spec fn choice(self, maze: Maze, target: (i32, i32)) -> Option<(i32, i32)> {
        match self.best_upto(maze, target, 4) {
            Some((d, _)) => Some(d),
            None => {
                let rev = reverse_of(self.dir);
                if !maze.wall_at(self.col + rev.0, self.row + rev.1) {
                    Some(rev)
                } else {
                    None
                }
            },
        }
    }

    pub open spec fn has_candidate(self, maze: Maze) -> bool {
        exists|k: int| 0 <= k < 4 && self.is_candidate(maze, k)
    }

    /// The `i32` arithmetic of a step toward `target` cannot overflow.
    pub open spec fn step_ok(self, maze: Maze, target: (i32, i32)) -> bool {
        &&& i32::MIN < self.col < i32::MAX
        &&& i32::MIN < self.row < i32::MAX
        &&& self.dir.0 != i32::MIN
        &&& self.dir.1 != i32::MIN
        &&& forall|k: int|
            0 <= k < 4 && #[trigger] self.is_candidate(maze, k) ==> dist_fits(
                self.col + dir_at(k).0,
                self.row + dir_at(k).1,
                target,
            )
        &&& !self.has_candidate(maze) ==> in_i32(self.col - self.dir.0) && in_i32(
            self.row - self.dir.1,
        )
    }

    pub fn new(col: i32, row: i32) -> (g: Self)
        ensures
            g.col == col,
            g.row == row,
            g.dir == (0i32, 0i32),
    {
        MazeGhost { col, row, dir: (0, 0) }
    }

    /// Step one tile toward `target`, choosing the open non-reverse neighbour that
    /// minimizes squared distance. Reverses only if no other option exists.
    pub fn step(&mut self, maze: &Maze, target: (i32, i32))
        requires
            maze.wf(),
            old(self).step_ok(*maze, target),
        ensures
            match old(self).choice(*maze, target) {
                Some(d) => final(self).dir == d && final(self).col == old(self).col + d.0
                    && final(self).row == old(self).row + d.1,
                None => final(self).col == old(self).col && final(self).row == old(self).row
                    && final(self).dir == old(self).dir,
            },
            // It only ever lands on an open tile.
            old(self).choice(*maze, target) is Some ==> !maze.wall_at(
                final(self).col as int,
                final(self).row as int,
            ) && maze.inside(final(self).col as int, final(self).row as int),
            // With an open way forward it does not turn around, and it takes
            // the way that brings it nearest to the target.
            old(self).has_candidate(*maze) ==> {
                &&& final(self).dir != reverse_of(old(self).dir)
                &&& forall|j: int|
                    0 <= j < 4 && #[trigger] old(self).is_candidate(*maze, j) ==> sq_dist(
                        final(self).col as int,
                        final(self).row as int,
                        target,
                    ) <= old(self).dist_after(j, target)
            },
            // Turning around happens only when nothing else is open.
            !old(self).has_candidate(*maze) ==> (old(self).choice(*maze, target) is Some
                <==> !maze.wall_at(
                old(self).col - old(self).dir.0,
                old(self).row - old(self).dir.1,
            )),
            // From an open tile with a unit or zero heading, the ghost moves
            // like a grid creature (see `grid_step`).
            !maze.wall_at(old(self).col as int, old(self).row as int) && unit_or_zero(
                old(self).dir,
            ) ==> grid_step(*old(self), *final(self), *maze),
    {
        let reverse = (-self.dir.0, -self.dir.1);
        let mut best: Option<((i32, i32), i32)> = None;
        let mut k: usize = 0;
        while k < 4
            invariant
                maze.wf(),
                *self == *old(self),
                self.step_ok(*maze, target),
                reverse == reverse_of(self.dir),
                k <= 4,
                widen(best) == self.best_upto(*maze, target, k as int),
            decreases 4 - k,
        {
            let d = dir_of(k);
            if d.0 != reverse.0 || d.1 != reverse.1 {
                let nc = self.col + d.0;
                let nr = self.row + d.1;
                if !maze.is_wall(nc, nr) {
                    assert(self.is_candidate(*maze, k as int));
                    assert(dist_fits(nc as int, nr as int, target));
                    let dx = nc - target.0;
                    let dy = nr - target.1;
                    assert(dx * dx >= 0 && dy * dy >= 0) by (nonlinear_arith);
                    let dist = dx * dx + dy * dy;
                    match best {
                        None => {
                            best = Some((d, dist));
                        },
                        Some((_, bd)) => {
                            if dist < bd {
                                best = Some((d, dist));
                            }
                        },
                    }
                }
            }
            k += 1;
        }
        proof {
            self.lemma_best_upto(*maze, target, 4);
        }
        if best.is_none() {
            let nc = self.col + reverse.0;
            let nr = self.row + reverse.1;
            if !maze.is_wall(nc, nr) {
                best = Some((reverse, 0));
            }
        }
        proof {
            if !maze.wall_at(self.col as int, self.row as int) && unit_or_zero(self.dir) {
                self.lemma_choice_on_grid(*maze, target);
            }
        }
        if let Some((d, _)) = best {
            self.dir = d;
            self.col += d.0;
            self.row += d.1;
        }
    }

    /// From an open tile with a unit or zero heading, the chosen direction is a
    /// unit or zero heading, zero only when the heading was zero, and when
    /// walled in the ghost can only stand still.
    pub proof fn lemma_choice_on_grid(self, maze: Maze, target: (i32, i32))
        requires
            !maze.wall_at(self.col as int, self.row as int),
            unit_or_zero(self.dir),
        ensures
            self.choice(maze, target) matches Some(d) ==> unit_or_zero(d) && (d == (0i32, 0i32)
                ==> self.dir == (0i32, 0i32)),
            walled_in(maze, self.col as int, self.row as int) ==> self.choice(maze, target) == if self.dir
                == (0i32, 0i32) {
                Some((0i32, 0i32))
            } else {
                None::<(i32, i32)>
            },
    {
        self.lemma_best_upto(maze, target, 4);
        let rev = reverse_of(self.dir);
        assert(unit_or_zero(rev));
        if walled_in(maze, self.col as int, self.row as int) {
            assert(self.best_upto(maze, target, 4) is None) by {
                if self.best_upto(maze, target, 4) is Some {
                    let k = choose|k: int|
                        0 <= k < 4 && #[trigger] self.is_candidate(maze, k);
                    assert(maze.wall_at(self.col + dir_at(k).0, self.row + dir_at(k).1));
                }
            }
            if self.dir != (0i32, 0i32) {
                let k: int = if rev == dir_at(0) {
                    0
                } else if rev == dir_at(1) {
                    1
                } else if rev == dir_at(2) {
                    2
                } else {
                    3
                };
                assert(rev == dir_at(k));
                assert(maze.wall_at(self.col + dir_at(k).0, self.row + dir_at(k).1));
            }
        }
    }

    /// What `best_upto` picks is a candidate, and no candidate is nearer.
    pub proof fn lemma_best_upto(self, maze: Maze, target: (i32, i32), n: int)
        requires
            0 <= n <= 4,
        ensures
            match self.best_upto(maze, target, n) {
                None => forall|j: int| 0 <= j < n ==> !#[trigger] self.is_candidate(maze, j),
                Some((d, dist)) => {
                    &&& exists|k: int|
                        0 <= k < n && #[trigger] self.is_candidate(maze, k) && d == dir_at(k)
                            && dist == self.dist_after(k, target)
                    &&& forall|j: int|
                        0 <= j < n && #[trigger] self.is_candidate(maze, j) ==> dist
                            <= self.dist_after(j, target)
                },
            },
        decreases n,
    {
        if n > 0 {
            self.lemma_best_upto(maze, target, n - 1);
        }
    }

    pub fn touches(&self, col: i32, row: i32) -> (b: bool)
        ensures
            b == (self.col == col && self.row == row),
    {
        self.col == col && self.row == row
    }
}

fn dir_of(k: usize) -> (d: (i32, i32))
    requires
        k < 4,
    ensures
        d == dir_at(k as int),
{
    if k == 0 {
        (0, -1)
    } else if k == 1 {
        (0, 1)
    } else if k == 2 {
        (-1, 0)
    } else {
        (1, 0)
    }
}

} // verus!
