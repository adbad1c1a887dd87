use vstd::prelude::*;
use crate::pacman::ghost::in_i32;
use crate::pacman::maze::Maze;

verus! {

/// The player on the maze grid: where it is, the direction it moves in and
/// the direction it has been asked to turn to.
pub struct Player {
    pub col: i32,
    pub row: i32,
    pub dir: (i32, i32),
    pub next_dir: (i32, i32),
}

/// Direction `d` is non-zero and leads `p` to an open tile.
pub open spec fn queued_open(p: Player, maze: Maze, d: (i32, i32)) -> bool {
    d != (0i32, 0i32) && !maze.wall_at(p.col + d.0, p.row + d.1)
}

impl Player {
    /// The direction that is queued after asking for `want`: `want` itself
    /// unless it is (0, 0), which keeps the earlier request.
    pub open spec fn queued(self, want: (i32, i32)) -> (i32, i32) {
        if want != (0i32, 0i32) {
            want
        } else {
            self.next_dir
        }
    }

    /// Moving in `d` is possible: it is a real direction and leads to an
    /// open tile.
    pub open spec fn can_go(self, maze: Maze, d: (i32, i32)) -> bool {
        d != (0i32, 0i32) && !maze.wall_at(self.col + d.0, self.row + d.1)
    }

    /// The direction `advance(want)` moves in, if any: the queued direction
    /// first, the current one second.
    pub open spec fn move_dir(self, maze: Maze, want: (i32, i32)) -> Option<(i32, i32)> {
        if self.can_go(maze, self.queued(want)) {
            Some(self.queued(want))
        } else if self.can_go(maze, self.dir) {
            Some(self.dir)
        } else {
            None
        }
    }

    /// Position arithmetic for the directions tried cannot overflow: the
    /// queued direction is always tried, the current one only when the
    /// queued one is zero or blocked.
    pub open spec fn advance_ok(self, maze: Maze, want: (i32, i32)) -> bool {
        let q = self.queued(want);
        &&& q != (0i32, 0i32) ==> in_i32(self.col + q.0) && in_i32(self.row + q.1)
        &&& !self.can_go(maze, q) && self.dir != (0i32, 0i32) ==> in_i32(self.col + self.dir.0)
            && in_i32(self.row + self.dir.1)
    }

    pub fn new(col: i32, row: i32) -> (p: Self)
        ensures
            p.col == col,
            p.row == row,
            p.dir == (0i32, 0i32),
            p.next_dir == (0i32, 0i32),
    {
        Player { col, row, dir: (0, 0), next_dir: (0, 0) }
    }

    /// Advance one tile. Prefers `want` (if non-zero, it is queued), falling back to
    /// the current direction. Eats a pellet on arrival. Returns (moved, ate_pellet).
    pub fn advance(&mut self, maze: &mut Maze, want: (i32, i32)) -> (res: (bool, bool))
        requires
            old(maze).wf(),
            old(self).advance_ok(*old(maze), want),
        ensures
            final(maze).wf(),
            final(self).next_dir == old(self).queued(want),
            res.0 == (old(self).move_dir(*old(maze), want) is Some),
            match old(self).move_dir(*old(maze), want) {
                Some(d) => {
                    &&& final(self).dir == d
                    &&& final(self).col == old(self).col + d.0
                    &&& final(self).row == old(self).row + d.1
                    &&& !old(maze).wall_at(final(self).col as int, final(self).row as int)
                    &&& old(maze).inside(final(self).col as int, final(self).row as int)
                    &&& old(maze).eat_result(
                        *final(maze),
                        final(self).col as int,
                        final(self).row as int,
                        res.1,
                    )
                    &&& final(maze).pellet_count() + (if res.1 { 1int } else { 0int })
                        == old(maze).pellet_count()
                },
                None => {
                    &&& final(self).dir == old(self).dir
                    &&& final(self).col == old(self).col
                    &&& final(self).row == old(self).row
                    &&& !res.1
                    &&& *final(maze) == *old(maze)
                },
            },
            // A non-zero request is queued; a zero one keeps the earlier request.
            want != (0i32, 0i32) ==> final(self).next_dir == want,
            want == (0i32, 0i32) ==> final(self).next_dir == old(self).next_dir,
            // The queued turn is taken whenever it is non-zero and leads to an
            // open tile, whatever the current direction is.
            queued_open(*old(self), *old(maze), final(self).next_dir) ==> {
                &&& res.0
                &&& final(self).dir == final(self).next_dir
                &&& final(self).col == old(self).col + final(self).next_dir.0
                &&& final(self).row == old(self).row + final(self).next_dir.1
            },
            // Only when it is zero or blocked does the player go on in its
            // current direction, and then only if that leads to an open tile.
            !queued_open(*old(self), *old(maze), final(self).next_dir) ==> {
                &&& res.0 == queued_open(*old(self), *old(maze), old(self).dir)
                &&& res.0 ==> final(self).dir == old(self).dir && final(self).col == old(self).col
                    + old(self).dir.0 && final(self).row == old(self).row + old(self).dir.1
            },
            // The pellet eaten is the one that was on the tile arrived at.
            res.1 <==> (res.0 && old(maze).pellet_on(final(self).col as int, final(self).row as int)),
    {
        if want.0 != 0 || want.1 != 0 {
            self.next_dir = want;
        }
        let first = self.next_dir;
        let second = self.dir;
        if first.0 != 0 || first.1 != 0 {
            let nc = self.col + first.0;
            let nr = self.row + first.1;
            if !maze.is_wall(nc, nr) {
                self.col = nc;
                self.row = nr;
                self.dir = first;
                let ate = maze.eat(nc, nr);
                return (true, ate);
            }
        }
        if second.0 != 0 || second.1 != 0 {
            let nc = self.col + second.0;
            let nr = self.row + second.1;
            if !maze.is_wall(nc, nr) {
                self.col = nc;
                self.row = nr;
                self.dir = second;
                let ate = maze.eat(nc, nr);
                return (true, ate);
            }
        }
        (false, false)
    }
}

/// A turn request is taken as soon as it leads to an open tile, whatever the
/// current direction: a non-zero `want` that is open is the direction moved.
pub proof fn law_open_request_is_taken(p: Player, maze: Maze, want: (i32, i32))
    requires
        want != (0i32, 0i32),
        !maze.wall_at(p.col + want.0, p.row + want.1),
    ensures
        p.move_dir(maze, want) == Some(want),
{
}

/// Releasing the keys (`want == (0, 0)`) keeps the earlier request queued,
/// and it is taken once it leads to an open tile.
pub proof fn law_request_stays_queued(p: Player, maze: Maze)
    ensures
        p.queued((0i32, 0i32)) == p.next_dir,
        p.next_dir != (0i32, 0i32) && !maze.wall_at(p.col + p.next_dir.0, p.row + p.next_dir.1)
            ==> p.move_dir(maze, (0i32, 0i32)) == Some(p.next_dir),
{
}

/// The current direction is used only when the request is zero or blocked;
/// a player with nothing open in either direction stays put.
pub proof fn law_current_direction_is_fallback(p: Player, maze: Maze, want: (i32, i32))
    ensures
        p.move_dir(maze, want) == Some(p.dir) && p.dir != (if want != (0i32, 0i32) { want } else { p.next_dir })
            ==> (want == (0i32, 0i32) && p.next_dir == (0i32, 0i32)) || maze.wall_at(
            p.col + (if want != (0i32, 0i32) { want } else { p.next_dir }).0,
            p.row + (if want != (0i32, 0i32) { want } else { p.next_dir }).1,
        ),
        p.move_dir(maze, want) is None ==> p.dir == (0i32, 0i32) || maze.wall_at(p.col + p.dir.0, p.row + p.dir.1),
        p.move_dir(maze, want) matches Some(d) ==> d != (0i32, 0i32) && !maze.wall_at(p.col + d.0, p.row + d.1),
{
}

} // verus!
