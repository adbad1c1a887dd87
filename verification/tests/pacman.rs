use rust_retro_arcade::pacman::ghost::MazeGhost;
use rust_retro_arcade::pacman::maze::{Maze, Tile, MAZE};
use rust_retro_arcade::pacman::player::Player;

// ---- maze ----

#[test]
fn parses_dimensions() {
    let m = Maze::from_ascii(MAZE);
    assert_eq!(m.rows, 21);
    assert_eq!(m.cols, 19);
}

#[test]
fn border_is_wall_and_start_is_open() {
    let m = Maze::from_ascii(MAZE);
    assert!(m.is_wall(0, 0));
    let (pc, pr) = m.player_start;
    assert!(!m.is_wall(pc, pr));
}

#[test]
fn out_of_bounds_counts_as_wall() {
    let m = Maze::from_ascii(MAZE);
    assert!(m.is_wall(-1, 5));
    assert!(m.is_wall(1000, 5));
}

#[test]
fn has_pellets_and_at_least_one_ghost() {
    let m = Maze::from_ascii(MAZE);
    assert!(m.pellet_total > 0);
    assert!(!m.ghost_starts.is_empty());
}

#[test]
fn eating_a_pellet_removes_it() {
    let mut m = Maze::from_ascii(MAZE);
    // Find any pellet cell.
    let mut found = None;
    for r in 0..m.rows {
        for c in 0..m.cols {
            if m.pellet_at(c, r) {
                found = Some((c, r));
            }
        }
    }
    let (c, r) = found.expect("maze should have a pellet");
    let before = m.pellets_remaining();
    assert!(m.eat(c, r));
    assert!(!m.eat(c, r)); // already eaten
    assert_eq!(m.pellets_remaining(), before - 1);
}

#[test]
fn full_maze_start_positions_and_counts() {
    let m = Maze::from_ascii(MAZE);
    assert_eq!(m.player_start, (9, 11));
    assert_eq!(m.ghost_starts, vec![(9, 7)]);
    assert_eq!(m.pellet_total, m.pellets_remaining());
    assert!(!m.cleared());
    assert_eq!(m.tiles.len(), 19 * 21);
}

#[test]
fn short_rows_are_padded_with_open_floor() {
    let m = Maze::from_ascii(&["###", "#", ""]);
    assert_eq!((m.cols, m.rows), (3, 3));
    assert!(m.is_wall(0, 1));
    assert!(!m.is_wall(1, 1));
    assert!(!m.is_wall(2, 2));
    assert_eq!(m.tiles[4], Tile::Open);
}

#[test]
fn empty_art_gives_empty_maze() {
    let m = Maze::from_ascii(&[]);
    assert_eq!((m.cols, m.rows), (0, 0));
    assert_eq!(m.player_start, (1, 1));
    assert!(m.ghost_starts.is_empty());
    assert!(m.cleared());
    assert!(m.is_wall(0, 0));
}

#[test]
fn width_counts_bytes_and_last_player_mark_wins() {
    // 'é' is two bytes in UTF-8, so the grid is 4 wide though the row has 3 chars.
    let m = Maze::from_ascii(&["éP.", "PG.G"]);
    assert_eq!(m.cols, 4);
    assert_eq!(m.player_start, (0, 1));
    assert_eq!(m.ghost_starts, vec![(1, 1), (3, 1)]);
    assert_eq!(m.pellet_total, 2);
    assert!(m.pellet_at(2, 0));
    assert!(!m.pellet_at(3, 0));
}

#[test]
fn clearing_every_pellet() {
    let mut m = Maze::from_ascii(&["#..#"]);
    assert_eq!(m.pellets_remaining(), 2);
    assert!(m.eat(1, 0));
    assert!(!m.cleared());
    assert!(m.eat(2, 0));
    assert!(m.cleared());
    assert!(!m.eat(-1, 0));
}

// ---- ghost ----

#[test]
fn moves_toward_target_along_a_corridor() {
    let m = Maze::from_ascii(&["#######", "#.....#", "#######"]);
    let mut g = MazeGhost::new(1, 1);
    g.step(&m, (5, 1));
    assert_eq!((g.col, g.row), (2, 1));
}

#[test]
fn does_not_reverse_when_forward_is_open() {
    let m = Maze::from_ascii(&["#######", "#.....#", "#######"]);
    let mut g = MazeGhost::new(3, 1);
    g.dir = (1, 0); // moving right
                    // Target is behind it, but it should keep moving right (no reverse).
    g.step(&m, (0, 1));
    assert_eq!((g.col, g.row), (4, 1));
}

#[test]
fn touches_detects_same_cell() {
    let g = MazeGhost::new(3, 4);
    assert!(g.touches(3, 4));
    assert!(!g.touches(3, 5));
}

#[test]
fn ghost_reverses_at_a_dead_end() {
    let m = Maze::from_ascii(&["#####", "#...#", "#####"]);
    let mut g = MazeGhost::new(3, 1);
    g.dir = (1, 0);
    g.step(&m, (3, 1));
    assert_eq!((g.col, g.row), (2, 1));
    assert_eq!(g.dir, (-1, 0));
}

#[test]
fn ghost_stays_when_boxed_in() {
    let m = Maze::from_ascii(&["###", "# #", "###"]);
    let mut g = MazeGhost::new(1, 1);
    g.dir = (0, 1);
    g.step(&m, (5, 5));
    assert_eq!((g.col, g.row), (1, 1));
    assert_eq!(g.dir, (0, 1));
}

#[test]
fn ghost_ties_go_to_the_first_direction() {
    // Up and left are both open and equally far from the target; up comes first.
    let m = Maze::from_ascii(&["#####", "## ##", "#   #", "#####"]);
    let mut g = MazeGhost::new(2, 2);
    g.step(&m, (1, 1));
    assert_eq!((g.col, g.row), (2, 1));
}

// ---- player ----

fn tiny() -> Maze {
    // P at (1,1), pellets to the right, wall at the ends.
    Maze::from_ascii(&["#####", "#P..#", "#####"])
}

#[test]
fn moves_into_open_tile_and_eats() {
    let mut m = tiny();
    let (pc, pr) = m.player_start;
    let mut p = Player::new(pc, pr);
    let (moved, ate) = p.advance(&mut m, (1, 0));
    assert!(moved);
    assert!(ate);
    assert_eq!((p.col, p.row), (2, 1));
}

#[test]
fn blocked_by_wall_does_not_move() {
    let mut m = tiny();
    let mut p = Player::new(1, 1);
    // Move right to (2,1), (3,1); next right is wall at (4,1).
    p.advance(&mut m, (1, 0));
    p.advance(&mut m, (1, 0));
    let (moved, _) = p.advance(&mut m, (1, 0));
    assert!(!moved);
    assert_eq!((p.col, p.row), (3, 1));
}

#[test]
fn continues_in_current_dir_when_want_is_blocked() {
    let mut m = tiny();
    let mut p = Player::new(1, 1);
    // Establish rightward motion.
    p.advance(&mut m, (1, 0));
    // Want up (wall), should keep going right.
    let (moved, _) = p.advance(&mut m, (0, -1));
    assert!(moved);
    assert_eq!((p.col, p.row), (3, 1));
}

#[test]
fn blocked_request_stays_queued() {
    let mut m = tiny();
    let mut p = Player::new(1, 1);
    p.advance(&mut m, (1, 0));
    p.advance(&mut m, (0, -1));
    assert_eq!(p.next_dir, (0, -1));
    assert_eq!(p.dir, (1, 0));
    assert_eq!(m.pellets_remaining(), 0);
    // Walking back over eaten tiles eats nothing.
    let (moved, ate) = p.advance(&mut m, (-1, 0));
    assert!(moved);
    assert!(!ate);
}

#[test]
fn standing_still_without_a_direction() {
    let mut m = tiny();
    let mut p = Player::new(1, 1);
    assert_eq!(p.advance(&mut m, (0, 0)), (false, false));
    assert_eq!((p.col, p.row), (1, 1));
}

#[test]
fn pellets_never_lie_on_walls_and_count_down() {
    let mut m = Maze::from_ascii(MAZE);
    let total = m.pellet_total;
    let mut eaten = 0;
    for r in -1..=m.rows {
        for c in -1..=m.cols {
            if m.pellet_at(c, r) {
                assert!(!m.is_wall(c, r));
            }
            if (c + r) % 3 == 0 && m.eat(c, r) {
                eaten += 1;
            }
        }
    }
    assert_eq!(m.pellets_remaining(), total - eaten);
    let mut cells = 0;
    for r in 0..m.rows {
        for c in 0..m.cols {
            if m.pellet_at(c, r) {
                cells += 1;
            }
        }
    }
    assert_eq!(cells, m.pellets_remaining());
}

#[test]
fn ghost_steps_one_open_tile_at_a_time() {
    let m = Maze::from_ascii(MAZE);
    let mut g = MazeGhost::new(m.ghost_starts[0].0, m.ghost_starts[0].1);
    for _ in 0..50 {
        let (c0, r0) = (g.col, g.row);
        g.step(&m, m.player_start);
        assert!(!m.is_wall(g.col, g.row));
        assert!((g.col - c0).abs() + (g.row - r0).abs() <= 1);
        if (g.col, g.row) != (c0, r0) {
            assert_eq!(g.dir, (g.col - c0, g.row - r0));
        }
    }
}
