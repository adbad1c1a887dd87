use rust_retro_arcade::scores::{load, save, HighScores};

#[test]
fn first_score_is_a_new_best() {
    let mut h = HighScores::default();
    assert!(h.record_pacman(120));
    assert_eq!(h.best_pacman, 120);
}

#[test]
fn lower_score_does_not_replace_best() {
    let mut h = HighScores {
        best_pacman: 200,
        pong_wins: 0,
    };
    assert!(!h.record_pacman(150));
    assert_eq!(h.best_pacman, 200);
}

#[test]
fn pong_wins_accumulate() {
    let mut h = HighScores::default();
    h.record_pong_win();
    h.record_pong_win();
    assert_eq!(h.pong_wins, 2);
}

#[test]
fn equal_score_is_not_a_new_best() {
    let mut h = HighScores { best_pacman: 90, pong_wins: 4 };
    assert!(!h.record_pacman(90));
    assert_eq!(h, HighScores { best_pacman: 90, pong_wins: 4 });
}

#[test]
fn saved_text_is_two_numbers() {
    let h = HighScores { best_pacman: 1230, pong_wins: 7 };
    assert_eq!(save(&h), "1230 7");
    assert_eq!(save(&HighScores::default()), "0 0");
    assert_eq!(
        save(&HighScores { best_pacman: u32::MAX, pong_wins: 10 }),
        "4294967295 10"
    );
}

#[test]
fn saved_scores_load_back() {
    for h in [
        HighScores { best_pacman: 0, pong_wins: 0 },
        HighScores { best_pacman: 1230, pong_wins: 7 },
        HighScores { best_pacman: u32::MAX, pong_wins: u32::MAX },
    ] {
        let text = save(&h);
        assert_eq!(load(Some(&text)), h);
    }
}

#[test]
fn missing_file_gives_defaults() {
    assert_eq!(load(None), HighScores::default());
}

#[test]
fn load_reads_whitespace_separated_numbers() {
    assert_eq!(
        load(Some("  \n120\t\t3 extra")),
        HighScores { best_pacman: 120, pong_wins: 3 }
    );
    assert_eq!(load(Some("+15 +2")), HighScores { best_pacman: 15, pong_wins: 2 });
    assert_eq!(load(Some("0007")), HighScores { best_pacman: 7, pong_wins: 0 });
}

#[test]
fn unreadable_numbers_count_as_zero() {
    assert_eq!(load(Some("abc 5")), HighScores { best_pacman: 0, pong_wins: 5 });
    assert_eq!(load(Some("-1 4294967296")), HighScores { best_pacman: 0, pong_wins: 0 });
    assert_eq!(load(Some("12x 99999999999999999999")), HighScores { best_pacman: 0, pong_wins: 0 });
    assert_eq!(load(Some("+ 3")), HighScores { best_pacman: 0, pong_wins: 3 });
    assert_eq!(load(Some("")), HighScores::default());
    assert_eq!(load(Some("42")), HighScores { best_pacman: 42, pong_wins: 0 });
}

#[test]
fn unicode_whitespace_separates_numbers() {
    assert_eq!(
        load(Some("8\u{3000}9")),
        HighScores { best_pacman: 8, pong_wins: 9 }
    );
    assert_eq!(load(Some("4294967295\u{a0}1")), HighScores { best_pacman: 4294967295, pong_wins: 1 });
}
