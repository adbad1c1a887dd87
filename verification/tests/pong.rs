use rust_retro_arcade::pong::{Mode, Phase, PongMatch, Side, TARGET};
use rust_retro_arcade::audio::Sfx;
use rust_retro_arcade::scores::HighScores;

#[test]
fn mode_is_chosen_with_a_digit() {
    let mut m = PongMatch::new();
    assert_eq!(m.phase, Phase::ModeSelect);
    m.choose_mode(Some(3));
    assert_eq!(m.phase, Phase::ModeSelect);
    m.choose_mode(Some(2));
    assert_eq!((m.phase, m.mode), (Phase::Playing, Mode::TwoPlayer));
    m.choose_mode(Some(1));
    assert_eq!(m.mode, Mode::TwoPlayer);
}

#[test]
fn points_and_serves() {
    let mut m = PongMatch::new();
    m.choose_mode(Some(1));
    m.score_point(Side::Right);
    assert_eq!((m.score_l, m.score_r, m.serve), (0, 1, Side::Left));
    m.score_point(Side::Left);
    assert_eq!((m.score_l, m.score_r, m.serve), (1, 1, Side::Right));
    assert_eq!(m.winner(), None);
}

#[test]
fn first_to_seven_wins_and_records_a_cpu_win() {
    let mut m = PongMatch::new();
    m.choose_mode(Some(1));
    let mut scores = HighScores::default();
    for _ in 0..3 {
        m.score_point(Side::Right);
    }
    for _ in 0..(TARGET - 1) {
        m.score_point(Side::Left);
        assert!(m.finish(&mut scores).is_none());
    }
    m.score_point(Side::Left);
    assert_eq!(m.winner(), Some(Side::Left));
    let r = m.finish(&mut scores).unwrap();
    assert_eq!(r.title, "YOU WIN");
    assert_eq!(r.score, 7);
    assert_eq!(r.subtitle, "7 - 3");
    assert_eq!(scores.pong_wins, 1);
}

#[test]
fn losing_to_the_cpu_records_nothing() {
    let mut m = PongMatch::new();
    m.choose_mode(Some(1));
    let mut scores = HighScores::default();
    for _ in 0..TARGET {
        m.score_point(Side::Right);
    }
    let r = m.finish(&mut scores).unwrap();
    assert_eq!(r.title, "CPU WINS");
    assert_eq!(r.subtitle, "0 - 7");
    assert_eq!(scores.pong_wins, 0);
}

#[test]
fn two_player_titles() {
    let mut m = PongMatch::new();
    m.choose_mode(Some(2));
    let mut scores = HighScores::default();
    for _ in 0..TARGET {
        m.score_point(Side::Left);
    }
    assert_eq!(m.finish(&mut scores).unwrap().title, "LEFT PLAYER WINS");
    assert_eq!(scores.pong_wins, 0);
    let mut m = PongMatch::new();
    m.choose_mode(Some(2));
    for _ in 0..12 {
        m.score_point(Side::Right);
    }
    let r = m.finish(&mut scores).unwrap();
    assert_eq!(r.title, "RIGHT PLAYER WINS");
    assert_eq!(r.score, 12);
    assert_eq!(r.subtitle, "0 - 12");
}

#[test]
fn end_sound_follows_the_winner() {
    let mut m = PongMatch::new();
    assert_eq!(m.end_sound(), None);
    for _ in 0..TARGET {
        m.score_point(Side::Right);
    }
    assert_eq!(m.end_sound(), Some(Sfx::Death));
    let mut m = PongMatch::new();
    for _ in 0..TARGET {
        m.score_point(Side::Left);
    }
    assert_eq!(m.end_sound(), Some(Sfx::Win));
}
