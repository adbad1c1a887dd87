use vstd::prelude::*;
use crate::app::GameResult;
use crate::audio::Sfx;
use crate::scores::HighScores;
use crate::text::{decimal, push_decimal};

verus! {

/// Points needed to win a match.
pub const TARGET: u32 = 7;

/// Before the match: choosing the mode; then: playing.
#[derive(Clone, Copy, PartialEq, Eq, Debug, Structural)]
pub enum Phase {
    ModeSelect,
    Playing,
}

/// Who plays the right paddle.
#[derive(Clone, Copy, PartialEq, Eq, Debug, Structural)]
pub enum Mode {
    VsCpu,
    TwoPlayer,
}

/// A side of the field.
#[derive(Clone, Copy, PartialEq, Eq, Debug, Structural)]
pub enum Side {
    Left,
    Right,
}

/// The score-keeping of a Pong match: its phase, mode, both scores, and the
/// side the next serve goes toward.
#[derive(Clone, Copy, PartialEq, Eq, Debug, Structural)]
pub struct PongMatch {
    pub phase: Phase,
    pub mode: Mode,
    pub score_l: u32,
    pub score_r: u32,
    pub serve: Side,
}

pub open spec fn other_side(s: Side) -> Side {
    match s {
        Side::Left => Side::Right,
        Side::Right => Side::Left,
    }
}

/// The winner of a match with these scores: the first side to reach
/// `TARGET` (the left side if both have).
pub open spec fn winner_spec(score_l: u32, score_r: u32) -> Option<Side> {
    if score_l >= TARGET {
        Some(Side::Left)
    } else if score_r >= TARGET {
        Some(Side::Right)
    } else {
        None
    }
}

/// The title shown when `winner` wins a match in `mode`.
pub open spec fn title_text(mode: Mode, winner: Side) -> Seq<char> {
    match (mode, winner) {
        (Mode::TwoPlayer, Side::Left) => "LEFT PLAYER WINS"@,
        (Mode::TwoPlayer, Side::Right) => "RIGHT PLAYER WINS"@,
        (Mode::VsCpu, Side::Left) => "YOU WIN"@,
        (Mode::VsCpu, Side::Right) => "CPU WINS"@,
    }
}

/// The score line of a match: "left - right".
pub open spec fn score_line(score_l: u32, score_r: u32) -> Seq<char> {
    decimal(score_l as nat) + " - "@ + decimal(score_r as nat)
}

impl PongMatch {
    /// A fresh match: choosing the mode, vs CPU by default, 0-0, serving right.
    pub fn new() -> (m: Self)
        ensures
            m.phase == Phase::ModeSelect,
            m.mode == Mode::VsCpu,
            m.score_l == 0,
            m.score_r == 0,
            m.serve == Side::Right,
    {
        PongMatch {
            phase: Phase::ModeSelect,
            mode: Mode::VsCpu,
            score_l: 0,
            score_r: 0,
            serve: Side::Right,
        }
    }

    /// While choosing the mode, 1 starts a match against the computer and 2 a
    /// match between two players; other input changes nothing.
    pub fn choose_mode(&mut self, digit: Option<u8>)
        ensures
            final(self).phase == if old(self).phase == Phase::ModeSelect && (digit == Some(1u8)
                || digit == Some(2u8)) {
                Phase::Playing
            } else {
                old(self).phase
            },
            final(self).mode == if old(self).phase == Phase::ModeSelect && digit == Some(1u8) {
                Mode::VsCpu
            } else if old(self).phase == Phase::ModeSelect && digit == Some(2u8) {
                Mode::TwoPlayer
            } else {
                old(self).mode
            },
            final(self).score_l == old(self).score_l,
            final(self).score_r == old(self).score_r,
            final(self).serve == old(self).serve,
    {
        if self.phase == Phase::ModeSelect {
            if digit == Some(1) {
                self.mode = Mode::VsCpu;
                self.phase = Phase::Playing;
            } else if digit == Some(2) {
                self.mode = Mode::TwoPlayer;
                self.phase = Phase::Playing;
            }
        }
    }

    /// `scorer` wins a point: its score goes up by one, the other stays, and
    /// the next serve goes toward the side that conceded.
    pub fn score_point(&mut self, scorer: Side)
        requires
            scorer == Side::Left ==> old(self).score_l < u32::MAX,
            scorer == Side::Right ==> old(self).score_r < u32::MAX,
        ensures
            final(self).score_l == old(self).score_l + if scorer == Side::Left { 1int } else { 0int },
            final(self).score_r == old(self).score_r + if scorer == Side::Right { 1int } else { 0int },
            final(self).serve == other_side(scorer),
            final(self).phase == old(self).phase,
            final(self).mode == old(self).mode,
    {
        match scorer {
            Side::Left => {
                self.score_l += 1;
                self.serve = Side::Right;
            },
            Side::Right => {
                self.score_r += 1;
                self.serve = Side::Left;
            },
        }
    }

    /// The winner, once a side has reached `TARGET` points.
    pub fn winner(&self) -> (w: Option<Side>)
        ensures
            w == winner_spec(self.score_l, self.score_r),
    {
        if self.score_l >= TARGET {
            Some(Side::Left)
        } else if self.score_r >= TARGET {
            Some(Side::Right)
        } else {
            None
        }
    }

    /// The sound that ends the match: the win fanfare when the left side
    /// has won, the death rumble when the right side has; none before.
    pub fn end_sound(&self) -> (s: Option<Sfx>)
        ensures
            s == match winner_spec(self.score_l, self.score_r) {
                Some(Side::Left) => Some(Sfx::Win),
                Some(Side::Right) => Some(Sfx::Death),
                None => None,
            },
    {
        match self.winner() {
            Some(Side::Left) => Some(Sfx::Win),
            Some(Side::Right) => Some(Sfx::Death),
            None => None,
        }
    }

    /// Ends a won match: records a win against the computer in `scores`, and
    /// gives the result to show. Gives nothing, and records nothing, while
    /// no side has won.
    pub fn finish(&self, scores: &mut HighScores) -> (r: Option<GameResult>)
        requires
            winner_spec(self.score_l, self.score_r) == Some(Side::Left) && self.mode == Mode::VsCpu
                ==> old(scores).pong_wins < u32::MAX,
        ensures
            match winner_spec(self.score_l, self.score_r) {
                None => r is None && *final(scores) == *old(scores),
                Some(w) => {
                    &&& r is Some
                    &&& r->0.title@ == title_text(self.mode, w)
                    &&& r->0.score == if self.score_l >= self.score_r {
                        self.score_l
                    } else {
                        self.score_r
                    }
                    &&& r->0.subtitle@ == score_line(self.score_l, self.score_r)
                    &&& final(scores).best_pacman == old(scores).best_pacman
                    &&& final(scores).pong_wins == old(scores).pong_wins + if self.mode
                        == Mode::VsCpu && w == Side::Left {
                        1int
                    } else {
                        0int
                    }
                },
            },
    {
        let w = match self.winner() {
            Some(w) => w,
            None => return None,
        };
        let title = match (self.mode, w) {
            (Mode::TwoPlayer, Side::Left) => String::from_str("LEFT PLAYER WINS"),
            (Mode::TwoPlayer, Side::Right) => String::from_str("RIGHT PLAYER WINS"),
            (Mode::VsCpu, Side::Left) => String::from_str("YOU WIN"),
            (Mode::VsCpu, Side::Right) => String::from_str("CPU WINS"),
        };
        if self.mode == Mode::VsCpu && w == Side::Left {
            scores.record_pong_win();
        }
        let mut subtitle = String::new();
        push_decimal(&mut subtitle, self.score_l);
        subtitle.append(" - ");
        push_decimal(&mut subtitle, self.score_r);
        let score = if self.score_l >= self.score_r {
            self.score_l
        } else {
            self.score_r
        };
        Some(GameResult { title, score, subtitle })
    }
}

/// First to `TARGET` wins: while neither side has `TARGET` points there is
/// no winner, and a point that brings a side to `TARGET` ends the match with
/// that side as winner.
pub proof fn law_first_to_target(before: PongMatch, after: PongMatch, scorer: Side)
    requires
        winner_spec(before.score_l, before.score_r) is None,
        after.score_l == before.score_l + if scorer == Side::Left { 1int } else { 0int },
        after.score_r == before.score_r + if scorer == Side::Right { 1int } else { 0int },
    ensures
        before.score_l < TARGET && before.score_r < TARGET,
        winner_spec(after.score_l, after.score_r) is Some ==> winner_spec(
            after.score_l,
            after.score_r,
        ) == Some(scorer),
        (scorer == Side::Left ==> (winner_spec(after.score_l, after.score_r) is Some
            <==> after.score_l == TARGET)),
        (scorer == Side::Right ==> (winner_spec(after.score_l, after.score_r) is Some
            <==> after.score_r == TARGET)),
{
}

} // verus!
