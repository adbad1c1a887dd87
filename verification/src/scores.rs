use vstd::prelude::*;
use crate::text::{chars_of, decimal, find_token_end, is_ws, is_digit, lemma_decimal, lemma_parse_decimal, lemma_token_end, nth_token, parse_u32, parse_u32_at, push_decimal, skip_whitespace, skip_ws, token_end, token_start};

verus! {

/// Persistent high scores: the best Pac-Man score and the number of Pong
/// wins against the computer.
#[derive(Clone, Copy, PartialEq, Eq, Debug, Structural)]
pub struct HighScores {
    pub best_pacman: u32,
    pub pong_wins: u32,
}

impl Default for HighScores {
    fn default() -> (h: Self)
        ensures
            h.best_pacman == 0,
            h.pong_wins == 0,
    {
        HighScores { best_pacman: 0, pong_wins: 0 }
    }
}

impl HighScores {
    /// Records a Pac-Man score. Returns true if it beat the previous best.
    /// The best score never decreases.
    pub fn record_pacman(&mut self, score: u32) -> (beat: bool)
        ensures
            beat == (score > old(self).best_pacman),
            final(self).best_pacman == if beat { score } else { old(self).best_pacman },
            final(self).best_pacman >= old(self).best_pacman,
            final(self).best_pacman >= score,
            final(self).pong_wins == old(self).pong_wins,
    {
        if score > self.best_pacman {
            self.best_pacman = score;
            true
        } else {
            false
        }
    }

    /// Counts one more Pong win against the computer.
    pub fn record_pong_win(&mut self)
        requires
            old(self).pong_wins < u32::MAX,
        ensures
            final(self).pong_wins == old(self).pong_wins + 1,
            final(self).best_pacman == old(self).best_pacman,
    {
        self.pong_wins += 1;
    }
}

/// The value of a token if it reads as a `u32`, else zero.
pub open spec fn token_value(tok: Option<Seq<char>>) -> u32 {
    match tok {
        Some(t) => match parse_u32(t) {
            Some(v) => v,
            None => 0,
        },
        None => 0,
    }
}

/// The scores that a stored text describes: the first whitespace-separated
/// token is the best Pac-Man score and the second the Pong wins; a missing or
/// unreadable token counts as zero.
pub open spec fn scores_from_text(s: Seq<char>) -> (u32, u32) {
    (token_value(nth_token(s, 0)), token_value(nth_token(s, 1)))
}

/// The stored text of a set of scores: both numbers in decimal, separated by
/// one space.
pub open spec fn scores_text(best_pacman: u32, pong_wins: u32) -> Seq<char> {
    decimal(best_pacman as nat) + seq![' '] + decimal(pong_wins as nat)
}

/// The value of the token of `v` that starts the search at `from`, and where
/// that token ends.
fn read_token(v: &Vec<char>, from: usize) -> (r: (u32, usize))
    requires
        from <= v.len(),
    ensures
        r.1 <= v.len(),
        ({
            let st = skip_ws(v@, from as int);
            &&& r.1 == token_end(v@, st)
            &&& r.0 == token_value(
                if st < v@.len() {
                    Some(v@.subrange(st, token_end(v@, st)))
                } else {
                    None
                },
            )
        }),
{
    let st = skip_whitespace(v, from);
    let en = find_token_end(v, st);
    if st < v.len() {
        match parse_u32_at(v, st, en) {
            Some(x) => (x, en),
            None => (0, en),
        }
    } else {
        (0, en)
    }
}

/// Reads high scores from the stored text, or gives the defaults when there
/// is none. Never fails: an unreadable number counts as zero.
pub fn load(contents: Option<&str>) -> (h: HighScores)
    ensures
        match contents {
            None => h.best_pacman == 0 && h.pong_wins == 0,
            Some(s) => (h.best_pacman, h.pong_wins) == scores_from_text(s@),
        },
{
    let mut h = HighScores::default();
    if let Some(s) = contents {
        let v = chars_of(s);
        let (best, end0) = read_token(&v, 0);
        let (wins, _end1) = read_token(&v, end0);
        proof {
            assert(token_start(v@, 0) == skip_ws(v@, 0));
            assert(token_start(v@, 1) == skip_ws(v@, token_end(v@, token_start(v@, 0))));
        }
        h.best_pacman = best;
        h.pong_wins = wins;
    }
    h
}

/// The text under which `h` is stored.
pub fn save(h: &HighScores) -> (s: String)
    ensures
        s@ == scores_text(h.best_pacman, h.pong_wins),
{
    let mut s = String::new();
    push_decimal(&mut s, h.best_pacman);
    s.append(" ");
    push_decimal(&mut s, h.pong_wins);
    proof {
        reveal_strlit(" ");
    }
    s
}

/// What `save` writes, `load` reads back unchanged.
pub proof fn law_saved_scores_load_back(best_pacman: u32, pong_wins: u32)
    ensures
        scores_from_text(scores_text(best_pacman, pong_wins)) == (best_pacman, pong_wins),
{
    let a = decimal(best_pacman as nat);
    let b = decimal(pong_wins as nat);
    let s = scores_text(best_pacman, pong_wins);
    lemma_decimal(best_pacman as nat);
    lemma_decimal(pong_wins as nat);
    lemma_parse_decimal(best_pacman);
    lemma_parse_decimal(pong_wins);
    let la = a.len() as int;
    assert(s.len() == la + 1 + b.len());
    assert(forall|k: int| 0 <= k < la ==> s[k] == a[k]);
    assert(s[la] == ' ');
    assert(forall|k: int| la + 1 <= k < s.len() ==> s[k] == b[k - la - 1]);
    assert(is_ws(s[la]));
    assert(skip_ws(s, 0) == 0);
    assert forall|k: int| 0 <= k < la implies !is_ws(#[trigger] s[k]) by {
        assert(is_digit(a[k]));
    }
    lemma_token_end(s, 0, la);
    assert(token_start(s, 0) == 0);
    assert(s.subrange(0, la) =~= a);
    assert(!is_ws(s[la + 1])) by {
        assert(s[la + 1] == b[0]);
    }
    assert(skip_ws(s, la + 1) == la + 1);
    assert(skip_ws(s, la) == la + 1);
    assert forall|k: int| la + 1 <= k < s.len() implies !is_ws(#[trigger] s[k]) by {
        assert(s[k] == b[k - la - 1]);
        assert(is_digit(b[k - la - 1]));
    }
    lemma_token_end(s, la + 1, s.len() as int);
    assert(token_start(s, 1) == la + 1);
    assert(s.subrange(la + 1, s.len() as int) =~= b);
}

} // verus!
