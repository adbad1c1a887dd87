use vstd::prelude::*;

verus! {

/// The pages of the arcade.
#[derive(Clone, Copy, PartialEq, Eq, Debug, Structural)]
pub enum ScreenId {
    Menu,
    Instructions,
    Credits,
    Pong,
    Pacman,
    GameOver,
}

/// What a screen asks for after an update: another screen, or the end.
#[derive(Clone, Copy, PartialEq, Eq, Debug, Structural)]
pub enum Transition {
    Goto(ScreenId),
    Quit,
}

/// Which screen is showing and whether the arcade has been asked to close.
#[derive(Clone, Copy, PartialEq, Eq, Debug, Structural)]
pub struct AppState {
    pub current: ScreenId,
    pub quit: bool,
}

impl AppState {
    pub fn new(start: ScreenId) -> (s: Self)
        ensures
            s.current == start,
            !s.quit,
    {
        AppState { current: start, quit: false }
    }

    pub fn current_id(&self) -> (id: ScreenId)
        ensures
            id == self.current,
    {
        self.current
    }

    /// Follows what the current screen asked for: `Goto` switches screens,
    /// `Quit` raises the quit flag and keeps the screen, nothing changes
    /// nothing. Returns the screen to build when it switched.
    pub fn apply(&mut self, t: Option<Transition>) -> (built: Option<ScreenId>)
        ensures
            match t {
                Some(Transition::Goto(id)) => final(self).current == id && final(self).quit
                    == old(self).quit && built == Some(id),
                Some(Transition::Quit) => final(self).current == old(self).current
                    && final(self).quit && built is None,
                None => *final(self) == *old(self) && built is None,
            },
            // Once asked to quit, the arcade stays asked to quit.
            old(self).quit ==> final(self).quit,
    {
        match t {
            Some(Transition::Goto(id)) => {
                self.current = id;
                Some(id)
            },
            Some(Transition::Quit) => {
                self.quit = true;
                None
            },
            None => None,
        }
    }
}

} // verus!

verus! {

/// Data carried from a finished game back to the Game Over screen.
pub struct GameResult {
    pub title: String,
    pub score: u32,
    pub subtitle: String,
}

} // verus!
