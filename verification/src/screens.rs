use vstd::prelude::*;
use crate::app::{ScreenId, Transition};
use crate::audio::Sfx;
use crate::input::Input;

verus! {

/// The entries of the main menu, in order.
pub const ITEMS: [&'static str; 5] = ["Pac-Man", "Pong", "Instructions", "Credits", "Quit"];

/// Number of menu entries.
pub const ITEM_COUNT: usize = 5;

pub open spec fn menu_target_spec(index: int) -> Transition {
    if index == 0 {
        Transition::Goto(ScreenId::Pacman)
    } else if index == 1 {
        Transition::Goto(ScreenId::Pong)
    } else if index == 2 {
        Transition::Goto(ScreenId::Instructions)
    } else if index == 3 {
        Transition::Goto(ScreenId::Credits)
    } else {
        Transition::Quit
    }
}

/// Maps a 0-based menu index to its transition.
pub fn menu_target(index: usize) -> (t: Transition)
    ensures
        t == menu_target_spec(index as int),
{
    match index {
        0 => Transition::Goto(ScreenId::Pacman),
        1 => Transition::Goto(ScreenId::Pong),
        2 => Transition::Goto(ScreenId::Instructions),
        3 => Transition::Goto(ScreenId::Credits),
        _ => Transition::Quit,
    }
}

/// The highlighted entry of the main menu.
pub struct MenuCursor {
    selected: usize,
}

impl View for MenuCursor {
    type V = nat;

    closed spec fn view(&self) -> nat {
        self.selected as nat
    }
}

/// The entry above `i`, wrapping from the first to the last.
pub open spec fn entry_above(i: nat) -> nat {
    ((i + 4) % 5) as nat
}

/// The entry below `i`, wrapping from the last to the first.
pub open spec fn entry_below(i: nat) -> nat {
    ((i + 1) % 5) as nat
}

/// The highlight after this frame's input: one entry up while Up or W is
/// held, then one entry down while Down or S is held.
pub open spec fn moved_selection(sel: nat, input: Input) -> nat {
    let a = if input.up || input.w {
        entry_above(sel)
    } else {
        sel
    };
    if input.down || input.s {
        entry_below(a)
    } else {
        a
    }
}

/// The menu entry a pressed digit names: digit `d` names entry `d - 1`.
pub open spec fn digit_entry(digit: Option<u8>) -> Option<nat> {
    match digit {
        Some(d) => if 1 <= d <= 5 {
            Some((d - 1) as nat)
        } else if d == 0 {
            Some(0nat)
        } else {
            None
        },
        None => None,
    }
}

/// What the menu answers to a frame of input with the highlight at `sel`
/// (after moving it): a digit picks its entry, Escape quits, Enter or Space
/// picks the highlighted entry with a click.
pub open spec fn menu_answer(sel: nat, input: Input) -> (Option<Transition>, Option<Sfx>) {
    match digit_entry(input.digit) {
        Some(e) => (Some(menu_target_spec(e as int)), None),
        None => if input.escape {
            (Some(Transition::Quit), None)
        } else if input.enter || input.space {
            (Some(menu_target_spec(sel as int)), Some(Sfx::Select))
        } else {
            (None, None)
        },
    }
}

impl MenuCursor {
    #[verifier::type_invariant]
    spec fn in_range(self) -> bool {
        self.selected < 5
    }

    pub fn new() -> (m: Self)
        ensures
            m@ == 0,
    {
        MenuCursor { selected: 0 }
    }

    /// The highlighted entry.
    pub fn selected(&self) -> (i: usize)
        ensures
            i == self@,
            i < ITEM_COUNT,
    {
        proof {
            use_type_invariant(self);
        }
        self.selected
    }

    /// Moves the highlight while Up/W or Down/S is held, then answers the input:
    /// the transition to take, if any, and the sound to play, if any.
    /// The highlight always stays on one of the entries.
    pub fn update(&mut self, input: &Input) -> (res: (Option<Transition>, Option<Sfx>))
        ensures
            final(self)@ == moved_selection(old(self)@, *input),
            final(self)@ < ITEM_COUNT,
            res == menu_answer(final(self)@, *input),
            // Without a digit, Escape quits silently, and otherwise Enter and
            // Space alike pick the highlighted entry with a click.
            input.digit is None && input.escape ==> res == (Some(Transition::Quit), None::<Sfx>),
            input.digit is None && !input.escape && (input.enter || input.space) ==> res == (
            Some(menu_target_spec(final(self)@ as int)), Some(Sfx::Select)),
            input.digit is None && !input.escape && !input.enter && !input.space ==> res == (
            None::<Transition>, None::<Sfx>),
    {
        proof {
            use_type_invariant(&*self);
        }
        let mut sel = self.selected;
        if input.up || input.w {
            sel = (sel + ITEM_COUNT - 1) % ITEM_COUNT;
        }
        if input.down || input.s {
            sel = (sel + 1) % ITEM_COUNT;
        }
        self.selected = sel;
        if let Some(d) = input.digit {
            let idx = (d as usize).saturating_sub(1);
            if idx < ITEM_COUNT {
                return (Some(menu_target(idx)), None);
            }
        }
        if input.escape {
            return (Some(Transition::Quit), None);
        }
        if input.enter || input.space {
            return (Some(menu_target(sel)), Some(Sfx::Select));
        }
        (None, None)
    }
}

/// Moving the highlight up and then down (or down and then up) returns it to
/// where it was.
pub proof fn law_up_down_cancel(sel: nat)
    requires
        sel < 5,
    ensures
        entry_below(entry_above(sel)) == sel,
        entry_above(entry_below(sel)) == sel,
{
}

/// Space answers exactly as Enter does: with the same highlight and the same
/// other keys, pressing Space instead of Enter gives the same transition and
/// sound; without a digit or Escape either one picks the highlighted entry
/// with a click.
pub proof fn law_space_is_enter(sel: nat, i: Input)
    requires
        sel < 5,
    ensures
        menu_answer(sel, (Input { space: true, enter: false, ..i })) == menu_answer(
            sel,
            (Input { space: false, enter: true, ..i }),
        ),
        i.digit is None && !i.escape && (i.space || i.enter) ==> menu_answer(sel, i) == (
        Some(menu_target_spec(sel as int)), Some(Sfx::Select)),
        (sel == 0 ==> menu_target_spec(sel as int) == Transition::Goto(ScreenId::Pacman)),
        (sel == 4 ==> menu_target_spec(sel as int) == Transition::Quit),
{
}

/// Any key leaves an information screen (Instructions, Credits, Game Over)
/// for the menu.
pub fn dismiss(input: &Input) -> (t: Option<Transition>)
    ensures
        t == if input.any_pressed || input.escape || input.enter {
            Some(Transition::Goto(ScreenId::Menu))
        } else {
            None
        },
{
    if input.any_pressed || input.escape || input.enter {
        return Some(Transition::Goto(ScreenId::Menu));
    }
    None
}

/// Escape leaves a game for the menu.
pub fn back_to_menu(input: &Input) -> (t: Option<Transition>)
    ensures
        t == if input.escape {
            Some(Transition::Goto(ScreenId::Menu))
        } else {
            None
        },
{
    if input.escape {
        return Some(Transition::Goto(ScreenId::Menu));
    }
    None
}

/// The Instructions page.
#[derive(Default)]
pub struct Instructions;

impl Instructions {
    pub fn new() -> Self {
        Instructions
    }

    pub fn update(&mut self, input: &Input) -> (t: Option<Transition>)
        ensures
            t == if input.any_pressed || input.escape || input.enter {
                Some(Transition::Goto(ScreenId::Menu))
            } else {
                None
            },
    {
        dismiss(input)
    }

    pub fn id(&self) -> (id: ScreenId)
        ensures
            id == ScreenId::Instructions,
    {
        ScreenId::Instructions
    }
}

/// The Credits page.
#[derive(Default)]
pub struct Credits;

impl Credits {
    pub fn new() -> Self {
        Credits
    }

    pub fn update(&mut self, input: &Input) -> (t: Option<Transition>)
        ensures
            t == if input.any_pressed || input.escape || input.enter {
                Some(Transition::Goto(ScreenId::Menu))
            } else {
                None
            },
    {
        dismiss(input)
    }

    pub fn id(&self) -> (id: ScreenId)
        ensures
            id == ScreenId::Credits,
    {
        ScreenId::Credits
    }
}

} // verus!
