use vstd::prelude::*;

verus! {

/// One frame's snapshot of the keyboard. `enter`, `space`, `escape`,
/// `digit` and `any_pressed` report keys that went down this frame; the
/// direction and letter keys are true while held.
#[derive(Clone, Copy, Debug)]
pub struct Input {
    pub up: bool,
    pub down: bool,
    pub left: bool,
    pub right: bool,
    pub w: bool,
    pub a: bool,
    pub s: bool,
    pub d: bool,
    pub enter: bool,
    pub space: bool,
    pub escape: bool,
    pub digit: Option<u8>,
    pub any_pressed: bool,
}

impl Default for Input {
    /// No key held or pressed.
    fn default() -> (i: Self)
        ensures
            !i.up && !i.down && !i.left && !i.right,
            !i.w && !i.a && !i.s && !i.d,
            !i.enter && !i.space && !i.escape,
            i.digit is None,
            !i.any_pressed,
    {
        Input {
            up: false,
            down: false,
            left: false,
            right: false,
            w: false,
            a: false,
            s: false,
            d: false,
            enter: false,
            space: false,
            escape: false,
            digit: None,
            any_pressed: false,
        }
    }
}

/// The grid direction that the held keys ask for: arrows and WASD count
/// alike, opposite keys cancel, and vertical wins when both axes are held.
pub open spec fn dir4_spec(i: Input) -> (i32, i32) {
    let up = i.up || i.w;
    let down = i.down || i.s;
    let left = i.left || i.a;
    let right = i.right || i.d;
    if up && !down {
        (0i32, -1i32)
    } else if down && !up {
        (0i32, 1i32)
    } else if left && !right {
        (-1i32, 0i32)
    } else if right && !left {
        (1i32, 0i32)
    } else {
        (0i32, 0i32)
    }
}

/// Each arrow key steers like its WASD counterpart: Left and A go left,
/// Right and D go right, Up and W go up, Down and S go down; a vertical key
/// held alone wins over horizontal ones; nothing held, or only opposite keys,
/// means standing still.
pub proof fn law_dir4_keys(i: Input)
    ensures
        (i.up || i.w) && !i.down && !i.s ==> dir4_spec(i) == (0i32, -1i32),
        (i.down || i.s) && !i.up && !i.w ==> dir4_spec(i) == (0i32, 1i32),
        !i.up && !i.w && !i.down && !i.s && (i.left || i.a) && !i.right && !i.d ==> dir4_spec(i)
            == (-1i32, 0i32),
        !i.up && !i.w && !i.down && !i.s && (i.right || i.d) && !i.left && !i.a ==> dir4_spec(i)
            == (1i32, 0i32),
        !i.up && !i.w && !i.down && !i.s && !i.left && !i.a && !i.right && !i.d ==> dir4_spec(i)
            == (0i32, 0i32),
{
}

impl Input {
    /// Grid direction from arrows OR WASD. Vertical wins when both axes are held.
    pub fn dir4(&self) -> (d: (i32, i32))
        ensures
            d == dir4_spec(*self),
            // A unit step along one axis, or none.
            d == (0i32, 0i32) || d == (0i32, -1i32) || d == (0i32, 1i32) || d == (-1i32, 0i32)
                || d == (1i32, 0i32),
            // With no vertical key held, the Left arrow or A alone goes left
            // and the Right arrow or D alone goes right.
            !self.up && !self.w && !self.down && !self.s ==> {
                &&& (self.left || self.a) && !self.right && !self.d ==> d == (-1i32, 0i32)
                &&& (self.right || self.d) && !self.left && !self.a ==> d == (1i32, 0i32)
            },
            // The Up arrow or W alone goes up, the Down arrow or S alone down,
            // whatever horizontal keys are held.
            (self.up || self.w) && !self.down && !self.s ==> d == (0i32, -1i32),
            (self.down || self.s) && !self.up && !self.w ==> d == (0i32, 1i32),
    {
        let up = self.up || self.w;
        let down = self.down || self.s;
        let left = self.left || self.a;
        let right = self.right || self.d;
        if up && !down {
            return (0, -1);
        }
        if down && !up {
            return (0, 1);
        }
        if left && !right {
            return (-1, 0);
        }
        if right && !left {
            return (1, 0);
        }
        (0, 0)
    }
}

} // verus!
