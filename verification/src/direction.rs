//! Two-dimensional directions with signed unit components, and their
//! rotation by complex multiplication.

use vstd::prelude::*;

verus! {

/// The direction on the X axis.
#[derive(Clone, Copy, PartialEq, Eq, Structural, Debug)]
pub enum LeftRight {
    /// To the left.
    Left,
    /// Horizontally neutral.
    Middle,
    /// To the right.
    Right,
}

/// The direction on the Y axis; the Y axis points up.
#[derive(Clone, Copy, PartialEq, Eq, Structural, Debug)]
pub enum UpDown {
    /// Downwards.
    Down,
    /// Vertically neutral.
    Middle,
    /// Upwards.
    Up,
}

/// The signed unit step a horizontal direction stands for.
pub open spec fn lr_int(d: LeftRight) -> int {
    match d {
        LeftRight::Left => -1,
        LeftRight::Middle => 0,
        LeftRight::Right => 1,
    }
}

/// The signed unit step a vertical direction stands for.
pub open spec fn ud_int(d: UpDown) -> int {
    match d {
        UpDown::Down => -1,
        UpDown::Middle => 0,
        UpDown::Up => 1,
    }
}

/// The horizontal direction from 0 to a point on the X axis.
pub open spec fn lr_sign(x: int) -> LeftRight {
    if x < 0 {
        LeftRight::Left
    } else if x > 0 {
        LeftRight::Right
    } else {
        LeftRight::Middle
    }
}

/// The vertical direction from 0 to a point on the Y axis.
pub open spec fn ud_sign(x: int) -> UpDown {
    if x < 0 {
        UpDown::Down
    } else if x > 0 {
        UpDown::Up
    } else {
        UpDown::Middle
    }
}

impl LeftRight {
    /// The direction from 0 to a point on the X axis: `Left` if the point
    /// has a negative value, `Middle` at 0, `Right` otherwise.
    pub fn from_int(i: i8) -> (r: LeftRight)
        ensures
            r == lr_sign(i as int),
    {
        if i < 0 {
            LeftRight::Left
        } else if i > 0 {
            LeftRight::Right
        } else {
            LeftRight::Middle
        }
    }

    /// This direction as a signed unit step.
    pub fn as_int(self) -> (r: i8)
        ensures
            r == lr_int(self),
    {
        match self {
            LeftRight::Left => -1,
            LeftRight::Middle => 0,
            LeftRight::Right => 1,
        }
    }
}

impl UpDown {
    /// The direction from 0 to a point on the Y axis: `Up` if the point
    /// is above 0, `Down` below, `Middle` at 0.
    pub fn from_int(i: i8) -> (r: UpDown)
        ensures
            r == ud_sign(i as int),
    {
        if i > 0 {
            UpDown::Up
        } else if i < 0 {
            UpDown::Down
        } else {
            UpDown::Middle
        }
    }

    /// This direction as a signed unit step.
    pub fn as_int(self) -> (r: i8)
        ensures
            r == ud_int(self),
    {
        match self {
            UpDown::Down => -1,
            UpDown::Middle => 0,
            UpDown::Up => 1,
        }
    }
}

/// A two-dimensional direction.
#[derive(Clone, Copy, PartialEq, Eq, Structural, Debug)]
pub struct Direction(pub LeftRight, pub UpDown);

/// Rotation of a direction, read as the complex number `x + y i` with
/// parts in `{-1, 0, 1}`, by the complex number `re + im i`, each part of
/// the product collapsed back to its sign.
pub open spec fn rot_by_spec(d: Direction, re: int, im: int) -> Direction {
    let a = lr_int(d.0);
    let b = ud_int(d.1);
    Direction(lr_sign(a * re - b * im), ud_sign(a * im + b * re))
}

impl Direction {
    /// Multiply this direction by the complex number `re + im i` (see
    /// `rot_by_spec`).
    pub fn rot_by(&self, re: i8, im: i8) -> (r: Direction)
        requires
            -63 <= re <= 63,
            -63 <= im <= 63,
        ensures
            r == rot_by_spec(*self, re as int, im as int),
    {
        let a = self.0.as_int();
        let b = self.1.as_int();
        proof {
            assert(-63 <= a * re <= 63 && -63 <= b * im <= 63 && -63 <= a * im <= 63 && -63 <= b
                * re <= 63) by (nonlinear_arith)
                requires
                    -1 <= a <= 1,
                    -1 <= b <= 1,
                    -63 <= re <= 63,
                    -63 <= im <= 63,
            ;
        }
        Direction(LeftRight::from_int(a * re - b * im), UpDown::from_int(a * im + b * re))
    }

    /// Rotate clockwise by an eighth of a turn: multiply by `1 - i`.
    pub fn rot_cw(&self) -> (r: Direction)
        ensures
            r == rot_by_spec(*self, 1, -1),
    {
        self.rot_by(1, -1)
    }

    /// Rotate counterclockwise by an eighth of a turn: multiply by
    /// `1 + i`.
    pub fn rot_ctr_cw(&self) -> (r: Direction)
        ensures
            r == rot_by_spec(*self, 1, 1),
    {
        self.rot_by(1, 1)
    }
}

/// An eighth-turn clockwise rotation followed by a counterclockwise one
/// gives back the starting direction, for every direction.
pub proof fn lemma_rot_cw_ctr_cw_inverse(d: Direction)
    ensures
        rot_by_spec(rot_by_spec(d, 1, -1), 1, 1) == d,
{
}

} // verus!
