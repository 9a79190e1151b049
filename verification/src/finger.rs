//! Fingers of the touch-typing method.

use vstd::prelude::*;

verus! {

/// Each finger, in the order the on-screen hand diagram numbers them.
/// `Any` stands for "no particular finger".
#[derive(Debug, Clone, Copy, PartialEq, Eq, Structural)]
pub enum Finger {
    Any,
    LeftPinky,
    LeftRing,
    LeftMiddle,
    LeftIndex,
    LeftThumb,
    RightThumb,
    RightIndex,
    RightMiddle,
    RightRing,
    RightPinky,
}

/// The number the hand diagram uses for a finger: -1 for `Any`, then
/// 0 (left pinky) through 9 (right pinky).
pub open spec fn finger_index(f: Finger) -> int {
    match f {
        Finger::Any => -1,
        Finger::LeftPinky => 0,
        Finger::LeftRing => 1,
        Finger::LeftMiddle => 2,
        Finger::LeftIndex => 3,
        Finger::LeftThumb => 4,
        Finger::RightThumb => 5,
        Finger::RightIndex => 6,
        Finger::RightMiddle => 7,
        Finger::RightRing => 8,
        Finger::RightPinky => 9,
    }
}

impl Finger {
    /// The diagram number of this finger.
    pub fn as_i32(self) -> (r: i32)
        ensures
            r == finger_index(self),
    {
        match self {
            Finger::Any => -1,
            Finger::LeftPinky => 0,
            Finger::LeftRing => 1,
            Finger::LeftMiddle => 2,
            Finger::LeftIndex => 3,
            Finger::LeftThumb => 4,
            Finger::RightThumb => 5,
            Finger::RightIndex => 6,
            Finger::RightMiddle => 7,
            Finger::RightRing => 8,
            Finger::RightPinky => 9,
        }
    }
}

/// How the typing hint names a finger.
pub open spec fn finger_name(f: Finger) -> Seq<char> {
    match f {
        Finger::Any => "any"@,
        Finger::LeftPinky => "left pinky"@,
        Finger::LeftRing => "left ring"@,
        Finger::LeftMiddle => "left middle"@,
        Finger::LeftIndex => "left index"@,
        Finger::LeftThumb => "left thumb"@,
        Finger::RightThumb => "right thumb"@,
        Finger::RightIndex => "right index"@,
        Finger::RightMiddle => "right middle"@,
        Finger::RightRing => "right ring"@,
        Finger::RightPinky => "right pinky"@,
    }
}

/// The words the typing hint uses for a finger ("left index", ...).
pub fn finger_label(f: Finger) -> (s: &'static str)
    ensures
        s@ == finger_name(f),
{
    match f {
        Finger::Any => "any",
        Finger::LeftPinky => "left pinky",
        Finger::LeftRing => "left ring",
        Finger::LeftMiddle => "left middle",
        Finger::LeftIndex => "left index",
        Finger::LeftThumb => "left thumb",
        Finger::RightThumb => "right thumb",
        Finger::RightIndex => "right index",
        Finger::RightMiddle => "right middle",
        Finger::RightRing => "right ring",
        Finger::RightPinky => "right pinky",
    }
}

} // verus!
