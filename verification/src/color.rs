//! The colours of the screens.

use vstd::prelude::*;

verus! {

/// A terminal colour.
#[derive(Clone, Copy, Debug, PartialEq, Eq, Structural)]
pub enum Color {
    Yellow,
    Blue,
    Green,
    DarkGreen,
    DarkYellow,
    White,
    Grey,
    DarkGrey,
    Cyan,
    Red,
    DarkRed,
}

} // verus!
