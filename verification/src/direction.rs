use vstd::prelude::*;

use crate::text::{eq_nocase, seq_eq_nocase};

verus! {

/// The direction in which a strip lays its panels out. `BottomUp` and
/// `RightToLeft` reverse the iteration order of the children, so that the
/// first declared panel is always the visually first one.
#[derive(Clone, Copy, Debug, PartialEq, Eq, Structural)]
pub enum Direction {
    BottomUp,
    LeftToRight,
    RightToLeft,
    TopDown,
}

/// The physical axis a direction subdivides along.
#[derive(Clone, Copy, Debug, PartialEq, Eq, Structural)]
pub enum Axis {
    Horizontal,
    Vertical,
}

/// The alias table of the `direction` attribute, matched without regard to
/// case.
pub open spec fn spec_direction(s: Seq<char>) -> Option<Direction> {
    if seq_eq_nocase(s, "bottomup"@) || seq_eq_nocase(s, "bu"@) || seq_eq_nocase(s, "south"@)
        || seq_eq_nocase(s, "s"@) {
        Some(Direction::BottomUp)
    } else if seq_eq_nocase(s, "lefttoright"@) || seq_eq_nocase(s, "ltr"@) || seq_eq_nocase(
        s,
        "west"@,
    ) || seq_eq_nocase(s, "w"@) {
        Some(Direction::LeftToRight)
    } else if seq_eq_nocase(s, "righttoleft"@) || seq_eq_nocase(s, "rtl"@) || seq_eq_nocase(
        s,
        "east"@,
    ) || seq_eq_nocase(s, "e"@) {
        Some(Direction::RightToLeft)
    } else if seq_eq_nocase(s, "topdown"@) || seq_eq_nocase(s, "td"@) || seq_eq_nocase(
        s,
        "north"@,
    ) || seq_eq_nocase(s, "n"@) {
        Some(Direction::TopDown)
    } else {
        None
    }
}

pub open spec fn dir_axis(d: Direction) -> Axis {
    match d {
        Direction::BottomUp => Axis::Vertical,
        Direction::TopDown => Axis::Vertical,
        Direction::LeftToRight => Axis::Horizontal,
        Direction::RightToLeft => Axis::Horizontal,
    }
}

/// Whether the direction lays children out in reverse declaration order.
pub open spec fn dir_reversed(d: Direction) -> bool {
    d == Direction::BottomUp || d == Direction::RightToLeft
}

pub fn parse_direction(s: &str) -> (r: Option<Direction>)
    ensures
        r == spec_direction(s@),
{
    if eq_nocase(s, "bottomup") || eq_nocase(s, "bu") || eq_nocase(s, "south") || eq_nocase(
        s,
        "s",
    ) {
        Some(Direction::BottomUp)
    } else if eq_nocase(s, "lefttoright") || eq_nocase(s, "ltr") || eq_nocase(s, "west")
        || eq_nocase(s, "w") {
        Some(Direction::LeftToRight)
    } else if eq_nocase(s, "righttoleft") || eq_nocase(s, "rtl") || eq_nocase(s, "east")
        || eq_nocase(s, "e") {
        Some(Direction::RightToLeft)
    } else if eq_nocase(s, "topdown") || eq_nocase(s, "td") || eq_nocase(s, "north") || eq_nocase(
        s,
        "n",
    ) {
        Some(Direction::TopDown)
    } else {
        None
    }
}

impl Direction {
    pub fn axis(&self) -> (r: Axis)
        ensures
            r == dir_axis(*self),
    {
        match self {
            Direction::BottomUp => Axis::Vertical,
            Direction::TopDown => Axis::Vertical,
            Direction::LeftToRight => Axis::Horizontal,
            Direction::RightToLeft => Axis::Horizontal,
        }
    }

    pub fn reversed(&self) -> (r: bool)
        ensures
            r == dir_reversed(*self),
    {
        match self {
            Direction::BottomUp => true,
            Direction::RightToLeft => true,
            Direction::LeftToRight => false,
            Direction::TopDown => false,
        }
    }
}

/// The size kind of a panel.
#[derive(Clone, Copy, Debug, PartialEq, Eq, Structural)]
pub enum SizeKind {
    Remainder,
    Exact,
    Relative,
    Initial,
}

/// The alias table of the `size` attribute, matched without regard to case.
pub open spec fn spec_size_kind(s: Seq<char>) -> Option<SizeKind> {
    if seq_eq_nocase(s, "remainder"@) || seq_eq_nocase(s, "rem"@) {
        Some(SizeKind::Remainder)
    } else if seq_eq_nocase(s, "exact"@) || seq_eq_nocase(s, "ex"@) {
        Some(SizeKind::Exact)
    } else if seq_eq_nocase(s, "relative"@) || seq_eq_nocase(s, "rel"@) {
        Some(SizeKind::Relative)
    } else if seq_eq_nocase(s, "initial"@) || seq_eq_nocase(s, "init"@) {
        Some(SizeKind::Initial)
    } else {
        None
    }
}

pub fn parse_size_kind(s: &str) -> (r: Option<SizeKind>)
    ensures
        r == spec_size_kind(s@),
{
    if eq_nocase(s, "remainder") || eq_nocase(s, "rem") {
        Some(SizeKind::Remainder)
    } else if eq_nocase(s, "exact") || eq_nocase(s, "ex") {
        Some(SizeKind::Exact)
    } else if eq_nocase(s, "relative") || eq_nocase(s, "rel") {
        Some(SizeKind::Relative)
    } else if eq_nocase(s, "initial") || eq_nocase(s, "init") {
        Some(SizeKind::Initial)
    } else {
        None
    }
}

} // verus!
