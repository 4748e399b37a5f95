//! Alignment of a figure relative to its anchor, per axis.

use vstd::prelude::*;

verus! {

/// Where the anchor of a figure lies along one axis: at its beginning, at its
/// centre or at its end.
#[derive(Clone, Copy, Debug, PartialEq, Eq, Structural)]
pub enum Alignment {
    Begin,
    Center,
    End,
}

impl Alignment {
    /// The letter that stands for the alignment in the protocol.
    pub open spec fn letter(self) -> char {
        match self {
            Alignment::Begin => 'B',
            Alignment::Center => 'C',
            Alignment::End => 'E',
        }
    }

    /// The alignment that a letter stands for.
    pub open spec fn of_letter(c: char) -> Option<Alignment> {
        if c == 'B' {
            Some(Alignment::Begin)
        } else if c == 'C' {
            Some(Alignment::Center)
        } else if c == 'E' {
            Some(Alignment::End)
        } else {
            None
        }
    }

    /// The letter that stands for the alignment in the protocol.
    pub fn to_char(&self) -> (c: char)
        ensures
            c == self.letter(),
            Alignment::of_letter(c) == Some(*self),
    {
        match self {
            Alignment::Begin => 'B',
            Alignment::Center => 'C',
            Alignment::End => 'E',
        }
    }

    /// Reads a letter of the protocol: `B`, `C` or `E`.
    pub fn from_char(c: char) -> (r: Option<Alignment>)
        ensures
            r == Alignment::of_letter(c),
    {
        if c == 'B' {
            Some(Alignment::Begin)
        } else if c == 'C' {
            Some(Alignment::Center)
        } else if c == 'E' {
            Some(Alignment::End)
        } else {
            None
        }
    }

    /// By how many half-extents the anchor is moved to reach the centre of the
    /// figure: one forward from the beginning, one back from the end.
    pub fn shift(&self) -> (halves: i8)
        ensures
            halves == match *self {
                Alignment::Begin => 1i8,
                Alignment::Center => 0i8,
                Alignment::End => -1i8,
            },
    {
        match self {
            Alignment::Begin => 1,
            Alignment::Center => 0,
            Alignment::End => -1,
        }
    }
}

} // verus!
