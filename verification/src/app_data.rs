//! Drawing defaults that protocol directives change while a scene is read.

use vstd::prelude::*;
use crate::number::Scalar;

verus! {

/// The defaults in force at one point of the input.
pub struct DrawProperties {
    /// Stroke width of a figure that names none.
    pub width: Scalar,
    /// Font size of a text that names none.
    pub font: Scalar,
    /// Messages seen since the last tick; the next message stacks below them.
    pub was_messages: usize,
}

/// The model of [`DrawProperties`].
pub struct DrawPropertiesView {
    pub width: Seq<char>,
    pub font: Seq<char>,
    pub was_messages: usize,
}

impl View for DrawProperties {
    type V = DrawPropertiesView;

    open spec fn view(&self) -> DrawPropertiesView {
        DrawPropertiesView { width: self.width@, font: self.font@, was_messages: self.was_messages }
    }
}

impl DrawProperties {
    /// Width 1, font size 1, no message yet.
    pub fn new() -> (p: DrawProperties)
        ensures
            p@ == (DrawPropertiesView { width: seq!['1'], font: seq!['1'], was_messages: 0 }),
    {
        DrawProperties { width: Scalar::one(), font: Scalar::one(), was_messages: 0 }
    }
}

impl Clone for DrawProperties {
    fn clone(&self) -> (c: DrawProperties)
        ensures
            c@ == self@,
    {
        DrawProperties {
            width: self.width.clone(),
            font: self.font.clone(),
            was_messages: self.was_messages,
        }
    }
}

} // verus!
