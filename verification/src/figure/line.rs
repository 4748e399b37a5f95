//! Line segments.

use vstd::prelude::*;
use crate::app_data::{DrawProperties, DrawPropertiesView};
use crate::color::Color;
use crate::figure::common::{common_of, name1, CommonParams, CommonView};
use crate::number::Scalar;
use crate::parse::{entries_of, origin, read_or, Params, Point};
use crate::text::tokens;

verus! {

/// A straight line between two points.
pub struct MLine {
    pub start: Point,
    pub finish: Point,
    pub width: Scalar,
    pub common: CommonParams,
}

/// The model of [`MLine`].
pub struct MLineView {
    pub start: (Seq<char>, Seq<char>),
    pub finish: (Seq<char>, Seq<char>),
    pub width: Seq<char>,
    pub common: CommonView,
}

impl View for MLine {
    type V = MLineView;

    open spec fn view(&self) -> MLineView {
        MLineView {
            start: self.start@,
            finish: self.finish@,
            width: self.width@,
            common: self.common@,
        }
    }
}

/// The line that a line of input denotes: start `s` and finish `f` (both
/// `(0,0)` by default), stroke width `w` (by default the width in force) and
/// the common block. Nothing where a parameter is given in a wrong form.
pub open spec fn line_of(line: Seq<char>, props: DrawPropertiesView) -> Option<MLineView> {
    let entries = entries_of(tokens(line));
    match (
        read_or::<Point>(entries, seq!['s'], origin()),
        read_or::<Point>(entries, seq!['f'], origin()),
        read_or::<Scalar>(entries, seq!['w'], props.width),
        common_of(entries),
    ) {
        (Some(start), Some(finish), Some(width), Some(common)) => Some(
            MLineView { start, finish, width, common },
        ),
        _ => None,
    }
}

impl MLine {
    /// Reads a line segment from its line of input.
    pub fn from_string(s: &str, draw_properties: &mut DrawProperties) -> (r: Option<MLine>)
        ensures
            match r {
                Some(f) => line_of(s@, old(draw_properties)@) == Some(f@),
                None => line_of(s@, old(draw_properties)@) is None,
            },
            *final(draw_properties) == *old(draw_properties),
    {
        let params = Params::from_str(s);
        let start = params.get_or::<Point>(name1('s').as_slice(), Point::origin());
        let finish = params.get_or::<Point>(name1('f').as_slice(), Point::origin());
        let width = params.get_or::<Scalar>(name1('w').as_slice(), draw_properties.width.clone());
        let common = CommonParams::new(&params, draw_properties);
        match (start, finish, width, common) {
            (Some(start), Some(finish), Some(width), Some(common)) => {
                Some(MLine { start, finish, width, common })
            },
            _ => None,
        }
    }

    /// An in-between of `a` and a later line: the blended ends, width and
    /// colour as given, everything else as in `a`.
    pub fn between(a: &MLine, start: Point, finish: Point, width: Scalar, color: Color) -> (r:
        MLine)
        ensures
            r@ == (MLineView {
                start: start@,
                finish: finish@,
                width: width@,
                common: CommonView { color, ..a@.common },
            }),
    {
        MLine { start, finish, width, common: a.common.with_color(color) }
    }
}

} // verus!
