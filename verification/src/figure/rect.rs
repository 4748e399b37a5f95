//! Rectangles.

use vstd::prelude::*;
use crate::alignment::Alignment;
use crate::app_data::{DrawProperties, DrawPropertiesView};
use crate::color::Color;
use crate::figure::common::{
    alignment_of, common_of, name1, read_alignment, CommonParams, CommonView,
};
use crate::number::Scalar;
use crate::parse::{entries_of, origin, read_flag, read_or, Params, Point};
use crate::text::tokens;

verus! {

/// An axis-parallel rectangle.
pub struct MRect {
    pub center: Point,
    pub size: Point,
    pub fill: bool,
    pub width: Scalar,
    pub alignment: (Alignment, Alignment),
    pub common: CommonParams,
}

/// The model of [`MRect`].
pub struct MRectView {
    pub center: (Seq<char>, Seq<char>),
    pub size: (Seq<char>, Seq<char>),
    pub fill: bool,
    pub width: Seq<char>,
    pub alignment: (Alignment, Alignment),
    pub common: CommonView,
}

impl View for MRect {
    type V = MRectView;

    open spec fn view(&self) -> MRectView {
        MRectView {
            center: self.center@,
            size: self.size@,
            fill: self.fill,
            width: self.width@,
            alignment: self.alignment,
            common: self.common@,
        }
    }
}

/// The rectangle that a line denotes: centre `c` and size `s` (both `(0,0)`
/// by default), fill flag `f`, stroke width `w` (by default the width in
/// force), alignment `a` and the common block. Nothing where a parameter is
/// given in a wrong form.
pub open spec fn rect_of(line: Seq<char>, props: DrawPropertiesView) -> Option<MRectView> {
    let entries = entries_of(tokens(line));
    match (
        read_or::<Point>(entries, seq!['c'], origin()),
        read_or::<Point>(entries, seq!['s'], origin()),
        read_flag(entries, seq!['f']),
        read_or::<Scalar>(entries, seq!['w'], props.width),
        alignment_of(entries),
        common_of(entries),
    ) {
        (Some(center), Some(size), Some(fill), Some(width), Some(alignment), Some(common)) => Some(
            MRectView { center, size, fill, width, alignment, common },
        ),
        _ => None,
    }
}

impl MRect {
    /// Reads a rectangle from its line.
    pub fn from_string(s: &str, draw_properties: &mut DrawProperties) -> (r: Option<MRect>)
        ensures
            match r {
                Some(f) => rect_of(s@, old(draw_properties)@) == Some(f@),
                None => rect_of(s@, old(draw_properties)@) is None,
            },
            *final(draw_properties) == *old(draw_properties),
    {
        let params = Params::from_str(s);
        let center = params.get_or::<Point>(name1('c').as_slice(), Point::origin());
        let size = params.get_or::<Point>(name1('s').as_slice(), Point::origin());
        let fill = params.flag(name1('f').as_slice());
        let width = params.get_or::<Scalar>(name1('w').as_slice(), draw_properties.width.clone());
        let alignment = read_alignment(&params);
        let common = CommonParams::new(&params, draw_properties);
        match (center, size, fill, width, alignment, common) {
            (Some(center), Some(size), Some(fill), Some(width), Some(alignment), Some(common)) => {
                Some(MRect { center, size, fill, width, alignment, common })
            },
            _ => None,
        }
    }

    /// An in-between of `a` and a later rectangle: the blended centre, size,
    /// width and colour as given, everything else as in `a`.
    pub fn between(a: &MRect, center: Point, size: Point, width: Scalar, color: Color) -> (r: MRect)
        ensures
            r@ == (MRectView {
                center: center@,
                size: size@,
                width: width@,
                common: CommonView { color, ..a@.common },
                ..a@
            }),
    {
        MRect {
            center,
            size,
            fill: a.fill,
            width,
            alignment: a.alignment,
            common: a.common.with_color(color),
        }
    }
}

} // verus!
