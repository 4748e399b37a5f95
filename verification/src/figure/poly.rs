//! Polygons and polylines.

use vstd::prelude::*;
use crate::app_data::{DrawProperties, DrawPropertiesView};
use crate::color::Color;
use crate::figure::common::{common_of, name1, CommonParams, CommonView};
use crate::number::Scalar;
use crate::parse::{entries_of, positions, read_flag, read_or, Params, Point};
use crate::text::tokens;

verus! {

/// A chain of points: a filled polygon, or an open polyline.
pub struct MPoly {
    pub points: Vec<Point>,
    pub fill: bool,
    pub width: Scalar,
    pub common: CommonParams,
}

/// The model of [`MPoly`].
pub struct MPolyView {
    pub points: Seq<(Seq<char>, Seq<char>)>,
    pub fill: bool,
    pub width: Seq<char>,
    pub common: CommonView,
}

impl View for MPoly {
    type V = MPolyView;

    open spec fn view(&self) -> MPolyView {
        MPolyView {
            points: positions(self.points@),
            fill: self.fill,
            width: self.width@,
            common: self.common@,
        }
    }
}

/// The polygon that a line denotes: its points `p`, one parameter for each
/// and in the order of the line, fill flag `f`, stroke width `w` (by default
/// the width in force) and the common block. Nothing where a parameter is
/// given in a wrong form.
pub open spec fn poly_of(line: Seq<char>, props: DrawPropertiesView) -> Option<MPolyView> {
    let entries = entries_of(tokens(line));
    match (
        read_or::<Vec<Point>>(entries, seq!['p'], Seq::empty()),
        read_flag(entries, seq!['f']),
        read_or::<Scalar>(entries, seq!['w'], props.width),
        common_of(entries),
    ) {
        (Some(points), Some(fill), Some(width), Some(common)) => Some(
            MPolyView { points, fill, width, common },
        ),
        _ => None,
    }
}

impl MPoly {
    /// Reads a polygon from its line.
    pub fn from_string(s: &str, draw_properties: &mut DrawProperties) -> (r: Option<MPoly>)
        ensures
            match r {
                Some(f) => poly_of(s@, old(draw_properties)@) == Some(f@),
                None => poly_of(s@, old(draw_properties)@) is None,
            },
            *final(draw_properties) == *old(draw_properties),
    {
        let params = Params::from_str(s);
        let none: Vec<Point> = Vec::new();
        assert(positions(none@) =~= Seq::<(Seq<char>, Seq<char>)>::empty());
        let points = params.get_or::<Vec<Point>>(name1('p').as_slice(), none);
        let fill = params.flag(name1('f').as_slice());
        let width = params.get_or::<Scalar>(name1('w').as_slice(), draw_properties.width.clone());
        let common = CommonParams::new(&params, draw_properties);
        match (points, fill, width, common) {
            (Some(points), Some(fill), Some(width), Some(common)) => {
                Some(MPoly { points, fill, width, common })
            },
            _ => None,
        }
    }

    /// An in-between of `a` and a later polygon: the blended points, width
    /// and colour as given, everything else as in `a`.
    pub fn between(a: &MPoly, points: Vec<Point>, width: Scalar, color: Color) -> (r: MPoly)
        ensures
            r@ == (MPolyView {
                points: positions(points@),
                width: width@,
                common: CommonView { color, ..a@.common },
                ..a@
            }),
    {
        MPoly { points, fill: a.fill, width, common: a.common.with_color(color) }
    }
}

} // verus!
