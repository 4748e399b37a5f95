//! Circles and circular arcs.

use vstd::prelude::*;
use crate::app_data::{DrawProperties, DrawPropertiesView};
use crate::color::Color;
use crate::figure::common::{common_of, name1, name3, CommonParams, CommonView};
use crate::number::Scalar;
use crate::parse::{entries_of, origin, read_flag, read_opt, read_or, Params, Point};
use crate::text::tokens;

verus! {

/// A circle, or the arc of it between two angles.
pub struct MCircle {
    pub center: Point,
    pub radius: Scalar,
    pub fill: bool,
    pub width: Scalar,
    /// The angles at which the arc begins and ends, in radians.
    pub arc: Option<Point>,
    pub common: CommonParams,
}

/// The model of [`MCircle`].
pub struct MCircleView {
    pub center: (Seq<char>, Seq<char>),
    pub radius: Seq<char>,
    pub fill: bool,
    pub width: Seq<char>,
    pub arc: Option<(Seq<char>, Seq<char>)>,
    pub common: CommonView,
}

impl View for MCircle {
    type V = MCircleView;

    open spec fn view(&self) -> MCircleView {
        MCircleView {
            center: self.center@,
            radius: self.radius@,
            fill: self.fill,
            width: self.width@,
            arc: match self.arc {
                Some(a) => Some(a@),
                None => None,
            },
            common: self.common@,
        }
    }
}

/// The circle that a line denotes: centre `c` (by default `(0,0)`), radius
/// `r` (by default 1), fill flag `f`, stroke width `w` (by default the width
/// in force), the optional pair of angles `arc` and the common block. Nothing
/// where a parameter is given in a wrong form.
pub open spec fn circle_of(line: Seq<char>, props: DrawPropertiesView) -> Option<MCircleView> {
    let entries = entries_of(tokens(line));
    match (
        read_or::<Point>(entries, seq!['c'], origin()),
        read_or::<Scalar>(entries, seq!['r'], seq!['1']),
        read_flag(entries, seq!['f']),
        read_or::<Scalar>(entries, seq!['w'], props.width),
        read_opt::<Point>(entries, seq!['a', 'r', 'c']),
        common_of(entries),
    ) {
        (Some(center), Some(radius), Some(fill), Some(width), Some(arc), Some(common)) => Some(
            MCircleView { center, radius, fill, width, arc, common },
        ),
        _ => None,
    }
}

impl MCircle {
    /// Reads a circle from its line.
    pub fn from_string(s: &str, draw_properties: &mut DrawProperties) -> (r: Option<MCircle>)
        ensures
            match r {
                Some(f) => circle_of(s@, old(draw_properties)@) == Some(f@),
                None => circle_of(s@, old(draw_properties)@) is None,
            },
            *final(draw_properties) == *old(draw_properties),
    {
        let params = Params::from_str(s);
        let center = params.get_or::<Point>(name1('c').as_slice(), Point::origin());
        let radius = params.get_or::<Scalar>(name1('r').as_slice(), Scalar::one());
        let fill = params.flag(name1('f').as_slice());
        let width = params.get_or::<Scalar>(name1('w').as_slice(), draw_properties.width.clone());
        let arc = params.get_opt::<Point>(name3('a', 'r', 'c').as_slice());
        let common = CommonParams::new(&params, draw_properties);
        match (center, radius, fill, width, arc, common) {
            (Some(center), Some(radius), Some(fill), Some(width), Some(arc), Some(common)) => {
                Some(MCircle { center, radius, fill, width, arc, common })
            },
            _ => None,
        }
    }

    /// An in-between of `a` and the later circle `b`: the blended centre,
    /// radius, width and colour as given, everything else as in `a`. It is an
    /// arc, with the blended angles as given, only where both circles are.
    pub fn between(
        a: &MCircle,
        b: &MCircle,
        center: Point,
        radius: Scalar,
        width: Scalar,
        arc: Option<Point>,
        color: Color,
    ) -> (r: MCircle)
        ensures
            r@ == (MCircleView {
                center: center@,
                radius: radius@,
                width: width@,
                arc: if a@.arc is Some && b@.arc is Some {
                    match arc {
                        Some(p) => Some(p@),
                        None => None,
                    }
                } else {
                    None
                },
                common: CommonView { color, ..a@.common },
                ..a@
            }),
    {
        let arc = if a.arc.is_some() && b.arc.is_some() {
            arc
        } else {
            None
        };
        MCircle { center, radius, fill: a.fill, width, arc, common: a.common.with_color(color) }
    }
}

} // verus!
