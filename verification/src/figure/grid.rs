//! Grids of evenly spaced lines.

use vstd::prelude::*;
use crate::alignment::Alignment;
use crate::app_data::{DrawProperties, DrawPropertiesView};
use crate::color::Color;
use crate::figure::common::{
    alignment_of, common_of, name1, read_alignment, CommonParams, CommonView,
};
use crate::number::Scalar;
use crate::parse::{entries_of, origin, read_or, Params, Point};
use crate::text::tokens;

verus! {

/// A rectangle divided into columns and rows.
pub struct MGrid {
    pub center: Point,
    pub size: Point,
    /// Columns and rows.
    pub dims: (usize, usize),
    pub width: Scalar,
    pub alignment: (Alignment, Alignment),
    pub common: CommonParams,
}

/// The model of [`MGrid`].
pub struct MGridView {
    pub center: (Seq<char>, Seq<char>),
    pub size: (Seq<char>, Seq<char>),
    pub dims: (usize, usize),
    pub width: Seq<char>,
    pub alignment: (Alignment, Alignment),
    pub common: CommonView,
}

impl View for MGrid {
    type V = MGridView;

    open spec fn view(&self) -> MGridView {
        MGridView {
            center: self.center@,
            size: self.size@,
            dims: self.dims,
            width: self.width@,
            alignment: self.alignment,
            common: self.common@,
        }
    }
}

/// The grid that a line denotes: centre `c` and size `s` (both `(0,0)` by
/// default), columns and rows `d` (by default one of each), stroke width `w`
/// (by default the width in force), alignment `a` and the common block.
/// Nothing where a parameter is given in a wrong form.
pub open spec fn grid_of(line: Seq<char>, props: DrawPropertiesView) -> Option<MGridView> {
    let entries = entries_of(tokens(line));
    match (
        read_or::<Point>(entries, seq!['c'], origin()),
        read_or::<Point>(entries, seq!['s'], origin()),
        read_or::<(usize, usize)>(entries, seq!['d'], (1usize, 1usize)),
        read_or::<Scalar>(entries, seq!['w'], props.width),
        alignment_of(entries),
        common_of(entries),
    ) {
        (Some(center), Some(size), Some(dims), Some(width), Some(alignment), Some(common)) => Some(
            MGridView { center, size, dims, width, alignment, common },
        ),
        _ => None,
    }
}

impl MGrid {
    /// Reads a grid from its line.
    pub fn from_string(s: &str, draw_properties: &mut DrawProperties) -> (r: Option<MGrid>)
        ensures
            match r {
                Some(f) => grid_of(s@, old(draw_properties)@) == Some(f@),
                None => grid_of(s@, old(draw_properties)@) is None,
            },
            *final(draw_properties) == *old(draw_properties),
    {
        let params = Params::from_str(s);
        let center = params.get_or::<Point>(name1('c').as_slice(), Point::origin());
        let size = params.get_or::<Point>(name1('s').as_slice(), Point::origin());
        let dims = params.get_or::<(usize, usize)>(name1('d').as_slice(), (1, 1));
        let width = params.get_or::<Scalar>(name1('w').as_slice(), draw_properties.width.clone());
        let alignment = read_alignment(&params);
        let common = CommonParams::new(&params, draw_properties);
        match (center, size, dims, width, alignment, common) {
            (Some(center), Some(size), Some(dims), Some(width), Some(alignment), Some(common)) => {
                Some(MGrid { center, size, dims, width, alignment, common })
            },
            _ => None,
        }
    }

    /// How many strokes the grid is drawn with: one more vertical stroke than
    /// it has columns, one more horizontal stroke than it has rows. `None`
    /// where a count does not fit the machine word.
    pub fn strokes(&self) -> (r: Option<(usize, usize)>)
        ensures
            match r {
                Some(n) => n.0 == self.dims.0 + 1 && n.1 == self.dims.1 + 1,
                None => self.dims.0 == usize::MAX || self.dims.1 == usize::MAX,
            },
    {
        match (self.dims.0.checked_add(1), self.dims.1.checked_add(1)) {
            (Some(v), Some(h)) => Some((v, h)),
            _ => None,
        }
    }

    /// An in-between of `a` and a later grid: the blended centre, size,
    /// columns and rows, width and colour as given, everything else as in
    /// `a`.
    pub fn between(
        a: &MGrid,
        center: Point,
        size: Point,
        dims: (usize, usize),
        width: Scalar,
        color: Color,
    ) -> (r: MGrid)
        ensures
            r@ == (MGridView {
                center: center@,
                size: size@,
                dims,
                width: width@,
                common: CommonView { color, ..a@.common },
                ..a@
            }),
    {
        MGrid {
            center,
            size,
            dims,
            width,
            alignment: a.alignment,
            common: a.common.with_color(color),
        }
    }
}

} // verus!
