//! Vector export: painting the figures of a frame into an SVG document.
//!
//! Where a shape lies on the page is arithmetic on real quantities and is
//! done by the caller, who hands over each number ready to be written. What
//! is decided here is which elements a figure becomes, which attributes each
//! of them carries, and in which order they are painted.

use vstd::prelude::*;
use crate::alignment::Alignment;
use crate::figure::circle::MCircle;
use crate::figure::grid::MGrid;
use crate::figure::line::MLine;
use crate::figure::poly::MPoly;
use crate::figure::rect::MRect;
use crate::figure::text::MText;
use crate::figure::{rgb_text, Figure};
use crate::number::Scalar;
use crate::parse::Point;
use crate::text::{chars_of, push_all, string_of};
use svg::node::element::{Element, SVG};

verus! {

/// The generic element of the `svg` crate: a tag name, attributes and
/// children.
#[verifier::external_type_specification]
#[verifier::external_body]
pub struct ExElement(Element);

/// The document of the `svg` crate: its `svg` element.
#[verifier::external_type_specification]
#[verifier::external_body]
pub struct ExDocument(SVG);

/// What a document holds of one element: its tag name, its attributes and
/// the contents of its text children.
pub type Shape = (Seq<char>, Map<Seq<char>, Seq<char>>, Seq<Seq<char>>);

/// The tag name of an element.
pub uninterp spec fn element_name(e: Element) -> Seq<char>;

/// The attributes of an element, by name.
pub uninterp spec fn element_attributes(e: Element) -> Map<Seq<char>, Seq<char>>;

/// The contents of the text children of an element, in order.
pub uninterp spec fn element_texts(e: Element) -> Seq<Seq<char>>;

/// The attributes of a document, by name.
pub uninterp spec fn document_attributes(d: SVG) -> Map<Seq<char>, Seq<char>>;

/// The children of a document, in order.
pub uninterp spec fn document_shapes(d: SVG) -> Seq<Shape>;

/// `Element::new` makes an element with the given tag name, without
/// attributes and without children.
#[verifier::external_body]
fn element_new(name: &str) -> (element: Element)
    ensures
        element_name(element) == name@,
        element_attributes(element) == no_attributes(),
        element_texts(element) == Seq::<Seq<char>>::empty(),
{
    Element::new(name)
}

/// `Node::assign` on an element stores the value under the name, in place of
/// any value that the name had, and changes nothing else.
#[verifier::external_body]
fn element_set(e: Element, name: &str, value: &str) -> (r: Element)
    ensures
        element_name(r) == element_name(e),
        element_attributes(r) == element_attributes(e).insert(name@, value@),
        element_texts(r) == element_texts(e),
{
    let mut e = e;
    svg::Node::assign(&mut e, name, value);
    e
}

/// `Node::append` on an element, given a text node made by `Text::new`, adds
/// the text as the last child and changes nothing else.
#[verifier::external_body]
fn element_text(e: Element, content: &str) -> (r: Element)
    ensures
        element_name(r) == element_name(e),
        element_attributes(r) == element_attributes(e),
        element_texts(r) == element_texts(e).push(content@),
{
    let mut e = e;
    svg::Node::append(&mut e, svg::node::Text::new(content));
    e
}

/// `Document::new` makes a document without children whose only attribute
/// names the SVG namespace.
#[verifier::external_body]
fn document_new() -> (document: SVG)
    ensures
        document_attributes(document) == no_attributes().insert(
            "xmlns"@,
            "http://www.w3.org/2000/svg"@,
        ),
        document_shapes(document) == Seq::<Shape>::empty(),
{
    SVG::new()
}

/// `set` on a document stores the value under the name, in place of any
/// value that the name had, and changes nothing else.
#[verifier::external_body]
fn document_set(d: SVG, name: &str, value: &str) -> (r: SVG)
    ensures
        document_attributes(r) == document_attributes(d).insert(name@, value@),
        document_shapes(r) == document_shapes(d),
{
    d.set(name, value)
}

/// `add` on a document adds the element as the last child and changes
/// nothing else.
#[verifier::external_body]
fn document_add(d: SVG, e: Element) -> (r: SVG)
    ensures
        document_attributes(r) == document_attributes(d),
        document_shapes(r) == document_shapes(d).push(
            (element_name(e), element_attributes(e), element_texts(e)),
        ),
{
    d.add(e)
}

/// The size of the page.
pub struct Canvas {
    pub width: Scalar,
    pub height: Scalar,
}

/// Where a rectangle lies on the page.
pub struct RectPlacement {
    /// The left edge.
    pub x: Scalar,
    /// The top edge.
    pub y: Scalar,
    pub width: Scalar,
    pub height: Scalar,
    pub stroke_width: Scalar,
    /// From 0, invisible, to 1, opaque.
    pub opacity: Scalar,
}

/// Where a circle lies on the page.
pub struct CirclePlacement {
    pub cx: Scalar,
    pub cy: Scalar,
    pub r: Scalar,
    pub stroke_width: Scalar,
    pub opacity: Scalar,
    /// The path of the arc, for a circle that is one.
    pub arc: Option<String>,
}

/// The two ends of a stroke on the page.
pub struct Segment {
    pub x1: Scalar,
    pub y1: Scalar,
    pub x2: Scalar,
    pub y2: Scalar,
}

/// Where a line lies on the page.
pub struct LinePlacement {
    pub ends: Segment,
    pub stroke_width: Scalar,
    pub opacity: Scalar,
}

/// Where the strokes of a grid lie on the page: the vertical strokes, of
/// which there is one more than the grid has columns, and the horizontal
/// strokes, of which there is one more than it has rows. All of them have
/// one width and one opacity.
pub struct GridPlacement {
    pub vertical: Vec<Segment>,
    pub horizontal: Vec<Segment>,
    pub stroke_width: Scalar,
    pub opacity: Scalar,
}

/// Where a polygon lies on the page.
pub struct PolyPlacement {
    pub points: Vec<Point>,
    pub stroke_width: Scalar,
    pub opacity: Scalar,
}

/// Where a text lies on the page.
pub struct TextPlacement {
    pub x: Scalar,
    /// The baseline.
    pub y: Scalar,
    pub font_size: Scalar,
    pub opacity: Scalar,
}

/// Where a figure lies on the page.
pub enum Placement {
    Rect(RectPlacement),
    Circle(CirclePlacement),
    Line(LinePlacement),
    Grid(GridPlacement),
    Poly(PolyPlacement),
    Text(TextPlacement),
    /// The figure has no place on the page.
    Nowhere,
}

/// No attribute.
pub open spec fn no_attributes() -> Map<Seq<char>, Seq<char>> {
    Map::empty()
}

/// The attributes that say how a shape is painted: filled with the colour,
/// or stroked with it and not filled.
pub open spec fn painted(
    attributes: Map<Seq<char>, Seq<char>>,
    fill: bool,
    color: Seq<char>,
) -> Map<Seq<char>, Seq<char>> {
    if fill {
        attributes.insert("fill"@, color)
    } else {
        attributes.insert("fill"@, "none"@).insert("stroke"@, color)
    }
}

/// The element of a rectangle.
pub open spec fn rect_shape(f: MRect, p: RectPlacement) -> Shape {
    (
        "rect"@,
        painted(
            no_attributes().insert("x"@, p.x@).insert("y"@, p.y@).insert("width"@, p.width@).insert(
                "height"@,
                p.height@,
            ).insert("stroke-width"@, p.stroke_width@).insert("opacity"@, p.opacity@),
            f.fill,
            rgb_text(f.common.color),
        ),
        Seq::empty(),
    )
}

/// The element of a circle: a `circle`, or for an arc a `path`. A filled
/// arc has no stroke; an arc that is not filled is stroked.
pub open spec fn circle_shape(f: MCircle, p: CirclePlacement) -> Shape {
    match p.arc {
        None => (
            "circle"@,
            painted(
                no_attributes().insert("cx"@, p.cx@).insert("cy"@, p.cy@).insert("r"@, p.r@).insert(
                    "stroke-width"@,
                    p.stroke_width@,
                ).insert("opacity"@, p.opacity@),
                f.fill,
                rgb_text(f.common.color),
            ),
            Seq::empty(),
        ),
        Some(d) => (
            "path"@,
            if f.fill {
                no_attributes().insert("d"@, d@).insert("opacity"@, p.opacity@).insert(
                    "fill"@,
                    rgb_text(f.common.color),
                ).insert("stroke"@, "none"@)
            } else {
                no_attributes().insert("d"@, d@).insert("opacity"@, p.opacity@).insert(
                    "fill"@,
                    "none"@,
                ).insert("stroke"@, rgb_text(f.common.color)).insert(
                    "stroke-width"@,
                    p.stroke_width@,
                )
            },
            Seq::empty(),
        ),
    }
}

/// The element of a stroke between two ends, in the given colour, width and
/// opacity.
pub open spec fn stroke_shape(
    color: Seq<char>,
    ends: Segment,
    stroke_width: Seq<char>,
    opacity: Seq<char>,
) -> Shape {
    (
        "line"@,
        no_attributes().insert("x1"@, ends.x1@).insert("y1"@, ends.y1@).insert(
            "x2"@,
            ends.x2@,
        ).insert("y2"@, ends.y2@).insert("stroke-width"@, stroke_width).insert(
            "stroke"@,
            color,
        ).insert("opacity"@, opacity),
        Seq::empty(),
    )
}

/// The element of a line.
pub open spec fn line_shape(f: MLine, p: LinePlacement) -> Shape {
    stroke_shape(rgb_text(f.common.color), p.ends, p.stroke_width@, p.opacity@)
}

/// The elements of some strokes of a grid, in their order.
pub open spec fn strokes_shapes(f: MGrid, p: GridPlacement, ends: Seq<Segment>) -> Seq<Shape> {
    ends.map_values(
        |s: Segment| stroke_shape(rgb_text(f.common.color), s, p.stroke_width@, p.opacity@),
    )
}

/// The elements of a grid: its vertical strokes in their order, then its
/// horizontal strokes in theirs.
pub open spec fn grid_shapes(f: MGrid, p: GridPlacement) -> Seq<Shape> {
    strokes_shapes(f, p, p.vertical@) + strokes_shapes(f, p, p.horizontal@)
}

/// A placement is one for the grid where it has one vertical stroke more
/// than the grid has columns and one horizontal stroke more than it has rows.
pub open spec fn grid_fits(f: MGrid, p: GridPlacement) -> bool {
    p.vertical@.len() == f.dims.0 + 1 && p.horizontal@.len() == f.dims.1 + 1
}

/// A placement is one for the circle where it holds the path of an arc if
/// and only if the circle is an arc.
pub open spec fn circle_fits(f: MCircle, p: CirclePlacement) -> bool {
    p.arc is Some <==> f.arc is Some
}

/// A placement is one for the polygon where it places each of its points.
pub open spec fn poly_fits(f: MPoly, p: PolyPlacement) -> bool {
    p.points@.len() == f.points@.len()
}

/// A placement is one for the figure where it is of the figure's shape, and
/// is one for the circle, grid or polygon that the figure is. A message has
/// no place on the page.
pub open spec fn fits(f: Figure, p: Placement) -> bool {
    match (f, p) {
        (Figure::Rect(_), Placement::Rect(_)) => true,
        (Figure::Circle(f), Placement::Circle(p)) => circle_fits(f, p),
        (Figure::Line(_), Placement::Line(_)) => true,
        (Figure::Grid(f), Placement::Grid(p)) => grid_fits(f, p),
        (Figure::Poly(f), Placement::Poly(p)) => poly_fits(f, p),
        (Figure::Text(_), Placement::Text(_)) => true,
        (Figure::Message(_), Placement::Nowhere) => true,
        _ => false,
    }
}

/// Every figure has its placement: there are as many placements as figures,
/// and each is one for the figure at its index.
pub open spec fn fit_all(figures: Seq<Figure>, places: Seq<Placement>) -> bool {
    &&& figures.len() == places.len()
    &&& forall|i: int| 0 <= i < figures.len() ==> fits(#[trigger] figures[i], places[i])
}

/// The points of a polygon as one attribute: `x,y` for each, with a blank
/// between two of them.
pub open spec fn points_text(points: Seq<Point>) -> Seq<char>
    decreases points.len(),
{
    if points.len() == 0 {
        Seq::empty()
    } else if points.len() == 1 {
        points[0].x@ + seq![','] + points[0].y@
    } else {
        points_text(points.drop_last()) + seq![' '] + points.last().x@ + seq![','] + points.last().y@
    }
}

/// The element of a polygon: a `polygon` where it is filled, else a
/// `polyline`.
pub open spec fn poly_shape(f: MPoly, p: PolyPlacement) -> Shape {
    (
        if f.fill {
            "polygon"@
        } else {
            "polyline"@
        },
        if f.fill {
            no_attributes().insert("points"@, points_text(p.points@)).insert(
                "stroke-width"@,
                p.stroke_width@,
            ).insert("opacity"@, p.opacity@).insert("fill"@, rgb_text(f.common.color))
        } else {
            no_attributes().insert("points"@, points_text(p.points@)).insert(
                "stroke-width"@,
                p.stroke_width@,
            ).insert("opacity"@, p.opacity@).insert("stroke"@, rgb_text(f.common.color)).insert(
                "fill"@,
                "none"@,
            )
        },
        Seq::empty(),
    )
}

/// Which end of a text its anchor is.
pub open spec fn anchor_text(a: Alignment) -> Seq<char> {
    match a {
        Alignment::Begin => "start"@,
        Alignment::Center => "middle"@,
        Alignment::End => "end"@,
    }
}

/// The element of a text.
pub open spec fn text_shape(f: MText, p: TextPlacement) -> Shape {
    (
        "text"@,
        no_attributes().insert("x"@, p.x@).insert("y"@, p.y@).insert(
            "fill"@,
            rgb_text(f.common.color),
        ).insert("font-size"@, p.font_size@).insert("text-anchor"@, anchor_text(f.alignment.0)).insert(
            "opacity"@,
            p.opacity@,
        ).insert("font-family"@, "system-ui"@),
        seq![f.text@],
    )
}

/// The elements that a figure becomes at its place: one for a rectangle,
/// circle, line, polygon or text, one for each stroke of a grid, and none
/// for a message.
pub open spec fn shapes_of(f: Figure, p: Placement) -> Seq<Shape>
    recommends
        fits(f, p),
{
    match (f, p) {
        (Figure::Rect(f), Placement::Rect(p)) => seq![rect_shape(f, p)],
        (Figure::Circle(f), Placement::Circle(p)) => seq![circle_shape(f, p)],
        (Figure::Line(f), Placement::Line(p)) => seq![line_shape(f, p)],
        (Figure::Grid(f), Placement::Grid(p)) => grid_shapes(f, p),
        (Figure::Poly(f), Placement::Poly(p)) => seq![poly_shape(f, p)],
        (Figure::Text(f), Placement::Text(p)) => seq![text_shape(f, p)],
        _ => Seq::empty(),
    }
}

/// The background of a page: a rectangle over all of it, in dark grey.
pub open spec fn background_shape(canvas: Canvas) -> Shape {
    (
        "rect"@,
        no_attributes().insert("x"@, "0"@).insert("y"@, "0"@).insert(
            "width"@,
            canvas.width@,
        ).insert("height"@, canvas.height@).insert("fill"@, "rgb(41, 41, 41)"@),
        Seq::empty(),
    )
}

/// The view box of a page: `0 0 width height`.
pub open spec fn view_box(canvas: Canvas) -> Seq<char> {
    seq!['0', ' ', '0', ' '] + canvas.width@ + seq![' '] + canvas.height@
}

/// The attributes of the document of a page.
pub open spec fn page_attributes(canvas: Canvas) -> Map<Seq<char>, Seq<char>> {
    no_attributes().insert("xmlns"@, "http://www.w3.org/2000/svg"@).insert(
        "viewBox"@,
        view_box(canvas),
    ).insert("width"@, canvas.width@).insert("height"@, canvas.height@)
}

/// The elements of the first `n` figures, each at its place, figure after
/// figure.
pub open spec fn shapes_up_to(figures: Seq<Figure>, places: Seq<Placement>, n: nat) -> Seq<Shape>
    recommends
        n <= figures.len() == places.len(),
    decreases n,
{
    if n == 0 || n > figures.len() || n > places.len() {
        Seq::empty()
    } else {
        shapes_up_to(figures, places, (n - 1) as nat) + shapes_of(figures[n - 1], places[n - 1])
    }
}

/// The elements of several figures, each at its place, figure after figure.
pub open spec fn shapes_of_all(figures: Seq<Figure>, places: Seq<Placement>) -> Seq<Shape>
    recommends
        fit_all(figures, places),
{
    shapes_up_to(figures, places, figures.len())
}

fn paint(e: Element, fill: bool, color: &str) -> (r: Element)
    ensures
        element_name(r) == element_name(e),
        element_attributes(r) == painted(element_attributes(e), fill, color@),
        element_texts(r) == element_texts(e),
{
    if fill {
        element_set(e, "fill", color)
    } else {
        element_set(element_set(e, "fill", "none"), "stroke", color)
    }
}

fn stroke(color: &str, ends: &Segment, stroke_width: &Scalar, opacity: &Scalar) -> (e: Element)
    ensures
        (element_name(e), element_attributes(e), element_texts(e)) == stroke_shape(
            color@,
            *ends,
            stroke_width@,
            opacity@,
        ),
{
    let e = element_new("line");
    let e = element_set(e, "x1", ends.x1.as_str());
    let e = element_set(e, "y1", ends.y1.as_str());
    let e = element_set(e, "x2", ends.x2.as_str());
    let e = element_set(e, "y2", ends.y2.as_str());
    let e = element_set(e, "stroke-width", stroke_width.as_str());
    let e = element_set(e, "stroke", color);
    element_set(e, "opacity", opacity.as_str())
}

fn join_points(points: &Vec<Point>) -> (s: String)
    ensures
        s@ == points_text(points@),
{
    let mut out: Vec<char> = Vec::new();
    let mut i: usize = 0;
    assert(points@.take(0) =~= Seq::<Point>::empty());
    while i < points.len()
        invariant
            i <= points.len(),
            out@ == points_text(points@.take(i as int)),
        decreases points.len() - i,
    {
        let ghost before = out@;
        if i > 0 {
            out.push(' ');
        }
        push_all(&mut out, chars_of(points[i].x.as_str()).as_slice());
        out.push(',');
        push_all(&mut out, chars_of(points[i].y.as_str()).as_slice());
        proof {
            let done = points@.take(i + 1);
            assert(done.drop_last() =~= points@.take(i as int));
            assert(done.last() == points@[i as int]);
            if i == 0 {
                assert(done[0] == points@[0]);
                assert(out@ =~= points@[0].x@ + seq![','] + points@[0].y@);
            } else {
                assert(out@ =~= before + seq![' '] + points@[i as int].x@ + seq![',']
                    + points@[i as int].y@);
            }
        }
        i += 1;
    }
    assert(points@.take(points.len() as int) =~= points@);
    string_of(out.as_slice())
}

impl MRect {
    /// Paints the rectangle into the document.
    pub fn draw_on_image(&self, img: SVG, place: &RectPlacement) -> (r: SVG)
        ensures
            document_attributes(r) == document_attributes(img),
            document_shapes(r) == document_shapes(img).push(rect_shape(*self, *place)),
    {
        let color = Figure::color_text(self.common.color);
        let e = element_new("rect");
        let e = element_set(e, "x", place.x.as_str());
        let e = element_set(e, "y", place.y.as_str());
        let e = element_set(e, "width", place.width.as_str());
        let e = element_set(e, "height", place.height.as_str());
        let e = element_set(e, "stroke-width", place.stroke_width.as_str());
        let e = element_set(e, "opacity", place.opacity.as_str());
        let e = paint(e, self.fill, color.as_str());
        document_add(img, e)
    }
}

impl MCircle {
    /// Whether a placement is one for the circle.
    pub fn fits(&self, place: &CirclePlacement) -> (b: bool)
        ensures
            b == circle_fits(*self, *place),
    {
        place.arc.is_some() == self.arc.is_some()
    }

    /// Paints the circle into the document: as a `circle` where it is whole,
    /// as the `path` of its placement where it is an arc.
    pub fn draw_on_image(&self, img: SVG, place: &CirclePlacement) -> (r: SVG)
        requires
            circle_fits(*self, *place),
        ensures
            self.arc is None ==> circle_shape(*self, *place).0 == "circle"@,
            self.arc is Some ==> circle_shape(*self, *place).0 == "path"@,
            document_attributes(r) == document_attributes(img),
            document_shapes(r) == document_shapes(img).push(circle_shape(*self, *place)),
    {
        let color = Figure::color_text(self.common.color);
        match &place.arc {
            None => {
                let e = element_new("circle");
                let e = element_set(e, "cx", place.cx.as_str());
                let e = element_set(e, "cy", place.cy.as_str());
                let e = element_set(e, "r", place.r.as_str());
                let e = element_set(e, "stroke-width", place.stroke_width.as_str());
                let e = element_set(e, "opacity", place.opacity.as_str());
                let e = paint(e, self.fill, color.as_str());
                document_add(img, e)
            },
            Some(d) => {
                let e = element_new("path");
                let e = element_set(e, "d", d.as_str());
                let e = element_set(e, "opacity", place.opacity.as_str());
                let e = if self.fill {
                    element_set(element_set(e, "fill", color.as_str()), "stroke", "none")
                } else {
                    let e = element_set(e, "fill", "none");
                    let e = element_set(e, "stroke", color.as_str());
                    element_set(e, "stroke-width", place.stroke_width.as_str())
                };
                document_add(img, e)
            },
        }
    }
}

impl MLine {
    /// Paints the line into the document.
    pub fn draw_on_image(&self, img: SVG, place: &LinePlacement) -> (r: SVG)
        ensures
            document_attributes(r) == document_attributes(img),
            document_shapes(r) == document_shapes(img).push(line_shape(*self, *place)),
    {
        let color = Figure::color_text(self.common.color);
        document_add(img, stroke(color.as_str(), &place.ends, &place.stroke_width, &place.opacity))
    }
}

impl MGrid {
    /// Whether a placement is one for the grid.
    pub fn fits(&self, place: &GridPlacement) -> (b: bool)
        ensures
            b == grid_fits(*self, *place),
    {
        let given = (place.vertical.len(), place.horizontal.len());
        match self.strokes() {
            Some((vertical, horizontal)) => given.0 == vertical && given.1 == horizontal,
            None => false,
        }
    }

    fn draw_strokes(&self, img: SVG, place: &GridPlacement, ends: &Vec<Segment>) -> (r: SVG)
        ensures
            document_attributes(r) == document_attributes(img),
            document_shapes(r) == document_shapes(img) + strokes_shapes(*self, *place, ends@),
    {
        let color = Figure::color_text(self.common.color);
        let ghost all = strokes_shapes(*self, *place, ends@);
        let ghost start = document_shapes(img);
        let ghost attributes = document_attributes(img);
        let mut doc = img;
        let mut i: usize = 0;
        assert(start + all.take(0) =~= start);
        while i < ends.len()
            invariant
                i <= ends.len(),
                all == strokes_shapes(*self, *place, ends@),
                color@ == rgb_text(self.common.color),
                document_attributes(doc) == attributes,
                document_shapes(doc) == start + all.take(i as int),
            decreases ends.len() - i,
        {
            doc = document_add(
                doc,
                stroke(color.as_str(), &ends[i], &place.stroke_width, &place.opacity),
            );
            assert(start + all.take(i + 1) =~= (start + all.take(i as int)).push(all[i as int]));
            i += 1;
        }
        assert(all.take(ends.len() as int) =~= all);
        doc
    }

    /// Paints the grid into the document: one vertical stroke more than it
    /// has columns, then one horizontal stroke more than it has rows, each
    /// in the colour of the grid and in the width and opacity of the
    /// placement.
    pub fn draw_on_image(&self, img: SVG, place: &GridPlacement) -> (r: SVG)
        requires
            grid_fits(*self, *place),
        ensures
            document_attributes(r) == document_attributes(img),
            document_shapes(r) == document_shapes(img) + grid_shapes(*self, *place),
            document_shapes(r).len() == document_shapes(img).len() + (self.dims.0 + 1) + (
            self.dims.1 + 1),
            forall|i: int|
                0 <= i <= self.dims.0 ==> #[trigger] document_shapes(r)[document_shapes(img).len()
                    + i] == stroke_shape(
                    rgb_text(self.common.color),
                    place.vertical@[i],
                    place.stroke_width@,
                    place.opacity@,
                ),
            forall|i: int|
                0 <= i <= self.dims.1 ==> #[trigger] document_shapes(r)[document_shapes(img).len()
                    + self.dims.0 + 1 + i] == stroke_shape(
                    rgb_text(self.common.color),
                    place.horizontal@[i],
                    place.stroke_width@,
                    place.opacity@,
                ),
    {
        let doc = self.draw_strokes(img, place, &place.vertical);
        let doc = self.draw_strokes(doc, place, &place.horizontal);
        assert(document_shapes(doc) =~= document_shapes(img) + grid_shapes(*self, *place));
        doc
    }
}

impl MPoly {
    /// Whether a placement is one for the polygon.
    pub fn fits(&self, place: &PolyPlacement) -> (b: bool)
        ensures
            b == poly_fits(*self, *place),
    {
        place.points.len() == self.points.len()
    }

    /// Paints the polygon into the document.
    pub fn draw_on_image(&self, img: SVG, place: &PolyPlacement) -> (r: SVG)
        requires
            poly_fits(*self, *place),
        ensures
            document_attributes(r) == document_attributes(img),
            document_shapes(r) == document_shapes(img).push(poly_shape(*self, *place)),
    {
        let color = Figure::color_text(self.common.color);
        let points = join_points(&place.points);
        if self.fill {
            let e = element_new("polygon");
            let e = element_set(e, "points", points.as_str());
            let e = element_set(e, "stroke-width", place.stroke_width.as_str());
            let e = element_set(e, "opacity", place.opacity.as_str());
            let e = element_set(e, "fill", color.as_str());
            document_add(img, e)
        } else {
            let e = element_new("polyline");
            let e = element_set(e, "points", points.as_str());
            let e = element_set(e, "stroke-width", place.stroke_width.as_str());
            let e = element_set(e, "opacity", place.opacity.as_str());
            let e = element_set(e, "stroke", color.as_str());
            let e = element_set(e, "fill", "none");
            document_add(img, e)
        }
    }
}

impl MText {
    /// Paints the text into the document.
    pub fn draw_on_image(&self, img: SVG, place: &TextPlacement) -> (r: SVG)
        ensures
            document_attributes(r) == document_attributes(img),
            document_shapes(r) == document_shapes(img).push(text_shape(*self, *place)),
    {
        let color = Figure::color_text(self.common.color);
        let anchor = match self.alignment.0 {
            Alignment::Begin => "start",
            Alignment::Center => "middle",
            Alignment::End => "end",
        };
        let e = element_new("text");
        let e = element_text(e, self.text.as_str());
        let e = element_set(e, "x", place.x.as_str());
        let e = element_set(e, "y", place.y.as_str());
        let e = element_set(e, "fill", color.as_str());
        let e = element_set(e, "font-size", place.font_size.as_str());
        let e = element_set(e, "text-anchor", anchor);
        let e = element_set(e, "opacity", place.opacity.as_str());
        let e = element_set(e, "font-family", "system-ui");
        assert(element_texts(e) =~= seq![self.text@]);
        document_add(img, e)
    }
}

impl Figure {
    /// Whether a placement is one for the figure.
    pub fn fits(&self, place: &Placement) -> (b: bool)
        ensures
            b == fits(*self, *place),
    {
        match (self, place) {
            (Figure::Rect(_), Placement::Rect(_)) => true,
            (Figure::Circle(f), Placement::Circle(p)) => f.fits(p),
            (Figure::Line(_), Placement::Line(_)) => true,
            (Figure::Grid(f), Placement::Grid(p)) => f.fits(p),
            (Figure::Poly(f), Placement::Poly(p)) => f.fits(p),
            (Figure::Text(_), Placement::Text(_)) => true,
            (Figure::Message(_), Placement::Nowhere) => true,
            _ => false,
        }
    }

    /// Paints the figure into the document at its place. A message is not
    /// painted.
    pub fn draw_on_image(&self, img: SVG, place: &Placement) -> (r: SVG)
        requires
            fits(*self, *place),
        ensures
            document_attributes(r) == document_attributes(img),
            document_shapes(r) == document_shapes(img) + shapes_of(*self, *place),
            self is Message ==> document_shapes(r) == document_shapes(img),
            !(self is Message) && !(self is Grid) ==> document_shapes(r).len() == document_shapes(
                img,
            ).len() + 1,
    {
        match (self, place) {
            (Figure::Rect(f), Placement::Rect(p)) => {
                let r = f.draw_on_image(img, p);
                assert(document_shapes(img).push(rect_shape(*f, *p)) =~= document_shapes(img)
                    + shapes_of(*self, *place));
                r
            },
            (Figure::Circle(f), Placement::Circle(p)) => {
                let r = f.draw_on_image(img, p);
                assert(document_shapes(img).push(circle_shape(*f, *p)) =~= document_shapes(img)
                    + shapes_of(*self, *place));
                r
            },
            (Figure::Line(f), Placement::Line(p)) => {
                let r = f.draw_on_image(img, p);
                assert(document_shapes(img).push(line_shape(*f, *p)) =~= document_shapes(img)
                    + shapes_of(*self, *place));
                r
            },
            (Figure::Grid(f), Placement::Grid(p)) => f.draw_on_image(img, p),
            (Figure::Poly(f), Placement::Poly(p)) => {
                let r = f.draw_on_image(img, p);
                assert(document_shapes(img).push(poly_shape(*f, *p)) =~= document_shapes(img)
                    + shapes_of(*self, *place));
                r
            },
            (Figure::Text(f), Placement::Text(p)) => {
                let r = f.draw_on_image(img, p);
                assert(document_shapes(img).push(text_shape(*f, *p)) =~= document_shapes(img)
                    + shapes_of(*self, *place));
                r
            },
            _ => {
                assert(document_shapes(img) + shapes_of(*self, *place) =~= document_shapes(img));
                img
            },
        }
    }
}

/// A page with nothing but its background.
pub fn blank_page(canvas: &Canvas) -> (doc: SVG)
    ensures
        document_attributes(doc) == page_attributes(*canvas),
        document_shapes(doc) == seq![background_shape(*canvas)],
{
    let mut view: Vec<char> = Vec::new();
    view.push('0');
    view.push(' ');
    view.push('0');
    view.push(' ');
    push_all(&mut view, chars_of(canvas.width.as_str()).as_slice());
    view.push(' ');
    push_all(&mut view, chars_of(canvas.height.as_str()).as_slice());
    assert(view@ =~= view_box(*canvas));
    let view = string_of(view.as_slice());
    let doc = document_new();
    let doc = document_set(doc, "viewBox", view.as_str());
    let doc = document_set(doc, "width", canvas.width.as_str());
    let doc = document_set(doc, "height", canvas.height.as_str());
    let e = element_new("rect");
    let e = element_set(e, "x", "0");
    let e = element_set(e, "y", "0");
    let e = element_set(e, "width", canvas.width.as_str());
    let e = element_set(e, "height", canvas.height.as_str());
    let e = element_set(e, "fill", "rgb(41, 41, 41)");
    let doc = document_add(doc, e);
    assert(document_shapes(doc) =~= seq![background_shape(*canvas)]);
    doc
}

/// Whether every figure has its placement.
pub fn fit(figures: &Vec<&Figure>, places: &Vec<Placement>) -> (b: bool)
    ensures
        b == fit_all(figures@.map_values(|f: &Figure| *f), places@),
{
    let ghost all = figures@.map_values(|f: &Figure| *f);
    if figures.len() != places.len() {
        return false;
    }
    let mut i: usize = 0;
    while i < figures.len()
        invariant
            i <= figures.len() == places.len(),
            all == figures@.map_values(|f: &Figure| *f),
            forall|k: int| 0 <= k < i ==> fits(#[trigger] all[k], places@[k]),
        decreases figures.len() - i,
    {
        assert(all[i as int] == *figures@[i as int]);
        if !figures[i].fits(&places[i]) {
            return false;
        }
        i += 1;
    }
    true
}

/// Paints a frame: the background, then every figure at its place, in the
/// order given, so that later figures lie over earlier ones.
pub fn export_frame(canvas: &Canvas, figures: &Vec<&Figure>, places: &Vec<Placement>) -> (doc: SVG)
    requires
        fit_all(figures@.map_values(|f: &Figure| *f), places@),
    ensures
        document_attributes(doc) == page_attributes(*canvas),
        document_shapes(doc) == seq![background_shape(*canvas)] + shapes_of_all(
            figures@.map_values(|f: &Figure| *f),
            places@,
        ),
{
    let ghost all = figures@.map_values(|f: &Figure| *f);
    let n = figures.len();
    let mut doc = blank_page(canvas);
    let ghost first = seq![background_shape(*canvas)];
    let mut i: usize = 0;
    assert(first + shapes_up_to(all, places@, 0) =~= first);
    while i < n
        invariant
            i <= n,
            n == figures.len(),
            n == places.len(),
            all == figures@.map_values(|f: &Figure| *f),
            fit_all(all, places@),
            first == seq![background_shape(*canvas)],
            document_attributes(doc) == page_attributes(*canvas),
            document_shapes(doc) == first + shapes_up_to(all, places@, i as nat),
        decreases n - i,
    {
        assert(all[i as int] == *figures@[i as int]);
        assert(fits(all[i as int], places@[i as int]));
        doc = figures[i].draw_on_image(doc, &places[i]);
        assert(document_shapes(doc) =~= first + shapes_up_to(all, places@, (i + 1) as nat));
        i += 1;
    }
    doc
}

} // verus!
