//! The figures of a scene: a closed set of shapes, read from protocol lines.

use vstd::prelude::*;
use crate::app_data::{DrawProperties, DrawPropertiesView};
use crate::color::Color;
use crate::figure::circle::{circle_of, MCircle, MCircleView};
use crate::figure::common::{CommonParams, CommonView};
use crate::figure::grid::{grid_of, MGrid, MGridView};
use crate::figure::line::{line_of, MLine, MLineView};
use crate::figure::message::{message_of, MMessage, MMessageView};
use crate::figure::poly::{poly_of, MPoly, MPolyView};
use crate::figure::rect::{rect_of, MRect, MRectView};
use crate::figure::text::{text_of, MText, MTextView};
use crate::number::{decimal, push_decimal};
use crate::parse::labels;
use crate::text::{chars_of, starts_with, string_of};

pub mod circle;
pub mod common;
pub mod grid;
pub mod line;
pub mod message;
pub mod poly;
pub mod rect;
pub mod text;

verus! {

/// A shape of the scene.
pub enum Figure {
    Rect(MRect),
    Circle(MCircle),
    Line(MLine),
    Grid(MGrid),
    Poly(MPoly),
    Text(MText),
    Message(MMessage),
}

/// The model of [`Figure`].
pub enum FigureView {
    Rect(MRectView),
    Circle(MCircleView),
    Line(MLineView),
    Grid(MGridView),
    Poly(MPolyView),
    Text(MTextView),
    Message(MMessageView),
}

/// Which shape a figure is.
#[derive(Clone, Copy, Debug, PartialEq, Eq, Structural)]
pub enum Kind {
    Rect,
    Circle,
    Line,
    Grid,
    Poly,
    Text,
    Message,
}

impl View for Figure {
    type V = FigureView;

    open spec fn view(&self) -> FigureView {
        match self {
            Figure::Rect(f) => FigureView::Rect(f@),
            Figure::Circle(f) => FigureView::Circle(f@),
            Figure::Line(f) => FigureView::Line(f@),
            Figure::Grid(f) => FigureView::Grid(f@),
            Figure::Poly(f) => FigureView::Poly(f@),
            Figure::Text(f) => FigureView::Text(f@),
            Figure::Message(f) => FigureView::Message(f@),
        }
    }
}

impl FigureView {
    /// The common block of the figure.
    pub open spec fn common(self) -> CommonView {
        match self {
            FigureView::Rect(f) => f.common,
            FigureView::Circle(f) => f.common,
            FigureView::Line(f) => f.common,
            FigureView::Grid(f) => f.common,
            FigureView::Poly(f) => f.common,
            FigureView::Text(f) => f.common,
            FigureView::Message(f) => f.common,
        }
    }

    /// Which shape the figure is.
    pub open spec fn kind(self) -> Kind {
        match self {
            FigureView::Rect(_) => Kind::Rect,
            FigureView::Circle(_) => Kind::Circle,
            FigureView::Line(_) => Kind::Line,
            FigureView::Grid(_) => Kind::Grid,
            FigureView::Poly(_) => Kind::Poly,
            FigureView::Text(_) => Kind::Text,
            FigureView::Message(_) => Kind::Message,
        }
    }
}

/// A figure is drawn if it has no tag, or if one of its tags is enabled.
pub open spec fn visible(tags: Seq<Seq<char>>, enabled: Set<Seq<char>>) -> bool {
    tags.len() == 0 || exists|i: int| 0 <= i < tags.len() && enabled.contains(#[trigger] tags[i])
}

/// With no tag enabled, exactly the figures without tags are drawn.
pub proof fn lemma_visible_none_enabled(tags: Seq<Seq<char>>)
    ensures
        visible(tags, Set::empty()) == (tags.len() == 0),
{
}

/// A figure is drawn if and only if it has no tag or shares a tag with the
/// enabled set.
pub proof fn lemma_visible_meets(tags: Seq<Seq<char>>, enabled: Set<Seq<char>>)
    ensures
        visible(tags, enabled) == (tags.len() == 0 || !(tags.to_set().intersect(enabled)
            =~= Set::<Seq<char>>::empty())),
{
    if tags.len() > 0 {
        if visible(tags, enabled) {
            let i = choose|i: int| 0 <= i < tags.len() && enabled.contains(#[trigger] tags[i]);
            assert(tags.contains(tags[i]));
            assert(tags.to_set().intersect(enabled).contains(tags[i]));
        }
        if !(tags.to_set().intersect(enabled) =~= Set::<Seq<char>>::empty()) {
            let t = choose|t: Seq<char>| tags.to_set().intersect(enabled).contains(t);
            assert(tags.contains(t));
            let i = choose|i: int| 0 <= i < tags.len() && tags[i] == t;
            assert(enabled.contains(tags[i]));
        }
    }
}

/// A colour as it is named in a vector document: `rgb(r, g, b)`.
pub open spec fn rgb_text(c: Color) -> Seq<char> {
    seq!['r', 'g', 'b', '('] + decimal(c.r as nat) + seq![',', ' '] + decimal(c.g as nat) + seq![
        ',',
        ' ',
    ] + decimal(c.b as nat) + seq![')']
}

impl Figure {
    /// The common block of the figure.
    pub fn common(&self) -> (c: &CommonParams)
        ensures
            c@ == self@.common(),
    {
        match self {
            Figure::Rect(f) => &f.common,
            Figure::Circle(f) => &f.common,
            Figure::Line(f) => &f.common,
            Figure::Grid(f) => &f.common,
            Figure::Poly(f) => &f.common,
            Figure::Text(f) => &f.common,
            Figure::Message(f) => &f.common,
        }
    }

    /// Which shape the figure is.
    pub fn kind(&self) -> (k: Kind)
        ensures
            k == self@.kind(),
    {
        match self {
            Figure::Rect(_) => Kind::Rect,
            Figure::Circle(_) => Kind::Circle,
            Figure::Line(_) => Kind::Line,
            Figure::Grid(_) => Kind::Grid,
            Figure::Poly(_) => Kind::Poly,
            Figure::Text(_) => Kind::Text,
            Figure::Message(_) => Kind::Message,
        }
    }

    /// The tags of the figure.
    pub fn tags(&self) -> (t: &Vec<String>)
        ensures
            labels(t@) == self@.common().tags,
    {
        &self.common().tags
    }

    /// The keep flag of the figure.
    pub fn keep(&self) -> (k: bool)
        ensures
            k == self@.common().keep,
    {
        self.common().keep
    }

    /// Whether the figure is drawn when the given tags are enabled.
    pub fn need_to_draw(&self, tags: &[String]) -> (b: bool)
        ensures
            b == visible(self@.common().tags, labels(tags@).to_set()),
    {
        let own = self.tags();
        let ghost enabled = labels(tags@).to_set();
        if own.len() == 0 {
            return true;
        }
        let mut i: usize = 0;
        while i < own.len()
            invariant
                i <= own.len(),
                own.len() > 0,
                labels(own@) == self@.common().tags,
                enabled == labels(tags@).to_set(),
                forall|k: int| 0 <= k < i ==> !enabled.contains(#[trigger] labels(own@)[k]),
            decreases own.len() - i,
        {
            let mut j: usize = 0;
            while j < tags.len()
                invariant
                    i < own.len(),
                    j <= tags.len(),
                    labels(own@) == self@.common().tags,
                    enabled == labels(tags@).to_set(),
                    forall|k: int| 0 <= k < j ==> #[trigger] labels(tags@)[k] != own@[i as int]@,
                decreases tags.len() - j,
            {
                if own[i] == tags[j] {
                    proof {
                        assert(labels(tags@)[j as int] == labels(own@)[i as int]);
                        assert(labels(tags@).contains(labels(own@)[i as int]));
                        assert(enabled.contains(self@.common().tags[i as int]));
                    }
                    return true;
                }
                assert(labels(tags@)[j as int] == tags@[j as int]@);
                j += 1;
            }
            proof {
                if enabled.contains(labels(own@)[i as int]) {
                    assert(labels(tags@).contains(own@[i as int]@));
                    let k = choose|k: int|
                        0 <= k < labels(tags@).len() && labels(tags@)[k] == own@[i as int]@;
                    assert(false);
                }
            }
            i += 1;
        }
        false
    }

    /// The colour of the figure as a vector document names it. The opacity
    /// is no part of the name.
    pub fn color_to_string(&self) -> (s: String)
        ensures
            s@ == rgb_text(self@.common().color),
    {
        Figure::color_text(self.common().color)
    }

    /// A colour as a vector document names it.
    pub fn color_text(c: Color) -> (s: String)
        ensures
            s@ == rgb_text(c),
    {
        let mut out: Vec<char> = Vec::new();
        out.push('r');
        out.push('g');
        out.push('b');
        out.push('(');
        assert(out@ =~= seq!['r', 'g', 'b', '(']);
        push_decimal(&mut out, c.r as u64);
        out.push(',');
        out.push(' ');
        push_decimal(&mut out, c.g as u64);
        out.push(',');
        out.push(' ');
        push_decimal(&mut out, c.b as u64);
        out.push(')');
        assert(out@ =~= rgb_text(c));
        string_of(out.as_slice())
    }
}

/// The keyword `rect`.
pub open spec fn word_rect() -> Seq<char> {
    seq!['r', 'e', 'c', 't']
}

/// The keyword `circle`.
pub open spec fn word_circle() -> Seq<char> {
    seq!['c', 'i', 'r', 'c', 'l', 'e']
}

/// The keyword `line`.
pub open spec fn word_line() -> Seq<char> {
    seq!['l', 'i', 'n', 'e']
}

/// The keyword `grid`.
pub open spec fn word_grid() -> Seq<char> {
    seq!['g', 'r', 'i', 'd']
}

/// The keyword `poly`.
pub open spec fn word_poly() -> Seq<char> {
    seq!['p', 'o', 'l', 'y']
}

/// The keyword `text`.
pub open spec fn word_text() -> Seq<char> {
    seq!['t', 'e', 'x', 't']
}

/// The keyword `msg`.
pub open spec fn word_msg() -> Seq<char> {
    seq!['m', 's', 'g']
}

/// The shape that the beginning of a line names, if any.
pub open spec fn kind_of(line: Seq<char>) -> Option<Kind> {
    if word_rect().is_prefix_of(line) {
        Some(Kind::Rect)
    } else if word_circle().is_prefix_of(line) {
        Some(Kind::Circle)
    } else if word_line().is_prefix_of(line) {
        Some(Kind::Line)
    } else if word_grid().is_prefix_of(line) {
        Some(Kind::Grid)
    } else if word_poly().is_prefix_of(line) {
        Some(Kind::Poly)
    } else if word_text().is_prefix_of(line) {
        Some(Kind::Text)
    } else if word_msg().is_prefix_of(line) {
        Some(Kind::Message)
    } else {
        None
    }
}

/// The figure that a line denotes under the given properties. Nothing where
/// the line begins with no shape keyword, or names a shape and gives one of
/// its parameters in a wrong form.
pub open spec fn decode(line: Seq<char>, props: DrawPropertiesView) -> Option<FigureView> {
    match kind_of(line) {
        Some(Kind::Rect) => match rect_of(line, props) {
            Some(f) => Some(FigureView::Rect(f)),
            None => None,
        },
        Some(Kind::Circle) => match circle_of(line, props) {
            Some(f) => Some(FigureView::Circle(f)),
            None => None,
        },
        Some(Kind::Line) => match line_of(line, props) {
            Some(f) => Some(FigureView::Line(f)),
            None => None,
        },
        Some(Kind::Grid) => match grid_of(line, props) {
            Some(f) => Some(FigureView::Grid(f)),
            None => None,
        },
        Some(Kind::Poly) => match poly_of(line, props) {
            Some(f) => Some(FigureView::Poly(f)),
            None => None,
        },
        Some(Kind::Text) => match text_of(line, props) {
            Some(f) => Some(FigureView::Text(f)),
            None => None,
        },
        Some(Kind::Message) => Some(FigureView::Message(message_of(line, props))),
        None => None,
    }
}

/// The properties after a line was read as a figure: a message is counted,
/// nothing else changes.
pub open spec fn props_after(line: Seq<char>, props: DrawPropertiesView) -> DrawPropertiesView {
    if kind_of(line) == Some(Kind::Message) {
        DrawPropertiesView { was_messages: (props.was_messages + 1) as usize, ..props }
    } else {
        props
    }
}

/// Names the shape at the beginning of a line.
pub fn keyword(line: &[char]) -> (k: Option<Kind>)
    ensures
        k == kind_of(line@),
{
    let rect = ['r', 'e', 'c', 't'];
    let circle = ['c', 'i', 'r', 'c', 'l', 'e'];
    let line_word = ['l', 'i', 'n', 'e'];
    let grid = ['g', 'r', 'i', 'd'];
    let poly = ['p', 'o', 'l', 'y'];
    let text = ['t', 'e', 'x', 't'];
    let msg = ['m', 's', 'g'];
    assert(rect@ =~= word_rect());
    assert(circle@ =~= word_circle());
    assert(line_word@ =~= word_line());
    assert(grid@ =~= word_grid());
    assert(poly@ =~= word_poly());
    assert(text@ =~= word_text());
    assert(msg@ =~= word_msg());
    if starts_with(line, &rect) {
        Some(Kind::Rect)
    } else if starts_with(line, &circle) {
        Some(Kind::Circle)
    } else if starts_with(line, &line_word) {
        Some(Kind::Line)
    } else if starts_with(line, &grid) {
        Some(Kind::Grid)
    } else if starts_with(line, &poly) {
        Some(Kind::Poly)
    } else if starts_with(line, &text) {
        Some(Kind::Text)
    } else if starts_with(line, &msg) {
        Some(Kind::Message)
    } else {
        None
    }
}

/// Reads a figure from a line of the protocol. The keyword at the beginning
/// of the line chooses the shape.
pub fn from_string(s: &str, draw_properties: &mut DrawProperties) -> (r: Option<Figure>)
    requires
        kind_of(s@) == Some(Kind::Message) ==> old(draw_properties).was_messages < usize::MAX,
    ensures
        match r {
            Some(f) => decode(s@, old(draw_properties)@) == Some(f@),
            None => decode(s@, old(draw_properties)@) is None,
        },
        final(draw_properties)@ == props_after(s@, old(draw_properties)@),
{
    let line = chars_of(s);
    match keyword(line.as_slice()) {
        Some(Kind::Rect) => match MRect::from_string(s, draw_properties) {
            Some(f) => Some(Figure::Rect(f)),
            None => None,
        },
        Some(Kind::Circle) => match MCircle::from_string(s, draw_properties) {
            Some(f) => Some(Figure::Circle(f)),
            None => None,
        },
        Some(Kind::Line) => match MLine::from_string(s, draw_properties) {
            Some(f) => Some(Figure::Line(f)),
            None => None,
        },
        Some(Kind::Grid) => match MGrid::from_string(s, draw_properties) {
            Some(f) => Some(Figure::Grid(f)),
            None => None,
        },
        Some(Kind::Poly) => match MPoly::from_string(s, draw_properties) {
            Some(f) => Some(Figure::Poly(f)),
            None => None,
        },
        Some(Kind::Text) => match MText::from_string(s, draw_properties) {
            Some(f) => Some(Figure::Text(f)),
            None => None,
        },
        Some(Kind::Message) => Some(Figure::Message(MMessage::from_string(s, draw_properties))),
        None => None,
    }
}

} // verus!
