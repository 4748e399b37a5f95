//! Text labels.

use vstd::prelude::*;
use crate::alignment::Alignment;
use crate::app_data::{DrawProperties, DrawPropertiesView};
use crate::color::Color;
use crate::figure::common::{
    alignment_of, common_of, name1, read_alignment, CommonParams, CommonView,
};
use crate::number::Scalar;
use crate::parse::{entries_of, origin, read_or, Params, Point};
use crate::text::{chars_of, concat, find, position, slice_of, string_of, tokens};

verus! {

/// A text drawn at a point.
pub struct MText {
    pub center: Point,
    pub text: String,
    /// Font size.
    pub font: Scalar,
    pub alignment: (Alignment, Alignment),
    pub common: CommonParams,
}

/// The model of [`MText`].
pub struct MTextView {
    pub center: (Seq<char>, Seq<char>),
    pub text: Seq<char>,
    pub font: Seq<char>,
    pub alignment: (Alignment, Alignment),
    pub common: CommonView,
}

impl View for MText {
    type V = MTextView;

    open spec fn view(&self) -> MTextView {
        MTextView {
            center: self.center@,
            text: self.text@,
            font: self.font@,
            alignment: self.alignment,
            common: self.common@,
        }
    }
}

/// The position of the first `m=` at or after `i` that is followed by at
/// least one more character, or the length of `s` where there is none.
pub open spec fn marker_from(s: Seq<char>, i: int) -> int
    decreases s.len() - i,
{
    if 0 <= i && i + 2 < s.len() {
        if s[i] == 'm' && s[i + 1] == '=' {
            i
        } else {
            marker_from(s, i + 1)
        }
    } else {
        s.len() as int
    }
}

/// A text with each `;` turned into a line break.
pub open spec fn softened(text: Seq<char>) -> Seq<char> {
    text.map_values(
        |c: char|
            if c == ';' {
                '\n'
            } else {
                c
            },
    )
}

/// The text of a text line and the line without it.
///
/// The text follows the first `m=`. Where it begins with a double quote it
/// runs to the next double quote, which must exist; otherwise it runs to the
/// next blank or to the end of the line. The rest of the line is what stands
/// before the character in front of `m=`, and what follows the text. A line
/// without `m=` has the empty text. A line that begins with `m=` has no
/// parts.
pub open spec fn text_parts(s: Seq<char>) -> Option<(Seq<char>, Seq<char>)> {
    let i = marker_from(s, 0);
    if i >= s.len() {
        Some((Seq::empty(), s))
    } else if i == 0 {
        None
    } else if s[i + 2] == '"' {
        let body = s.skip(i + 3);
        let close = find(body, '"');
        if close >= body.len() {
            None
        } else {
            Some((softened(body.take(close)), s.take(i - 1) + body.skip(close + 1)))
        }
    } else {
        let body = s.skip(i + 2);
        let end = find(body, ' ');
        Some((softened(body.take(end)), s.take(i - 1) + body.skip(end)))
    }
}

/// The text figure that a line denotes: the text `m`, and from the rest of
/// the line the centre `c` (by default `(0,0)`), font size `s` (by default
/// the size in force), alignment `a` and the common block. Nothing where the
/// text is not closed or a parameter is given in a wrong form.
pub open spec fn text_of(line: Seq<char>, props: DrawPropertiesView) -> Option<MTextView> {
    match text_parts(line) {
        Some((text, rest)) => {
            let entries = entries_of(tokens(rest));
            match (
                read_or::<Point>(entries, seq!['c'], origin()),
                read_or::<Scalar>(entries, seq!['s'], props.font),
                alignment_of(entries),
                common_of(entries),
            ) {
                (Some(center), Some(font), Some(alignment), Some(common)) => Some(
                    MTextView { center, text, font, alignment, common },
                ),
                _ => None,
            }
        },
        None => None,
    }
}

/// The text of an in-between: the longer of the two texts (the second where
/// they are equally long), cut to `length` characters, or whole where it has
/// fewer.
pub open spec fn blended_text(a: Seq<char>, b: Seq<char>, length: nat) -> Seq<char> {
    let longer = if a.len() > b.len() {
        a
    } else {
        b
    };
    if length <= longer.len() {
        longer.take(length as int)
    } else {
        longer
    }
}

/// Cut to its own length, the longer text is whole: an in-between at the
/// length of the first text is the first text where that is the longer one,
/// and an in-between at the length of the second text is the second text
/// where that is at least as long.
pub proof fn lemma_blended_text_ends(a: Seq<char>, b: Seq<char>)
    ensures
        a.len() > b.len() ==> blended_text(a, b, a.len()) == a,
        b.len() >= a.len() ==> blended_text(a, b, b.len()) == b,
{
    assert(a.take(a.len() as int) =~= a);
    assert(b.take(b.len() as int) =~= b);
}

fn find_marker(s: &[char]) -> (i: usize)
    ensures
        i == marker_from(s@, 0),
        i <= s.len(),
        i < s.len() ==> i + 2 < s.len(),
{
    let n = s.len();
    let mut i: usize = 0;
    while i < n && n - i > 2
        invariant
            i <= n == s.len(),
            marker_from(s@, 0) == marker_from(s@, i as int),
        decreases n - i,
    {
        if s[i] == 'm' && s[i + 1] == '=' {
            return i;
        }
        i += 1;
    }
    n
}

fn soften(text: &[char]) -> (out: Vec<char>)
    ensures
        out@ == softened(text@),
{
    let mut out: Vec<char> = Vec::new();
    let mut i: usize = 0;
    while i < text.len()
        invariant
            i <= text.len(),
            out@ == softened(text@.take(i as int)),
        decreases text.len() - i,
    {
        let c = text[i];
        out.push(if c == ';' {
            '\n'
        } else {
            c
        });
        assert(softened(text@.take(i + 1)) =~= softened(text@.take(i as int)).push(
            if c == ';' {
                '\n'
            } else {
                c
            },
        ));
        i += 1;
    }
    assert(text@.take(text.len() as int) =~= text@);
    out
}

/// Separates the text of a text line from the rest of the line.
pub fn split_text(s: &[char]) -> (r: Option<(Vec<char>, Vec<char>)>)
    ensures
        match r {
            Some(p) => text_parts(s@) == Some((p.0@, p.1@)),
            None => text_parts(s@) is None,
        },
{
    let n = s.len();
    let i = find_marker(s);
    if i >= n {
        let rest = slice_of(s, 0, n);
        assert(rest@ =~= s@);
        return Some((Vec::new(), rest));
    }
    if i == 0 {
        return None;
    }
    let head = slice_of(s, 0, i - 1);
    assert(head@ =~= s@.take(i - 1));
    if s[i + 2] == '"' {
        let close = position(s, i + 3, '"');
        if close >= n {
            return None;
        }
        let text = soften(slice_of(s, i + 3, close).as_slice());
        let tail = slice_of(s, close + 1, n);
        proof {
            let body = s@.skip(i + 3);
            assert(body.take(close - (i + 3)) =~= s@.subrange(i + 3, close as int));
            assert(body.skip(close - (i + 3) + 1) =~= tail@);
        }
        Some((text, concat(head.as_slice(), tail.as_slice())))
    } else {
        let end = position(s, i + 2, ' ');
        let text = soften(slice_of(s, i + 2, end).as_slice());
        let tail = slice_of(s, end, n);
        proof {
            let body = s@.skip(i + 2);
            assert(body.take(end - (i + 2)) =~= s@.subrange(i + 2, end as int));
            assert(body.skip(end - (i + 2)) =~= tail@);
        }
        Some((text, concat(head.as_slice(), tail.as_slice())))
    }
}

impl MText {
    /// Reads a text figure from its line.
    pub fn from_string(s: &str, draw_properties: &mut DrawProperties) -> (r: Option<MText>)
        ensures
            match r {
                Some(f) => text_of(s@, old(draw_properties)@) == Some(f@),
                None => text_of(s@, old(draw_properties)@) is None,
            },
            *final(draw_properties) == *old(draw_properties),
    {
        let line = chars_of(s);
        let (text, rest) = match split_text(line.as_slice()) {
            Some(parts) => parts,
            None => {
                return None;
            },
        };
        let params = Params::from_chars(rest.as_slice());
        let center = params.get_or::<Point>(name1('c').as_slice(), Point::origin());
        let font = params.get_or::<Scalar>(name1('s').as_slice(), draw_properties.font.clone());
        let alignment = read_alignment(&params);
        let common = CommonParams::new(&params, draw_properties);
        match (center, font, alignment, common) {
            (Some(center), Some(font), Some(alignment), Some(common)) => {
                Some(MText { center, text: string_of(text.as_slice()), font, alignment, common })
            },
            _ => None,
        }
    }

    /// An in-between of `a` and the later text `b`: the blended centre, font
    /// size and colour as given, the text cut to the blended length, and
    /// everything else as in `a`.
    pub fn between(a: &MText, b: &MText, center: Point, length: usize, font: Scalar, color: Color) -> (r:
        MText)
        ensures
            r@ == (MTextView {
                center: center@,
                text: blended_text(a@.text, b@.text, length as nat),
                font: font@,
                common: CommonView { color, ..a@.common },
                ..a@
            }),
    {
        let first = chars_of(a.text.as_str());
        let second = chars_of(b.text.as_str());
        let longer = if first.len() > second.len() {
            first
        } else {
            second
        };
        let text = if length <= longer.len() {
            slice_of(longer.as_slice(), 0, length)
        } else {
            slice_of(longer.as_slice(), 0, longer.len())
        };
        assert(longer@.subrange(0, longer@.len() as int) =~= longer@);
        MText {
            center,
            text: string_of(text.as_slice()),
            font,
            alignment: a.alignment,
            common: a.common.with_color(color),
        }
    }
}

} // verus!
