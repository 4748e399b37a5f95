//! What every figure carries besides its geometry.

use vstd::prelude::*;
use crate::alignment::Alignment;
use crate::app_data::DrawProperties;
use crate::color::Color;
use crate::parse::{labels, read_flag, read_opt, read_or, Params};

verus! {

/// Colour, tags and keyframe data of a figure.
pub struct CommonParams {
    pub color: Color,
    /// Tag labels; a figure without tags is always visible.
    pub tags: Vec<String>,
    pub keep: bool,
    /// Names the same object across keyframes.
    pub id: Option<i32>,
    /// Names the easing curve for in-betweens that lead to this figure.
    pub func: Option<String>,
}

/// The model of [`CommonParams`].
pub struct CommonView {
    pub color: Color,
    pub tags: Seq<Seq<char>>,
    pub keep: bool,
    pub id: Option<i32>,
    pub func: Option<Seq<char>>,
}

impl View for CommonParams {
    type V = CommonView;

    open spec fn view(&self) -> CommonView {
        CommonView {
            color: self.color,
            tags: labels(self.tags@),
            keep: self.keep,
            id: self.id,
            func: match self.func {
                Some(f) => Some(f@),
                None => None,
            },
        }
    }
}

/// The common block of a figure that names nothing: opaque black, no tag.
pub open spec fn plain() -> CommonView {
    CommonView { color: Color::black(), tags: Seq::empty(), keep: false, id: None, func: None }
}

/// The common block that the parameters of a line denote: `col`, `t`, `k`,
/// `id` and `fu`. Nothing where one of them is given in a wrong form.
pub open spec fn common_of(entries: Seq<(Seq<char>, Seq<char>)>) -> Option<CommonView> {
    match (
        read_or::<Color>(entries, seq!['c', 'o', 'l'], Color::black()),
        read_or::<Vec<String>>(entries, seq!['t'], Seq::empty()),
        read_flag(entries, seq!['k']),
        read_opt::<i32>(entries, seq!['i', 'd']),
        read_opt::<String>(entries, seq!['f', 'u']),
    ) {
        (Some(color), Some(tags), Some(keep), Some(id), Some(func)) => Some(
            CommonView { color, tags, keep, id, func },
        ),
        _ => None,
    }
}

/// The alignment that the parameters of a line denote: `a`, two letters, one
/// per axis; centred on both axes where the line names none.
pub open spec fn alignment_of(entries: Seq<(Seq<char>, Seq<char>)>) -> Option<
    (Alignment, Alignment),
> {
    match read_or::<(char, char)>(entries, seq!['a'], ('C', 'C')) {
        Some(code) => match (Alignment::of_letter(code.0), Alignment::of_letter(code.1)) {
            (Some(x), Some(y)) => Some((x, y)),
            _ => None,
        },
        None => None,
    }
}

/// A parameter name of one letter.
pub fn name1(a: char) -> (v: Vec<char>)
    ensures
        v@ == seq![a],
{
    let mut v: Vec<char> = Vec::new();
    v.push(a);
    assert(v@ =~= seq![a]);
    v
}

/// A parameter name of two letters.
pub fn name2(a: char, b: char) -> (v: Vec<char>)
    ensures
        v@ == seq![a, b],
{
    let mut v: Vec<char> = Vec::new();
    v.push(a);
    v.push(b);
    assert(v@ =~= seq![a, b]);
    v
}

/// A parameter name of three letters.
pub fn name3(a: char, b: char, c: char) -> (v: Vec<char>)
    ensures
        v@ == seq![a, b, c],
{
    let mut v: Vec<char> = Vec::new();
    v.push(a);
    v.push(b);
    v.push(c);
    assert(v@ =~= seq![a, b, c]);
    v
}

/// Reads the alignment of a figure.
pub fn read_alignment(params: &Params) -> (r: Option<(Alignment, Alignment)>)
    ensures
        r == alignment_of(params@),
{
    match params.get_or::<(char, char)>(name1('a').as_slice(), ('C', 'C')) {
        Some(code) => match (Alignment::from_char(code.0), Alignment::from_char(code.1)) {
            (Some(x), Some(y)) => Some((x, y)),
            _ => None,
        },
        None => None,
    }
}

impl CommonParams {
    /// Reads the common block of a figure from the parameters of its line.
    pub fn new(params: &Params, _draw_properties: &mut DrawProperties) -> (r: Option<CommonParams>)
        ensures
            match r {
                Some(c) => common_of(params@) == Some(c@),
                None => common_of(params@) is None,
            },
            *final(_draw_properties) == *old(_draw_properties),
    {
        let color = params.get_or::<Color>(
            name3('c', 'o', 'l').as_slice(),
            Color::rgb(0, 0, 0),
        );
        let no_tags: Vec<String> = Vec::new();
        assert(labels(no_tags@) =~= Seq::<Seq<char>>::empty());
        let tags = params.get_or::<Vec<String>>(name1('t').as_slice(), no_tags);
        let keep = params.flag(name1('k').as_slice());
        let id = params.get_opt::<i32>(name2('i', 'd').as_slice());
        let func = params.get_opt::<String>(name2('f', 'u').as_slice());
        match (color, tags, keep, id, func) {
            (Some(color), Some(tags), Some(keep), Some(id), Some(func)) => Some(
                CommonParams { color, tags, keep, id, func },
            ),
            _ => None,
        }
    }
}

impl CommonParams {
    /// The same block with another colour.
    pub fn with_color(&self, color: Color) -> (c: CommonParams)
        ensures
            c@ == (CommonView { color, ..self@ }),
    {
        let mut c = self.clone();
        c.color = color;
        c
    }
}

impl Default for CommonParams {
    fn default() -> (c: CommonParams)
        ensures
            c@ == plain(),
    {
        let c = CommonParams {
            color: Color::rgb(0, 0, 0),
            tags: Vec::new(),
            keep: false,
            id: None,
            func: None,
        };
        assert(labels(c.tags@) =~= Seq::<Seq<char>>::empty());
        c
    }
}

impl Clone for CommonParams {
    fn clone(&self) -> (c: CommonParams)
        ensures
            c@ == self@,
    {
        let mut tags: Vec<String> = Vec::new();
        let mut i: usize = 0;
        while i < self.tags.len()
            invariant
                i <= self.tags.len(),
                labels(tags@) == labels(self.tags@).take(i as int),
            decreases self.tags.len() - i,
        {
            let t = self.tags[i].clone();
            let ghost before = labels(tags@);
            tags.push(t);
            assert(labels(tags@) =~= before.push(t@));
            assert(labels(self.tags@).take(i + 1) =~= labels(self.tags@).take(i as int).push(
                self.tags@[i as int]@,
            ));
            i += 1;
        }
        assert(labels(self.tags@).take(self.tags.len() as int) =~= labels(self.tags@));
        let func = match &self.func {
            Some(f) => Some(f.clone()),
            None => None,
        };
        CommonParams { color: self.color, tags, keep: self.keep, id: self.id, func }
    }
}

} // verus!
