//! In-betweens: the synthetic steps between two keyframes of one object.
//!
//! The library decides whether two figures can be blended, how many steps
//! lie between them and which easing factor each step uses, and which fields
//! a step takes unchanged from the first keyframe. Blending the numbers at a
//! factor is arithmetic on real quantities and is done by the caller.

use vstd::prelude::*;
use crate::figure::circle::MCircle;
use crate::figure::grid::MGrid;
use crate::figure::line::MLine;
use crate::figure::poly::MPoly;
use crate::figure::rect::MRect;
use crate::figure::text::MText;
use crate::figure::{Figure, FigureView, Kind};
use crate::number::Scalar;

verus! {

/// How keyframes are blended: the number of steps from one keyframe to the
/// next, the default easing curve and the named ones.
///
/// A curve lists the easing factor of each in-between, from 0 (the first
/// keyframe) to 1 (the second). Every curve is long enough for the number of
/// steps.
pub struct InBetweenProperties {
    frames: usize,
    func: Vec<Scalar>,
    funcs: Vec<(String, Vec<Scalar>)>,
}

/// The model of [`InBetweenProperties`].
pub struct InBetweenView {
    /// Steps from one keyframe to the next; one less is the number of
    /// in-betweens.
    pub frames: nat,
    /// The default curve.
    pub func: Seq<Seq<char>>,
    /// The named curves, in the order in which they were set.
    pub funcs: Seq<(Seq<char>, Seq<Seq<char>>)>,
}

/// The factors of a curve.
pub open spec fn factors(v: Seq<Scalar>) -> Seq<Seq<char>> {
    v.map_values(|x: Scalar| x@)
}

/// The named curves as names and factors.
pub open spec fn curves(v: Seq<(String, Vec<Scalar>)>) -> Seq<(Seq<char>, Seq<Seq<char>>)> {
    v.map_values(|c: (String, Vec<Scalar>)| (c.0@, factors(c.1@)))
}

/// The curve that was set last under a name, if any.
pub open spec fn named(funcs: Seq<(Seq<char>, Seq<Seq<char>>)>, name: Seq<char>) -> Option<
    Seq<Seq<char>>,
>
    decreases funcs.len(),
{
    if funcs.len() == 0 {
        None
    } else if funcs.last().0 == name {
        Some(funcs.last().1)
    } else {
        named(funcs.drop_last(), name)
    }
}

impl InBetweenView {
    /// There is at least one step, and every curve has a factor for each
    /// in-between.
    pub open spec fn wf(self) -> bool {
        &&& self.frames >= 1
        &&& self.func.len() >= self.frames - 1
        &&& forall|i: int|
            0 <= i < self.funcs.len() ==> (#[trigger] self.funcs[i]).1.len() >= self.frames - 1
    }

    /// The curve that a figure asks for: the one named by its curve
    /// reference where that name was set, else the default curve.
    pub open spec fn curve(self, name: Option<Seq<char>>) -> Seq<Seq<char>> {
        match name {
            Some(n) => match named(self.funcs, n) {
                Some(c) => c,
                None => self.func,
            },
            None => self.func,
        }
    }

    /// The easing factors of the in-betweens from `a` to `b`: none where the
    /// two are of different kinds or are messages; otherwise one for each
    /// in-between, taken in order from the curve that `b` asks for.
    pub open spec fn plan(self, a: FigureView, b: FigureView) -> Seq<Seq<char>> {
        if a.kind() == b.kind() && a.kind() != Kind::Message {
            self.curve(b.common().func).take(self.frames - 1)
        } else {
            Seq::empty()
        }
    }
}

impl View for InBetweenProperties {
    type V = InBetweenView;

    closed spec fn view(&self) -> InBetweenView {
        InBetweenView {
            frames: self.frames as nat,
            func: factors(self.func@),
            funcs: curves(self.funcs@),
        }
    }
}

proof fn lemma_named_long(funcs: Seq<(Seq<char>, Seq<Seq<char>>)>, name: Seq<char>, n: int)
    requires
        forall|i: int| 0 <= i < funcs.len() ==> (#[trigger] funcs[i]).1.len() >= n,
    ensures
        named(funcs, name) is Some ==> named(funcs, name).unwrap().len() >= n,
    decreases funcs.len(),
{
    if funcs.len() > 0 && funcs.last().0 != name {
        let rest = funcs.drop_last();
        assert forall|i: int| 0 <= i < rest.len() implies (#[trigger] rest[i]).1.len() >= n by {
            assert(rest[i] == funcs[i]);
        }
        lemma_named_long(rest, name, n);
    }
}

/// Different kinds of figure have no in-between.
pub proof fn lemma_plan_mismatch(p: InBetweenView, a: FigureView, b: FigureView)
    requires
        a.kind() != b.kind(),
    ensures
        p.plan(a, b).len() == 0,
{
}

/// Two figures of one kind, other than messages, have one in-between less
/// than there are steps.
pub proof fn lemma_plan_len(p: InBetweenView, a: FigureView, b: FigureView)
    requires
        p.wf(),
        a.kind() == b.kind(),
        a.kind() != Kind::Message,
    ensures
        p.plan(a, b).len() == p.frames - 1,
{
    match b.common().func {
        Some(n) => {
            lemma_named_long(p.funcs, n, p.frames - 1);
        },
        None => {},
    }
}

impl InBetweenProperties {
    /// One step from keyframe to keyframe, so no in-between, and no curve.
    pub fn new() -> (p: InBetweenProperties)
        ensures
            p@ == (InBetweenView { frames: 1, func: Seq::empty(), funcs: Seq::empty() }),
            p@.wf(),
    {
        let p = InBetweenProperties { frames: 1, func: Vec::new(), funcs: Vec::new() };
        assert(p@.func =~= Seq::empty());
        assert(p@.funcs =~= Seq::empty());
        p
    }

    /// `frames` steps from keyframe to keyframe with the given default curve
    /// and no named curve. Refused where there is no step, or the curve has
    /// fewer factors than there are in-betweens.
    pub fn with_frames(frames: usize, func: Vec<Scalar>) -> (r: Option<InBetweenProperties>)
        ensures
            r is Some <==> frames >= 1 && func@.len() >= frames - 1,
            r is Some ==> r.unwrap()@ == (InBetweenView {
                frames: frames as nat,
                func: factors(func@),
                funcs: Seq::empty(),
            }) && r.unwrap()@.wf(),
    {
        if frames >= 1 && func.len() >= frames - 1 {
            let p = InBetweenProperties { frames, func, funcs: Vec::new() };
            assert(p@.funcs =~= Seq::empty());
            Some(p)
        } else {
            None
        }
    }

    /// Sets a named curve, in place of any earlier one of that name. Refused,
    /// and nothing changed, where the curve has fewer factors than there are
    /// in-betweens.
    pub fn set_func(&mut self, name: String, curve: Vec<Scalar>) -> (accepted: bool)
        requires
            old(self)@.wf(),
        ensures
            accepted == (curve@.len() >= old(self)@.frames - 1),
            accepted ==> final(self)@ == (InBetweenView {
                funcs: old(self)@.funcs.push((name@, factors(curve@))),
                ..old(self)@
            }),
            !accepted ==> final(self)@ == old(self)@,
            final(self)@.wf(),
    {
        if curve.len() >= self.frames - 1 {
            let ghost before = curves(self.funcs@);
            let ghost entry = (name@, factors(curve@));
            self.funcs.push((name, curve));
            assert(curves(self.funcs@) =~= before.push(entry));
            true
        } else {
            false
        }
    }

    /// Steps from one keyframe to the next.
    pub fn frames(&self) -> (n: usize)
        ensures
            n == self@.frames,
    {
        self.frames
    }

    /// The curve that a figure with the given curve reference asks for.
    pub fn curve(&self, name: Option<&String>) -> (c: &Vec<Scalar>)
        requires
            self@.wf(),
        ensures
            factors(c@) == self@.curve(
                match name {
                    Some(n) => Some(n@),
                    None => None,
                },
            ),
            c@.len() >= self@.frames - 1,
    {
        match name {
            Some(n) => {
                let mut i: usize = self.funcs.len();
                assert(curves(self.funcs@).take(i as int) =~= curves(self.funcs@));
                while i > 0
                    invariant
                        i <= self.funcs.len(),
                        name == Some(n),
                        named(curves(self.funcs@), n@) == named(
                            curves(self.funcs@).take(i as int),
                            n@,
                        ),
                        self@.wf(),
                    decreases i,
                {
                    let ghost list = curves(self.funcs@).take(i as int);
                    assert(list.last() == curves(self.funcs@)[i - 1]);
                    assert(list.drop_last() =~= curves(self.funcs@).take(i - 1));
                    assert(list.last() == (
                        self.funcs@[i - 1].0@,
                        factors(self.funcs@[i - 1].1@),
                    ));
                    if self.funcs[i - 1].0 == *n {
                        assert(self@.funcs[i - 1].1.len() >= self@.frames - 1);
                        assert(named(list, n@) == Some(factors(self.funcs@[i - 1].1@)));
                        return &self.funcs[i - 1].1;
                    }
                    i -= 1;
                }
                &self.func
            },
            None => &self.func,
        }
    }
}

impl InBetweenProperties {
    /// The easing factors of the in-betweens that lead to a figure with the
    /// given curve reference, in order.
    pub fn steps(&self, func: Option<&String>) -> (steps: Vec<Scalar>)
        requires
            self@.wf(),
        ensures
            factors(steps@) == self@.curve(
                match func {
                    Some(n) => Some(n@),
                    None => None,
                },
            ).take(self@.frames - 1),
    {
        let mut steps: Vec<Scalar> = Vec::new();
        let frames = self.frames();
        let curve = self.curve(func);
        let ghost all = factors(curve@);
        let mut i: usize = 0;
        assert(factors(steps@) =~= all.take(0));
        while i < frames - 1
            invariant
                i <= frames - 1 <= curve.len(),
                all == factors(curve@),
                factors(steps@) == all.take(i as int),
            decreases frames - 1 - i,
        {
            let k = curve[i].clone();
            let ghost before = factors(steps@);
            steps.push(k);
            assert(factors(steps@) =~= before.push(k@));
            assert(all.take(i + 1) =~= all.take(i as int).push(curve@[i as int]@));
            i += 1;
        }
        steps
    }
}

impl MRect {
    /// The easing factors of the in-betweens from rectangle `a` to rectangle
    /// `b`.
    pub fn in_betweens(a: &MRect, b: &MRect, in_between_properties: &InBetweenProperties) -> (steps:
        Vec<Scalar>)
        requires
            in_between_properties@.wf(),
        ensures
            factors(steps@) == in_between_properties@.plan(
                FigureView::Rect(a@),
                FigureView::Rect(b@),
            ),
    {
        in_between_properties.steps(b.common.func.as_ref())
    }
}

impl MCircle {
    /// The easing factors of the in-betweens from circle `a` to circle `b`.
    pub fn in_betweens(a: &MCircle, b: &MCircle, in_between_properties: &InBetweenProperties) -> (steps:
        Vec<Scalar>)
        requires
            in_between_properties@.wf(),
        ensures
            factors(steps@) == in_between_properties@.plan(
                FigureView::Circle(a@),
                FigureView::Circle(b@),
            ),
    {
        in_between_properties.steps(b.common.func.as_ref())
    }
}

impl MLine {
    /// The easing factors of the in-betweens from line `a` to line `b`.
    pub fn in_betweens(a: &MLine, b: &MLine, in_between_properties: &InBetweenProperties) -> (steps:
        Vec<Scalar>)
        requires
            in_between_properties@.wf(),
        ensures
            factors(steps@) == in_between_properties@.plan(
                FigureView::Line(a@),
                FigureView::Line(b@),
            ),
    {
        in_between_properties.steps(b.common.func.as_ref())
    }
}

impl MGrid {
    /// The easing factors of the in-betweens from grid `a` to grid `b`.
    pub fn in_betweens(a: &MGrid, b: &MGrid, in_between_properties: &InBetweenProperties) -> (steps:
        Vec<Scalar>)
        requires
            in_between_properties@.wf(),
        ensures
            factors(steps@) == in_between_properties@.plan(
                FigureView::Grid(a@),
                FigureView::Grid(b@),
            ),
    {
        in_between_properties.steps(b.common.func.as_ref())
    }
}

impl MPoly {
    /// The easing factors of the in-betweens from polygon `a` to polygon `b`.
    pub fn in_betweens(a: &MPoly, b: &MPoly, in_between_properties: &InBetweenProperties) -> (steps:
        Vec<Scalar>)
        requires
            in_between_properties@.wf(),
        ensures
            factors(steps@) == in_between_properties@.plan(
                FigureView::Poly(a@),
                FigureView::Poly(b@),
            ),
    {
        in_between_properties.steps(b.common.func.as_ref())
    }
}

impl MText {
    /// The easing factors of the in-betweens from text `a` to text `b`.
    pub fn in_betweens(a: &MText, b: &MText, in_between_properties: &InBetweenProperties) -> (steps:
        Vec<Scalar>)
        requires
            in_between_properties@.wf(),
        ensures
            factors(steps@) == in_between_properties@.plan(
                FigureView::Text(a@),
                FigureView::Text(b@),
            ),
    {
        in_between_properties.steps(b.common.func.as_ref())
    }
}

/// The easing factors of the in-betweens from keyframe `a` to keyframe `b`,
/// in order: none where the two figures are of different kinds.
pub fn in_betweens(a: &Figure, b: &Figure, in_between_properties: &InBetweenProperties) -> (steps:
    Vec<Scalar>)
    requires
        in_between_properties@.wf(),
    ensures
        factors(steps@) == in_between_properties@.plan(a@, b@),
{
    match (a, b) {
        (Figure::Rect(x), Figure::Rect(y)) => MRect::in_betweens(x, y, in_between_properties),
        (Figure::Circle(x), Figure::Circle(y)) => MCircle::in_betweens(x, y, in_between_properties),
        (Figure::Line(x), Figure::Line(y)) => MLine::in_betweens(x, y, in_between_properties),
        (Figure::Grid(x), Figure::Grid(y)) => MGrid::in_betweens(x, y, in_between_properties),
        (Figure::Poly(x), Figure::Poly(y)) => MPoly::in_betweens(x, y, in_between_properties),
        (Figure::Text(x), Figure::Text(y)) => MText::in_betweens(x, y, in_between_properties),
        _ => {
            let steps: Vec<Scalar> = Vec::new();
            assert(factors(steps@) =~= Seq::<Seq<char>>::empty());
            steps
        },
    }
}

} // verus!
