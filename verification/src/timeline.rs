//! What holds of every scene that was read from lines: the shape of its
//! timeline, and the state of tags that were disabled before their first use.

use vstd::prelude::*;
use crate::figure::decode;
use crate::scene::{
    word_disable, word_font, word_size, word_speed, word_svgwidth, word_tick, word_width,
    SceneView,
};
use crate::tags::{has_label, lookup, TagRegistryView};
use crate::text::trimmed;

verus! {

/// What a line is to the timeline.
pub enum LineKind {
    /// A tick directive.
    Tick,
    /// A line that was read as a figure.
    Figure,
    /// Any other directive, or a line that says nothing.
    Other,
}

/// Whether a line begins with a directive other than `tick`.
pub open spec fn is_setting(line: Seq<char>) -> bool {
    ||| word_speed().is_prefix_of(line)
    ||| word_width().is_prefix_of(line)
    ||| word_font().is_prefix_of(line)
    ||| word_size().is_prefix_of(line)
    ||| word_svgwidth().is_prefix_of(line)
    ||| word_disable().is_prefix_of(line)
}

/// What a line is to the timeline of the scene that reads it.
pub open spec fn line_kind(s: SceneView, line: Seq<char>) -> LineKind {
    if word_tick().is_prefix_of(line) {
        LineKind::Tick
    } else if !is_setting(line) && decode(line, s.props) is Some {
        LineKind::Figure
    } else {
        LineKind::Other
    }
}

/// What each line of an input is to the timeline.
pub open spec fn kinds(lines: Seq<Seq<char>>) -> Seq<LineKind>
    decreases lines.len(),
{
    if lines.len() == 0 {
        Seq::empty()
    } else {
        kinds(lines.drop_last()).push(
            line_kind(SceneView::initial().run(lines.drop_last()), lines.last()),
        )
    }
}

/// How many figures an input declares.
pub open spec fn figures(kinds: Seq<LineKind>) -> nat
    decreases kinds.len(),
{
    if kinds.len() == 0 {
        0
    } else if kinds.last() is Figure {
        figures(kinds.drop_last()) + 1
    } else {
        figures(kinds.drop_last())
    }
}

/// For each tick of an input, in order, how many figures were declared
/// before it.
pub open spec fn tick_marks(kinds: Seq<LineKind>) -> Seq<nat>
    decreases kinds.len(),
{
    if kinds.len() == 0 {
        Seq::empty()
    } else if kinds.last() is Tick {
        tick_marks(kinds.drop_last()).push(figures(kinds.drop_last()))
    } else {
        tick_marks(kinds.drop_last())
    }
}

/// The indices from `a` up to, not including, `b`.
pub open spec fn span(a: nat, b: nat) -> Seq<nat> {
    Seq::new(
        if b >= a {
            (b - a) as nat
        } else {
            0
        },
        |i: int| (a + i) as nat,
    )
}

/// The segment of figures that follows tick `j`: from the figures declared
/// before that tick up to those declared before the next tick, or up to the
/// end of the input.
pub open spec fn segment(kinds: Seq<LineKind>, j: int) -> Seq<nat> {
    let marks = tick_marks(kinds);
    span(
        marks[j],
        if j + 1 < marks.len() {
            marks[j + 1]
        } else {
            figures(kinds)
        },
    )
}

/// The invariant that ties a scene to the lines it has read.
spec fn shaped(s: SceneView, kinds: Seq<LineKind>) -> bool {
    let marks = tick_marks(kinds);
    let n = figures(kinds);
    &&& s.objects.len() == n
    &&& s.seen_tick == (marks.len() > 0)
    &&& !s.seen_tick ==> s.frames.len() == 0 && s.accumulator == span(0, n)
    &&& s.seen_tick ==> {
        &&& marks.last() <= n
        &&& s.baseline == span(0, marks[0])
        &&& s.accumulator == span(0, marks[0]) + span(marks.last(), n)
        &&& s.frames.len() == marks.len() - 1
        &&& forall|j: int|
            0 <= j < marks.len() - 1 ==> #[trigger] s.frames[j] == span(0, marks[0]) + span(
                marks[j],
                marks[j + 1],
            )
    }
}

proof fn lemma_span_push(a: nat, n: nat)
    requires
        a <= n,
    ensures
        span(a, n).push(n) == span(a, n + 1),
{
    assert(span(a, n).push(n) =~= span(a, n + 1));
}

proof fn lemma_shaped(lines: Seq<Seq<char>>)
    ensures
        shaped(SceneView::initial().run(lines), kinds(lines)),
    decreases lines.len(),
{
    if lines.len() == 0 {
        assert(SceneView::initial().accumulator =~= span(0, 0));
    } else {
        let before = lines.drop_last();
        let line = lines.last();
        lemma_shaped(before);
        let s = SceneView::initial().run(before);
        let t = s.step(line);
        let ev = kinds(before);
        let ev2 = kinds(lines);
        assert(ev2.drop_last() =~= ev);
        let m = tick_marks(ev);
        let m2 = tick_marks(ev2);
        let n = figures(ev);
        if word_tick().is_prefix_of(line) {
            assert(ev2.last() is Tick);
            assert(m2 == m.push(n));
            assert(span(n, n) =~= Seq::<nat>::empty());
            if !s.seen_tick {
                assert(m2[0] == n);
                assert(t.accumulator =~= span(0, m2[0]) + span(m2.last(), n));
            } else {
                assert(m2[0] == m[0]);
                assert(t.accumulator =~= span(0, m2[0]) + span(m2.last(), n));
                assert forall|j: int| 0 <= j < m2.len() - 1 implies #[trigger] t.frames[j] == span(
                    0,
                    m2[0],
                ) + span(m2[j], m2[j + 1]) by {
                    if j < m.len() - 1 {
                        assert(t.frames[j] == s.frames[j]);
                        assert(m2[j] == m[j] && m2[j + 1] == m[j + 1]);
                    } else {
                        assert(t.frames[j] == s.accumulator);
                        assert(m2[j] == m.last() && m2[j + 1] == n);
                    }
                }
            }
        } else if !is_setting(line) && decode(line, s.props) is Some {
            assert(ev2.last() is Figure);
            assert(m2 == m);
            if !s.seen_tick {
                lemma_span_push(0, n);
            } else {
                lemma_span_push(m.last(), n);
                assert(t.accumulator =~= span(0, m[0]) + span(m.last(), n + 1));
            }
        } else {
            assert(ev2.last() is Other);
            assert(m2 == m);
            assert(t.objects == s.objects);
            assert(t.frames == s.frames);
            assert(t.accumulator == s.accumulator);
            assert(t.baseline == s.baseline);
            assert(t.seen_tick == s.seen_tick);
        }
    }
}

/// The shape of the timeline of a whole input.
///
/// An input without a tick gives one frame, which holds every figure. An
/// input with `T` ticks gives `T` frames. The figures declared before the
/// first tick are the baseline; frame `j` holds the baseline in its order,
/// then the figures declared after tick `j` and before the next tick (or the
/// end of the input), in the order of their declaration.
pub proof fn lemma_timeline(lines: Seq<Seq<char>>)
    ensures
        ({
            let scene = SceneView::initial().run(lines).finish();
            let marks = tick_marks(kinds(lines));
            &&& scene.objects.len() == figures(kinds(lines))
            &&& marks.len() == 0 ==> scene.frames == seq![span(0, figures(kinds(lines)))]
            &&& marks.len() > 0 ==> {
                &&& scene.frames.len() == marks.len()
                &&& scene.baseline == span(0, marks[0])
                &&& forall|j: int|
                    0 <= j < marks.len() ==> #[trigger] scene.frames[j] == scene.baseline
                        + segment(kinds(lines), j)
            }
        }),
{
    lemma_shaped(lines);
    let s = SceneView::initial().run(lines);
    let scene = s.finish();
    let marks = tick_marks(kinds(lines));
    if marks.len() == 0 {
        assert(scene.frames =~= seq![span(0, figures(kinds(lines)))]);
    } else {
        assert forall|j: int| 0 <= j < marks.len() implies #[trigger] scene.frames[j]
            == scene.baseline + segment(kinds(lines), j) by {
            if j < marks.len() - 1 {
                assert(scene.frames[j] == s.frames[j]);
            } else {
                assert(scene.frames[j] == s.accumulator);
            }
        }
    }
}

/// Every entry whose label a disable directive has named is switched off.
pub open spec fn disabled_are_off(r: TagRegistryView) -> bool {
    forall|i: int|
        0 <= i < r.entries.len() && r.disabled.contains((#[trigger] r.entries[i]).0)
            ==> !r.entries[i].1
}

proof fn lemma_register_keeps(r: TagRegistryView, tag: Seq<char>)
    requires
        disabled_are_off(r),
    ensures
        disabled_are_off(r.register(tag)),
        r.register(tag).disabled == r.disabled,
        has_label(r.register(tag).entries, tag),
        forall|t: Seq<char>| has_label(r.entries, t) ==> has_label(r.register(tag).entries, t),
{
    let q = r.register(tag);
    if !has_label(r.entries, tag) {
        assert(q.entries[r.entries.len() as int].0 == tag);
        assert forall|i: int|
            0 <= i < q.entries.len() && q.disabled.contains((#[trigger] q.entries[i]).0)
                implies !q.entries[i].1 by {
            if i < r.entries.len() {
                assert(q.entries[i] == r.entries[i]);
            }
        }
        assert forall|t: Seq<char>| has_label(r.entries, t) implies has_label(q.entries, t) by {
            let i = choose|i: int| 0 <= i < r.entries.len() && (#[trigger] r.entries[i]).0 == t;
            assert(q.entries[i].0 == t);
        }
    }
}

proof fn lemma_register_all_keeps(r: TagRegistryView, tags: Seq<Seq<char>>)
    requires
        disabled_are_off(r),
    ensures
        disabled_are_off(r.register_all(tags)),
        r.register_all(tags).disabled == r.disabled,
        forall|k: int| 0 <= k < tags.len() ==> has_label(r.register_all(tags).entries, tags[k]),
        forall|t: Seq<char>| has_label(r.entries, t) ==> has_label(r.register_all(tags).entries, t),
    decreases tags.len(),
{
    if tags.len() > 0 {
        let q = r.register_all(tags.drop_last());
        lemma_register_all_keeps(r, tags.drop_last());
        lemma_register_keeps(q, tags.last());
        assert forall|k: int| 0 <= k < tags.len() implies has_label(
            r.register_all(tags).entries,
            tags[k],
        ) by {
            if k < tags.len() - 1 {
                assert(tags.drop_last()[k] == tags[k]);
            }
        }
    }
}

proof fn lemma_disable_keeps(r: TagRegistryView, tag: Seq<char>)
    requires
        disabled_are_off(r),
    ensures
        disabled_are_off(r.disable(tag)),
        r.disable(tag).disabled == r.disabled.insert(tag),
        forall|t: Seq<char>| has_label(r.entries, t) ==> has_label(r.disable(tag).entries, t),
{
    let q = r.disable(tag);
    assert forall|i: int|
        0 <= i < q.entries.len() && q.disabled.contains((#[trigger] q.entries[i]).0)
            implies !q.entries[i].1 by {
        assert(q.entries[i].0 == r.entries[i].0);
    }
    assert forall|t: Seq<char>| has_label(r.entries, t) implies has_label(q.entries, t) by {
        let i = choose|i: int| 0 <= i < r.entries.len() && (#[trigger] r.entries[i]).0 == t;
        assert(q.entries[i].0 == t);
    }
}

/// What one line does to the tag registry.
proof fn lemma_step_tags(s: SceneView, line: Seq<char>)
    requires
        disabled_are_off(s.tags),
    ensures
        disabled_are_off(s.step(line).tags),
        forall|t: Seq<char>| s.tags.disabled.contains(t) ==> s.step(line).tags.disabled.contains(t),
        forall|t: Seq<char>| has_label(s.tags.entries, t) ==> has_label(s.step(line).tags.entries, t),
        names_tag(line) is Some ==> s.step(line).tags.disabled.contains(names_tag(line).unwrap()),
        forall|k: int|
            line_kind(s, line) is Figure && 0 <= k < decode(
                line,
                s.props,
            ).unwrap().common().tags.len() ==> has_label(
                s.step(line).tags.entries,
                #[trigger] decode(line, s.props).unwrap().common().tags[k],
            ),
{
    if word_disable().is_prefix_of(line) {
        assert(line[0] == word_disable()[0]);
        assert(word_tick()[0] == 't' && word_speed()[0] == 's' && word_width()[0] == 'w'
            && word_font()[0] == 'f' && word_size()[0] == 's' && word_svgwidth()[0] == 's');
    }
    if word_tick().is_prefix_of(line) {
    } else if word_speed().is_prefix_of(line) {
    } else if word_width().is_prefix_of(line) {
    } else if word_font().is_prefix_of(line) {
    } else if word_size().is_prefix_of(line) {
    } else if word_svgwidth().is_prefix_of(line) {
    } else if word_disable().is_prefix_of(line) {
        lemma_disable_keeps(s.tags, trimmed(line.skip(8)));
    } else {
        match decode(line, s.props) {
            Some(figure) => {
                lemma_register_all_keeps(s.tags, figure.common().tags);
            },
            None => {},
        }
    }
}

/// The tag that a disable directive names, if the line is one.
pub open spec fn names_tag(line: Seq<char>) -> Option<Seq<char>> {
    if word_disable().is_prefix_of(line) {
        Some(trimmed(line.skip(8)))
    } else {
        None
    }
}

proof fn lemma_run_tags(lines: Seq<Seq<char>>)
    ensures
        disabled_are_off(SceneView::initial().run(lines).tags),
    decreases lines.len(),
{
    if lines.len() > 0 {
        lemma_run_tags(lines.drop_last());
        lemma_step_tags(SceneView::initial().run(lines.drop_last()), lines.last());
    }
}

proof fn lemma_lookup_off(entries: Seq<(Seq<char>, bool)>, tag: Seq<char>)
    requires
        has_label(entries, tag),
        forall|i: int| 0 <= i < entries.len() && (#[trigger] entries[i]).0 == tag ==> !entries[i].1,
    ensures
        lookup(entries, tag) == Some(false),
    decreases entries.len(),
{
    let i = choose|i: int| 0 <= i < entries.len() && (#[trigger] entries[i]).0 == tag;
    if entries[0].0 == tag {
    } else {
        let rest = entries.drop_first();
        assert(rest[i - 1].0 == tag);
        assert forall|k: int| 0 <= k < rest.len() && (#[trigger] rest[k]).0 == tag implies !rest[k].1 by {
            assert(rest[k] == entries[k + 1]);
        }
        lemma_lookup_off(rest, tag);
    }
}

/// A tag that was disabled before its first use is off from the moment it is
/// registered.
///
/// Line `d` is a disable directive that names the tag, and a later line `f`
/// is read as a figure that carries the tag. Then after line `f`, and after
/// every line that follows it, the registry holds the tag and holds it
/// switched off: the entry was made with the flag off, or was switched off by
/// the directive.
pub proof fn lemma_disable_before_use(
    lines: Seq<Seq<char>>,
    d: int,
    f: int,
    tag: Seq<char>,
    n: int,
)
    requires
        0 <= d < f < n <= lines.len(),
        names_tag(lines[d]) == Some(tag),
        line_kind(SceneView::initial().run(lines.take(f)), lines[f]) is Figure,
        decode(
            lines[f],
            SceneView::initial().run(lines.take(f)).props,
        ).unwrap().common().tags.contains(tag),
    ensures
        lookup(SceneView::initial().run(lines.take(n)).tags.entries, tag) == Some(false),
{
    let r = SceneView::initial().run(lines.take(n)).tags;
    lemma_run_tags(lines.take(n));
    lemma_names_kept(lines, d, tag, n);
    lemma_label_kept(lines, f, tag, n);
    assert forall|i: int| 0 <= i < r.entries.len() && (#[trigger] r.entries[i]).0 == tag
        implies !r.entries[i].1 by {}
    lemma_lookup_off(r.entries, tag);
}

proof fn lemma_names_kept(lines: Seq<Seq<char>>, d: int, tag: Seq<char>, n: int)
    requires
        0 <= d < n <= lines.len(),
        names_tag(lines[d]) == Some(tag),
    ensures
        SceneView::initial().run(lines.take(n)).tags.disabled.contains(tag),
    decreases n,
{
    let prefix = lines.take(n);
    assert(prefix.drop_last() =~= lines.take(n - 1));
    assert(prefix.last() == lines[n - 1]);
    let s = SceneView::initial().run(lines.take(n - 1));
    lemma_run_tags(lines.take(n - 1));
    lemma_step_tags(s, lines[n - 1]);
    if n - 1 > d {
        lemma_names_kept(lines, d, tag, n - 1);
    }
}

proof fn lemma_label_kept(lines: Seq<Seq<char>>, f: int, tag: Seq<char>, n: int)
    requires
        0 <= f < n <= lines.len(),
        line_kind(SceneView::initial().run(lines.take(f)), lines[f]) is Figure,
        decode(
            lines[f],
            SceneView::initial().run(lines.take(f)).props,
        ).unwrap().common().tags.contains(tag),
    ensures
        has_label(SceneView::initial().run(lines.take(n)).tags.entries, tag),
    decreases n,
{
    let prefix = lines.take(n);
    assert(prefix.drop_last() =~= lines.take(n - 1));
    assert(prefix.last() == lines[n - 1]);
    let s = SceneView::initial().run(lines.take(n - 1));
    lemma_run_tags(lines.take(n - 1));
    lemma_step_tags(s, lines[n - 1]);
    if n - 1 > f {
        lemma_label_kept(lines, f, tag, n - 1);
    } else {
        let tags = decode(lines[f], s.props).unwrap().common().tags;
        let k = choose|k: int| 0 <= k < tags.len() && tags[k] == tag;
        assert(has_label(s.step(lines[f]).tags.entries, tags[k]));
    }
}

proof fn lemma_step_appends(s: SceneView, line: Seq<char>)
    ensures
        s.objects.is_prefix_of(s.step(line).objects),
        s.frames.is_prefix_of(s.step(line).frames),
{
    let t = s.step(line);
    assert(s.objects =~= t.objects.subrange(0, s.objects.len() as int));
    assert(s.frames =~= t.frames.subrange(0, s.frames.len() as int));
}

/// Figures and frames are only ever added.
///
/// What a scene holds after the first `n` lines of an input it still holds,
/// at the same indices, after all of them: no figure is removed or replaced,
/// no index is used twice, and no complete frame changes.
pub proof fn lemma_append_only(lines: Seq<Seq<char>>, n: int)
    requires
        0 <= n <= lines.len(),
    ensures
        SceneView::initial().run(lines.take(n)).objects.is_prefix_of(
            SceneView::initial().run(lines).objects,
        ),
        SceneView::initial().run(lines.take(n)).frames.is_prefix_of(
            SceneView::initial().run(lines).frames,
        ),
    decreases lines.len() - n,
{
    let whole = SceneView::initial().run(lines);
    if n == lines.len() {
        assert(lines.take(n) =~= lines);
        assert(whole.objects =~= whole.objects.subrange(0, whole.objects.len() as int));
        assert(whole.frames =~= whole.frames.subrange(0, whole.frames.len() as int));
    } else {
        let before = lines.drop_last();
        assert(before.take(n) =~= lines.take(n));
        lemma_append_only(before, n);
        let early = SceneView::initial().run(lines.take(n));
        let late = SceneView::initial().run(before);
        lemma_step_appends(late, lines.last());
        assert(early.objects =~= whole.objects.subrange(0, early.objects.len() as int)) by {
            assert(early.objects =~= late.objects.subrange(0, early.objects.len() as int));
            assert(late.objects =~= whole.objects.subrange(0, late.objects.len() as int));
        }
        assert(early.frames =~= whole.frames.subrange(0, early.frames.len() as int)) by {
            assert(early.frames =~= late.frames.subrange(0, early.frames.len() as int));
            assert(late.frames =~= whole.frames.subrange(0, late.frames.len() as int));
        }
    }
}

} // verus!
