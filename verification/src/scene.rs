//! The scene: the store of figures, the timeline of frames and the scene
//! parameters, built line by line from the protocol.

use vstd::prelude::*;
use crate::app_data::{DrawProperties, DrawPropertiesView};
use crate::figure::{decode, from_string, props_after, visible, Figure, FigureView};
use crate::number::{is_number, Scalar};
use crate::parse::{labels, Point};
use crate::tags::{
    lemma_disable_wf, lemma_register_all_wf, TagRegistry, TagRegistryView,
};
use crate::text::{
    chars_of, pieces, slice_of, split, starts_with, string_of, trim, trimmed,
};

verus! {

/// The scene read so far.
///
/// Figures are stored in the order in which they were read and are known by
/// their index ever after. A frame is a list of such indices in drawing
/// order. Figures read before the first tick form the baseline, which every
/// later frame begins with.
pub struct Scene {
    objects: Vec<Figure>,
    frames: Vec<Vec<usize>>,
    last_frame: Vec<usize>,
    init_frames: Vec<usize>,
    seen_tick: bool,
    tags: TagRegistry,
    draw_properties: DrawProperties,
    speed: Option<Scalar>,
    size: Point,
    svg_width_scale: Scalar,
    unparsed: usize,
    finished: bool,
}

/// The model of [`Scene`].
pub struct SceneView {
    /// The figures, in the order in which they were read.
    pub objects: Seq<FigureView>,
    /// The frames that are complete.
    pub frames: Seq<Seq<nat>>,
    /// The frame that is being filled.
    pub accumulator: Seq<nat>,
    /// The figures read before the first tick.
    pub baseline: Seq<nat>,
    pub seen_tick: bool,
    pub tags: TagRegistryView,
    pub props: DrawPropertiesView,
    /// Frames per second as a speed directive gave them; none gave any while
    /// this is `None`.
    pub speed: Option<Seq<char>>,
    /// Width and height of the scene.
    pub size: (Seq<char>, Seq<char>),
    /// Factor applied to stroke widths in vector documents.
    pub svg_width_scale: Seq<char>,
    /// Lines that were neither a directive nor a figure.
    pub unparsed: nat,
    /// Whether the input has ended.
    pub finished: bool,
}

/// Indices as natural numbers.
pub open spec fn indices(v: Seq<usize>) -> Seq<nat> {
    v.map_values(|i: usize| i as nat)
}

/// Frames as sequences of natural numbers.
pub open spec fn frames_view(v: Seq<Vec<usize>>) -> Seq<Seq<nat>> {
    v.map_values(|f: Vec<usize>| indices(f@))
}

/// The models of the figures.
pub open spec fn figures_view(v: Seq<Figure>) -> Seq<FigureView> {
    v.map_values(|f: Figure| f@)
}

impl View for Scene {
    type V = SceneView;

    closed spec fn view(&self) -> SceneView {
        SceneView {
            objects: figures_view(self.objects@),
            frames: frames_view(self.frames@),
            accumulator: indices(self.last_frame@),
            baseline: indices(self.init_frames@),
            seen_tick: self.seen_tick,
            tags: self.tags@,
            props: self.draw_properties@,
            speed: match self.speed {
                Some(s) => Some(s@),
                None => None,
            },
            size: self.size@,
            svg_width_scale: self.svg_width_scale@,
            unparsed: self.unparsed as nat,
            finished: self.finished,
        }
    }
}

/// The directive `tick`.
pub open spec fn word_tick() -> Seq<char> {
    seq!['t', 'i', 'c', 'k']
}

/// The directive `speed`.
pub open spec fn word_speed() -> Seq<char> {
    seq!['s', 'p', 'e', 'e', 'd']
}

/// The directive `width`.
pub open spec fn word_width() -> Seq<char> {
    seq!['w', 'i', 'd', 't', 'h']
}

/// The directive `font`.
pub open spec fn word_font() -> Seq<char> {
    seq!['f', 'o', 'n', 't']
}

/// The directive `size`.
pub open spec fn word_size() -> Seq<char> {
    seq!['s', 'i', 'z', 'e']
}

/// The directive `svgwidth`.
pub open spec fn word_svgwidth() -> Seq<char> {
    seq!['s', 'v', 'g', 'w', 'i', 'd', 't', 'h']
}

/// The directive `disable`, with the blank that follows it.
pub open spec fn word_disable() -> Seq<char> {
    seq!['d', 'i', 's', 'a', 'b', 'l', 'e', ' ']
}

/// The number that a directive gives: the line from position `skip` on,
/// without the whitespace around it. Nothing where the line is shorter or
/// what stands there is no number.
pub open spec fn scalar_argument(line: Seq<char>, skip: int) -> Option<Seq<char>> {
    if line.len() >= skip && is_number(trimmed(line.skip(skip))) {
        Some(trimmed(line.skip(skip)))
    } else {
        None
    }
}

/// The extent that a size directive gives: the line without the whitespace
/// around it is the keyword, two characters, two numbers with a comma between
/// them, and a last character.
pub open spec fn size_argument(line: Seq<char>) -> Option<(Seq<char>, Seq<char>)> {
    let t = trimmed(line);
    if t.len() >= 7 {
        let f = pieces(t.subrange(6, t.len() - 1), ',');
        if f.len() >= 2 && is_number(f[0]) && is_number(f[1]) {
            Some((f[0], f[1]))
        } else {
            None
        }
    } else {
        None
    }
}

impl SceneView {
    /// The scene before any line: no figure, no frame, stroke width and font
    /// size 1, a size of 10 by 10, strokes in vector documents at 0.3 of
    /// their width.
    pub open spec fn initial() -> SceneView {
        SceneView {
            objects: Seq::empty(),
            frames: Seq::empty(),
            accumulator: Seq::empty(),
            baseline: Seq::empty(),
            seen_tick: false,
            tags: TagRegistryView::empty(),
            props: DrawPropertiesView { width: seq!['1'], font: seq!['1'], was_messages: 0 },
            speed: None,
            size: (seq!['1', '0'], seq!['1', '0']),
            svg_width_scale: seq!['0', '.', '3'],
            unparsed: 0,
            finished: false,
        }
    }

    /// Every index of every frame names a stored figure, the message counter
    /// does not exceed the number of figures, and no tag is registered twice.
    pub open spec fn wf(self) -> bool {
        &&& self.props.was_messages <= self.objects.len()
        &&& forall|j: int, k: int|
            0 <= j < self.frames.len() && 0 <= k < self.frames[j].len() ==> (
            #[trigger] self.frames[j][k]) < self.objects.len()
        &&& forall|k: int|
            0 <= k < self.accumulator.len() ==> (#[trigger] self.accumulator[k])
                < self.objects.len()
        &&& forall|k: int|
            0 <= k < self.baseline.len() ==> (#[trigger] self.baseline[k]) < self.objects.len()
        &&& self.tags.wf()
    }

    /// One more figure and one more unparsed line can be counted.
    pub open spec fn has_room(self) -> bool {
        self.objects.len() < usize::MAX && self.unparsed < usize::MAX
    }

    /// A tick. The first one makes the figures read so far the baseline. Each
    /// later one completes the frame that was being filled. Either way the
    /// next frame starts as a copy of the baseline, and messages stack from
    /// the top again.
    pub open spec fn tick(self) -> SceneView {
        let props = DrawPropertiesView { was_messages: 0, ..self.props };
        if !self.seen_tick {
            SceneView { baseline: self.accumulator, seen_tick: true, props, ..self }
        } else {
            SceneView {
                frames: self.frames.push(self.accumulator),
                accumulator: self.baseline,
                props,
                ..self
            }
        }
    }

    /// A figure was read: it is stored, its index joins the frame that is
    /// being filled, and its tags are registered.
    pub open spec fn add(self, figure: FigureView, props: DrawPropertiesView) -> SceneView {
        SceneView {
            objects: self.objects.push(figure),
            accumulator: self.accumulator.push(self.objects.len()),
            tags: self.tags.register_all(figure.common().tags),
            props,
            ..self
        }
    }

    /// A line that says nothing is counted.
    pub open spec fn skip(self) -> SceneView {
        SceneView { unparsed: self.unparsed + 1, ..self }
    }

    /// The scene after one more line.
    ///
    /// The beginning of the line decides, in this order: `tick`; `speed`,
    /// `width`, `font`, `size` and `svgwidth`, which set a scene parameter;
    /// `disable`, which names a tag; otherwise the line is read as a figure.
    /// A directive whose argument is missing or malformed, and a line that is
    /// no figure, is counted and changes nothing else.
    pub open spec fn step(self, line: Seq<char>) -> SceneView {
        if word_tick().is_prefix_of(line) {
            self.tick()
        } else if word_speed().is_prefix_of(line) {
            match scalar_argument(line, 6) {
                Some(x) => SceneView { speed: Some(x), ..self },
                None => self.skip(),
            }
        } else if word_width().is_prefix_of(line) {
            match scalar_argument(line, 6) {
                Some(x) => SceneView {
                    props: DrawPropertiesView { width: x, ..self.props },
                    ..self
                },
                None => self.skip(),
            }
        } else if word_font().is_prefix_of(line) {
            match scalar_argument(line, 5) {
                Some(x) => SceneView {
                    props: DrawPropertiesView { font: x, ..self.props },
                    ..self
                },
                None => self.skip(),
            }
        } else if word_size().is_prefix_of(line) {
            match size_argument(line) {
                Some(size) => SceneView { size, ..self },
                None => self.skip(),
            }
        } else if word_svgwidth().is_prefix_of(line) {
            match scalar_argument(line, 9) {
                Some(x) => SceneView { svg_width_scale: x, ..self },
                None => self.skip(),
            }
        } else if word_disable().is_prefix_of(line) {
            SceneView { tags: self.tags.disable(trimmed(line.skip(8))), ..self }
        } else {
            match decode(line, self.props) {
                Some(figure) => self.add(figure, props_after(line, self.props)),
                None => self.skip(),
            }
        }
    }

    /// The scene after some more lines.
    pub open spec fn run(self, lines: Seq<Seq<char>>) -> SceneView
        decreases lines.len(),
    {
        if lines.len() == 0 {
            self
        } else {
            self.run(lines.drop_last()).step(lines.last())
        }
    }

    /// The end of the input: the frame that was being filled becomes the last
    /// frame, whatever it holds.
    pub open spec fn finish(self) -> SceneView {
        SceneView { frames: self.frames.push(self.accumulator), finished: true, ..self }
    }

    /// The indices of a frame whose figures are drawn under the enabled tags.
    pub open spec fn visible_of(self, frame: Seq<nat>, enabled: Set<Seq<char>>) -> Seq<nat>
        decreases frame.len(),
    {
        if frame.len() == 0 {
            Seq::empty()
        } else {
            let rest = self.visible_of(frame.drop_last(), enabled);
            let i = frame.last();
            if i < self.objects.len() && visible(self.objects[i as int].common().tags, enabled) {
                rest.push(i)
            } else {
                rest
            }
        }
    }
}

/// The first index of `frame` whose figure has the identity `id`, if any.
pub open spec fn partner(objects: Seq<FigureView>, id: i32, frame: Seq<nat>) -> Option<nat>
    decreases frame.len(),
{
    if frame.len() == 0 {
        None
    } else if frame[0] < objects.len() && objects[frame[0] as int].common().id == Some(id) {
        Some(frame[0])
    } else {
        partner(objects, id, frame.drop_first())
    }
}

/// The pairs of keyframes between two frames: each figure of the first frame
/// that has an identity, in drawing order, with the first figure of the
/// second frame that has the same identity. A figure without identity, or
/// without such a partner, is in no pair.
pub open spec fn keyframes(objects: Seq<FigureView>, first: Seq<nat>, second: Seq<nat>) -> Seq<
    (nat, nat),
>
    decreases first.len(),
{
    if first.len() == 0 {
        Seq::empty()
    } else {
        let rest = keyframes(objects, first.drop_last(), second);
        let i = first.last();
        if i < objects.len() {
            match objects[i as int].common().id {
                Some(id) => match partner(objects, id, second) {
                    Some(j) => rest.push((i, j)),
                    None => rest,
                },
                None => rest,
            }
        } else {
            rest
        }
    }
}

/// Pairs of indices as natural numbers.
pub open spec fn index_pairs(v: Seq<(usize, usize)>) -> Seq<(nat, nat)> {
    v.map_values(|p: (usize, usize)| (p.0 as nat, p.1 as nat))
}

impl SceneView {
    /// Every index that is shown names a stored figure.
    pub proof fn lemma_visible_valid(self, frame: Seq<nat>, enabled: Set<Seq<char>>)
        ensures
            forall|j: int|
                0 <= j < self.visible_of(frame, enabled).len() ==> (#[trigger] self.visible_of(
                    frame,
                    enabled,
                )[j]) < self.objects.len(),
        decreases frame.len(),
    {
        if frame.len() > 0 {
            self.lemma_visible_valid(frame.drop_last(), enabled);
            let rest = self.visible_of(frame.drop_last(), enabled);
            let all = self.visible_of(frame, enabled);
            assert forall|j: int| 0 <= j < all.len() implies (#[trigger] all[j])
                < self.objects.len() by {
                if j < rest.len() {
                    assert(all[j] == rest[j]);
                }
            }
        }
    }
}

/// A line keeps the scene well formed.
pub proof fn lemma_step_wf(s: SceneView, line: Seq<char>)
    requires
        s.wf(),
    ensures
        s.step(line).wf(),
{
    let t = s.step(line);
    if word_tick().is_prefix_of(line) {
    } else if word_speed().is_prefix_of(line) {
    } else if word_width().is_prefix_of(line) {
    } else if word_font().is_prefix_of(line) {
    } else if word_size().is_prefix_of(line) {
    } else if word_svgwidth().is_prefix_of(line) {
    } else if word_disable().is_prefix_of(line) {
        lemma_disable_wf(s.tags, trimmed(line.skip(8)));
    } else {
        match decode(line, s.props) {
            Some(figure) => {
                lemma_register_all_wf(s.tags, figure.common().tags);
                assert forall|k: int| 0 <= k < t.accumulator.len() implies (
                #[trigger] t.accumulator[k]) < t.objects.len() by {
                    if k < s.accumulator.len() {
                        assert(t.accumulator[k] == s.accumulator[k]);
                    }
                }
            },
            None => {},
        }
    }
}

/// A line adds at most one figure or one unparsed line.
pub proof fn lemma_step_growth(s: SceneView, line: Seq<char>)
    ensures
        s.step(line).objects.len() + s.step(line).unparsed <= s.objects.len() + s.unparsed + 1,
        s.step(line).objects.len() >= s.objects.len(),
        s.step(line).unparsed >= s.unparsed,
{
}

fn copy_of(v: &Vec<usize>) -> (c: Vec<usize>)
    ensures
        c@ == v@,
{
    let mut c: Vec<usize> = Vec::new();
    let mut i: usize = 0;
    while i < v.len()
        invariant
            i <= v.len(),
            c@ == v@.take(i as int),
        decreases v.len() - i,
    {
        c.push(v[i]);
        assert(v@.take(i + 1) =~= v@.take(i as int).push(v@[i as int]));
        i += 1;
    }
    assert(v@.take(v.len() as int) =~= v@);
    c
}

fn scalar_arg(line: &[char], skip: usize) -> (r: Option<Scalar>)
    ensures
        match r {
            Some(x) => scalar_argument(line@, skip as int) == Some(x@),
            None => scalar_argument(line@, skip as int) is None,
        },
{
    if line.len() < skip {
        return None;
    }
    let rest = slice_of(line, skip, line.len());
    let arg = trim(rest.as_slice());
    Scalar::from_chars(arg.as_slice())
}

fn size_arg(line: &[char]) -> (r: Option<Point>)
    ensures
        match r {
            Some(p) => size_argument(line@) == Some(p@),
            None => size_argument(line@) is None,
        },
{
    let t = trim(line);
    if t.len() < 7 {
        return None;
    }
    let inner = slice_of(t.as_slice(), 6, t.len() - 1);
    let f = split(inner.as_slice(), ',');
    if f.len() < 2 {
        return None;
    }
    match (Scalar::from_chars(f[0].as_slice()), Scalar::from_chars(f[1].as_slice())) {
        (Some(x), Some(y)) => Some(Point { x, y }),
        _ => None,
    }
}

impl Scene {
    /// The scene before any line.
    pub fn new() -> (scene: Scene)
        ensures
            scene@ == SceneView::initial(),
            scene@.wf(),
    {
        let ten = ['1', '0'];
        let scale = ['0', '.', '3'];
        proof {
            assert(ten@ =~= seq!['1', '0']);
            assert(scale@ =~= seq!['0', '.', '3']);
            lemma_literal_ten(ten@);
            lemma_literal_scale(scale@);
        }
        let (w, h, k) = match (
            Scalar::from_chars(&ten),
            Scalar::from_chars(&ten),
            Scalar::from_chars(&scale),
        ) {
            (Some(w), Some(h), Some(k)) => (w, h, k),
            _ => (Scalar::zero(), Scalar::zero(), Scalar::zero()),
        };
        let scene = Scene {
            objects: Vec::new(),
            frames: Vec::new(),
            last_frame: Vec::new(),
            init_frames: Vec::new(),
            seen_tick: false,
            tags: TagRegistry::new(),
            draw_properties: DrawProperties::new(),
            speed: None,
            size: Point { x: w, y: h },
            svg_width_scale: k,
            unparsed: 0,
            finished: false,
        };
        assert(scene@.objects =~= Seq::empty());
        assert(scene@.frames =~= Seq::empty());
        assert(scene@.accumulator =~= Seq::empty());
        assert(scene@.baseline =~= Seq::empty());
        scene
    }

    fn tick(&mut self)
        ensures
            final(self)@ == old(self)@.tick(),
    {
        if !self.seen_tick {
            self.init_frames = copy_of(&self.last_frame);
            self.seen_tick = true;
        } else {
            let done = copy_of(&self.last_frame);
            let ghost before = frames_view(self.frames@);
            self.frames.push(done);
            assert(frames_view(self.frames@) =~= before.push(indices(done@)));
            self.last_frame = copy_of(&self.init_frames);
        }
        self.draw_properties.was_messages = 0;
    }

    fn skip(&mut self)
        requires
            old(self).unparsed < usize::MAX,
        ensures
            final(self)@ == old(self)@.skip(),
    {
        self.unparsed += 1;
    }

    fn add(&mut self, figure: Figure)
        ensures
            final(self)@ == old(self)@.add(figure@, old(self)@.props),
    {
        self.tags.register_all(figure.tags());
        let ghost before = indices(self.last_frame@);
        self.last_frame.push(self.objects.len());
        assert(indices(self.last_frame@) =~= before.push(self.objects.len() as nat));
        let ghost stored = figures_view(self.objects@);
        self.objects.push(figure);
        assert(figures_view(self.objects@) =~= stored.push(figure@));
    }

    /// Reads one more line of the protocol.
    pub fn feed_line(&mut self, line: &str)
        requires
            old(self)@.wf(),
            old(self)@.has_room(),
        ensures
            final(self)@ == old(self)@.step(line@),
            final(self)@.wf(),
    {
        let chars = chars_of(line);
        let c = chars.as_slice();
        let tick = ['t', 'i', 'c', 'k'];
        let speed = ['s', 'p', 'e', 'e', 'd'];
        let width = ['w', 'i', 'd', 't', 'h'];
        let font = ['f', 'o', 'n', 't'];
        let size = ['s', 'i', 'z', 'e'];
        let svgwidth = ['s', 'v', 'g', 'w', 'i', 'd', 't', 'h'];
        let disable = ['d', 'i', 's', 'a', 'b', 'l', 'e', ' '];
        proof {
            assert(tick@ =~= word_tick());
            assert(speed@ =~= word_speed());
            assert(width@ =~= word_width());
            assert(font@ =~= word_font());
            assert(size@ =~= word_size());
            assert(svgwidth@ =~= word_svgwidth());
            assert(disable@ =~= word_disable());
            lemma_step_wf(old(self)@, line@);
        }
        if starts_with(c, &tick) {
            self.tick();
        } else if starts_with(c, &speed) {
            match scalar_arg(c, 6) {
                Some(x) => {
                    self.speed = Some(x);
                },
                None => {
                    self.skip();
                },
            }
        } else if starts_with(c, &width) {
            match scalar_arg(c, 6) {
                Some(x) => {
                    self.draw_properties.width = x;
                },
                None => {
                    self.skip();
                },
            }
        } else if starts_with(c, &font) {
            match scalar_arg(c, 5) {
                Some(x) => {
                    self.draw_properties.font = x;
                },
                None => {
                    self.skip();
                },
            }
        } else if starts_with(c, &size) {
            match size_arg(c) {
                Some(p) => {
                    self.size = p;
                },
                None => {
                    self.skip();
                },
            }
        } else if starts_with(c, &svgwidth) {
            match scalar_arg(c, 9) {
                Some(x) => {
                    self.svg_width_scale = x;
                },
                None => {
                    self.skip();
                },
            }
        } else if starts_with(c, &disable) {
            let tag = string_of(trim(slice_of(c, 8, c.len()).as_slice()).as_slice());
            self.tags.disable(&tag);
        } else {
            match from_string(line, &mut self.draw_properties) {
                Some(figure) => {
                    self.add(figure);
                },
                None => {
                    self.skip();
                },
            }
        }
    }

    /// Marks the end of the input.
    pub fn finish(&mut self)
        requires
            old(self)@.wf(),
        ensures
            final(self)@ == old(self)@.finish(),
            final(self)@.wf(),
    {
        let done = copy_of(&self.last_frame);
        let ghost before = frames_view(self.frames@);
        self.frames.push(done);
        assert(frames_view(self.frames@) =~= before.push(indices(done@)));
        self.finished = true;
    }

    /// Reads a whole input: every line in turn, then the end.
    pub fn from_lines(lines: &[String]) -> (scene: Scene)
        ensures
            scene@ == SceneView::initial().run(labels(lines@)).finish(),
            scene@.wf(),
    {
        let mut scene = Scene::new();
        let mut i: usize = 0;
        assert(labels(lines@).take(0) =~= Seq::<Seq<char>>::empty());
        while i < lines.len()
            invariant
                i <= lines.len(),
                scene@ == SceneView::initial().run(labels(lines@).take(i as int)),
                scene@.wf(),
                scene@.objects.len() + scene@.unparsed <= i,
            decreases lines.len() - i,
        {
            proof {
                lemma_step_growth(scene@, lines@[i as int]@);
                assert(labels(lines@).take(i + 1).drop_last() =~= labels(lines@).take(i as int));
                assert(labels(lines@).take(i + 1).last() == lines@[i as int]@);
            }
            scene.feed_line(lines[i].as_str());
            i += 1;
        }
        assert(labels(lines@).take(lines.len() as int) =~= labels(lines@));
        scene.finish();
        scene
    }

    /// Whether one more line can be read.
    pub fn has_room(&self) -> (b: bool)
        ensures
            b == self@.has_room(),
    {
        self.objects.len() < usize::MAX && self.unparsed < usize::MAX
    }

    /// The number of complete frames.
    pub fn frame_count(&self) -> (n: usize)
        ensures
            n == self@.frames.len(),
    {
        self.frames.len()
    }

    /// The complete frame at `index`, if there is one.
    pub fn frame(&self, index: usize) -> (f: Option<&Vec<usize>>)
        ensures
            match f {
                Some(f) => index < self@.frames.len() && indices(f@) == self@.frames[index as int],
                None => index >= self@.frames.len(),
            },
    {
        if index < self.frames.len() {
            Some(&self.frames[index])
        } else {
            None
        }
    }

    /// The figures read before the first tick, once there was one.
    pub fn baseline(&self) -> (b: &Vec<usize>)
        ensures
            indices(b@) == self@.baseline,
    {
        &self.init_frames
    }

    /// The number of figures.
    pub fn object_count(&self) -> (n: usize)
        ensures
            n == self@.objects.len(),
    {
        self.objects.len()
    }

    /// The figure at `index`, if there is one.
    pub fn object(&self, index: usize) -> (f: Option<&Figure>)
        ensures
            match f {
                Some(f) => index < self@.objects.len() && f@ == self@.objects[index as int],
                None => index >= self@.objects.len(),
            },
    {
        if index < self.objects.len() {
            Some(&self.objects[index])
        } else {
            None
        }
    }

    /// The figures of the frame at `frame` that are drawn under the enabled
    /// tags, in drawing order. A frame that does not exist shows nothing.
    pub fn visible_objects(&self, frame: usize, enabled: &[String]) -> (out: Vec<usize>)
        ensures
            frame < self@.frames.len() ==> indices(out@) == self@.visible_of(
                self@.frames[frame as int],
                labels(enabled@).to_set(),
            ),
            frame >= self@.frames.len() ==> out@.len() == 0,
    {
        let mut out: Vec<usize> = Vec::new();
        if frame >= self.frames.len() {
            return out;
        }
        let list = &self.frames[frame];
        let ghost all = indices(list@);
        let ghost tags = labels(enabled@).to_set();
        let mut k: usize = 0;
        assert(indices(out@) =~= Seq::<nat>::empty());
        assert(all.take(0) =~= Seq::<nat>::empty());
        while k < list.len()
            invariant
                k <= list.len(),
                all == indices(list@),
                tags == labels(enabled@).to_set(),
                indices(out@) == self@.visible_of(all.take(k as int), tags),
            decreases list.len() - k,
        {
            let i = list[k];
            proof {
                assert(all.take(k + 1).drop_last() =~= all.take(k as int));
                assert(all.take(k + 1).last() == i as nat);
            }
            if i < self.objects.len() && self.objects[i].need_to_draw(enabled) {
                let ghost before = indices(out@);
                out.push(i);
                assert(indices(out@) =~= before.push(i as nat));
            }
            k += 1;
        }
        assert(all.take(list.len() as int) =~= all);
        out
    }

    /// The figures of the frame at `frame` that are drawn under the enabled
    /// tags, in drawing order. A frame that does not exist shows nothing.
    pub fn visible_figures(&self, frame: usize, enabled: &[String]) -> (out: Vec<&Figure>)
        ensures
            frame < self@.frames.len() ==> out@.map_values(|f: &Figure| f@) == self@.visible_of(
                self@.frames[frame as int],
                labels(enabled@).to_set(),
            ).map_values(|i: nat| self@.objects[i as int]),
            frame >= self@.frames.len() ==> out@.len() == 0,
    {
        let chosen = self.visible_objects(frame, enabled);
        let mut out: Vec<&Figure> = Vec::new();
        if frame >= self.frames.len() {
            return out;
        }
        let ghost all = self@.visible_of(self@.frames[frame as int], labels(enabled@).to_set());
        proof {
            self@.lemma_visible_valid(self@.frames[frame as int], labels(enabled@).to_set());
        }
        let mut k: usize = 0;
        while k < chosen.len()
            invariant
                k <= chosen.len(),
                indices(chosen@) == all,
                forall|j: int| 0 <= j < all.len() ==> (#[trigger] all[j]) < self@.objects.len(),
                out@.map_values(|f: &Figure| f@) == all.take(k as int).map_values(
                    |i: nat| self@.objects[i as int],
                ),
            decreases chosen.len() - k,
        {
            assert(all[k as int] == chosen@[k as int] as nat);
            let figure = &self.objects[chosen[k]];
            let ghost before = out@.map_values(|f: &Figure| f@);
            out.push(figure);
            assert(out@.map_values(|f: &Figure| f@) =~= before.push(figure@));
            assert(all.take(k + 1).map_values(|i: nat| self@.objects[i as int]) =~= all.take(
                k as int,
            ).map_values(|i: nat| self@.objects[i as int]).push(figure@));
            k += 1;
        }
        assert(all.take(chosen.len() as int) =~= all);
        out
    }

    fn partner_in(&self, id: i32, frame: &Vec<usize>) -> (r: Option<usize>)
        ensures
            match r {
                Some(j) => partner(self@.objects, id, indices(frame@)) == Some(j as nat),
                None => partner(self@.objects, id, indices(frame@)) is None,
            },
    {
        let ghost all = indices(frame@);
        let mut k: usize = 0;
        assert(all.skip(0) =~= all);
        while k < frame.len()
            invariant
                k <= frame.len(),
                all == indices(frame@),
                partner(self@.objects, id, all) == partner(self@.objects, id, all.skip(k as int)),
            decreases frame.len() - k,
        {
            let j = frame[k];
            proof {
                assert(all.skip(k as int)[0] == j as nat);
                assert(all.skip(k as int).drop_first() =~= all.skip(k + 1));
            }
            if j < self.objects.len() {
                let same = match self.objects[j].common().id {
                    Some(other) => other == id,
                    None => false,
                };
                if same {
                    return Some(j);
                }
            }
            k += 1;
        }
        None
    }

    /// The pairs of keyframes between two frames, as indices of figures:
    /// figures of the two frames that have the same identity. A frame that
    /// does not exist has no figure.
    pub fn keyframe_pairs(&self, first: usize, second: usize) -> (out: Vec<(usize, usize)>)
        ensures
            first < self@.frames.len() && second < self@.frames.len() ==> index_pairs(out@)
                == keyframes(
                self@.objects,
                self@.frames[first as int],
                self@.frames[second as int],
            ),
            first >= self@.frames.len() || second >= self@.frames.len() ==> out@.len() == 0,
    {
        let mut out: Vec<(usize, usize)> = Vec::new();
        if first >= self.frames.len() || second >= self.frames.len() {
            return out;
        }
        let a = &self.frames[first];
        let b = &self.frames[second];
        let ghost from = indices(a@);
        let ghost to = indices(b@);
        let mut k: usize = 0;
        assert(index_pairs(out@) =~= Seq::<(nat, nat)>::empty());
        assert(from.take(0) =~= Seq::<nat>::empty());
        while k < a.len()
            invariant
                k <= a.len(),
                from == indices(a@),
                to == indices(b@),
                index_pairs(out@) == keyframes(self@.objects, from.take(k as int), to),
            decreases a.len() - k,
        {
            let i = a[k];
            proof {
                assert(from.take(k + 1).drop_last() =~= from.take(k as int));
                assert(from.take(k + 1).last() == i as nat);
            }
            if i < self.objects.len() {
                match self.objects[i].common().id {
                    Some(id) => {
                        match self.partner_in(id, b) {
                            Some(j) => {
                                let ghost before = index_pairs(out@);
                                out.push((i, j));
                                assert(index_pairs(out@) =~= before.push((i as nat, j as nat)));
                            },
                            None => {},
                        }
                    },
                    None => {},
                }
            }
            k += 1;
        }
        assert(from.take(a.len() as int) =~= from);
        out
    }

    /// The tag registry.
    pub fn tags(&self) -> (t: &TagRegistry)
        ensures
            t@ == self@.tags,
    {
        &self.tags
    }

    /// Switches a tag on or off, as a user does.
    pub fn set_tag_enabled(&mut self, index: usize, enabled: bool)
        requires
            index < old(self)@.tags.entries.len(),
        ensures
            final(self)@ == (SceneView {
                tags: TagRegistryView {
                    entries: old(self)@.tags.entries.update(
                        index as int,
                        (old(self)@.tags.entries[index as int].0, enabled),
                    ),
                    ..old(self)@.tags
                },
                ..old(self)@
            }),
            old(self)@.wf() ==> final(self)@.wf(),
    {
        self.tags.set_enabled(index, enabled);
    }

    /// The drawing defaults in force.
    pub fn draw_properties(&self) -> (p: &DrawProperties)
        ensures
            p@ == self@.props,
    {
        &self.draw_properties
    }

    /// Width and height of the scene.
    pub fn size(&self) -> (p: &Point)
        ensures
            p@ == self@.size,
    {
        &self.size
    }

    /// Frames per second, where a speed directive gave them.
    pub fn speed(&self) -> (s: Option<&Scalar>)
        ensures
            match s {
                Some(x) => self@.speed == Some(x@),
                None => self@.speed is None,
            },
    {
        self.speed.as_ref()
    }

    /// Factor applied to stroke widths in vector documents.
    pub fn svg_width_scale(&self) -> (s: &Scalar)
        ensures
            s@ == self@.svg_width_scale,
    {
        &self.svg_width_scale
    }

    /// How many lines were neither a directive nor a figure.
    pub fn unparsed(&self) -> (n: usize)
        ensures
            n == self@.unparsed,
    {
        self.unparsed
    }

    /// Whether the input has ended.
    pub fn finished(&self) -> (b: bool)
        ensures
            b == self@.finished,
    {
        self.finished
    }
}

proof fn lemma_literal_ten(s: Seq<char>)
    requires
        s == seq!['1', '0'],
    ensures
        is_number(s),
{
    assert(crate::number::digit_run(s, 2) == 2);
    assert(crate::number::digit_run(s, 1) == 2);
    assert(crate::number::digit_run(s, 0) == 2);
    assert(crate::number::is_decimal(s));
}

proof fn lemma_literal_scale(s: Seq<char>)
    requires
        s == seq!['0', '.', '3'],
    ensures
        is_number(s),
{
    assert(crate::number::digit_run(s, 3) == 3);
    assert(crate::number::digit_run(s, 2) == 3);
    assert(crate::number::digit_run(s, 1) == 1);
    assert(crate::number::digit_run(s, 0) == 1);
    assert(crate::number::is_decimal(s));
}

} // verus!
