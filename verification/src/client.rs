//! The writing side of the protocol: builders for the lines that describe a
//! scene. Each builder collects what is to be said of one figure and writes
//! it as one line.

use vstd::prelude::*;
use crate::alignment::Alignment;
use crate::color::Color;
use crate::encode::{
    alignment_text, color_text, dims_text, emit, figure_line, flag, groups_view, pair_text, spread,
    string_text, values_flag, values_one, write_alignment, write_color, write_dims, write_fields,
    write_int, write_line, write_pair, write_string, Group,
};
use crate::number::{signed_decimal, Scalar};
use crate::parse::Point;
use crate::text::{chars_of, push_all, string_of, texts};

verus! {

/// What can be written as protocol text.
pub trait Rviewerable: Sized {
    /// The text that [`draw`](Rviewerable::draw) writes.
    spec fn line(&self) -> Seq<char>;

    /// Whether nothing has been said yet.
    spec fn is_blank(&self) -> bool;

    /// A builder of which nothing has been said yet.
    fn new() -> (r: Self)
        ensures
            r.is_blank(),
    ;

    /// The protocol text of what was said.
    fn draw(self) -> (s: String)
        ensures
            s@ == self.line(),
    ;
}

/// The values of an optional number.
pub open spec fn opt_scalar(v: Option<Scalar>) -> Seq<Seq<char>> {
    match v {
        Some(x) => seq![x@],
        None => Seq::empty(),
    }
}

/// The values of an optional pair of numbers.
pub open spec fn opt_point(v: Option<Point>) -> Seq<Seq<char>> {
    match v {
        Some(p) => seq![pair_text(p@)],
        None => Seq::empty(),
    }
}

/// The values of an optional pair of counts.
pub open spec fn opt_dims(v: Option<(usize, usize)>) -> Seq<Seq<char>> {
    match v {
        Some(d) => seq![dims_text(d)],
        None => Seq::empty(),
    }
}

/// The values of an optional colour.
pub open spec fn opt_color(v: Option<Color>) -> Seq<Seq<char>> {
    match v {
        Some(c) => seq![color_text(c)],
        None => Seq::empty(),
    }
}

/// The values of an optional alignment.
pub open spec fn opt_alignment(v: Option<(Alignment, Alignment)>) -> Seq<Seq<char>> {
    match v {
        Some(a) => seq![alignment_text(a)],
        None => Seq::empty(),
    }
}

/// The values of an optional integer.
pub open spec fn opt_int(v: Option<i32>) -> Seq<Seq<char>> {
    match v {
        Some(n) => seq![signed_decimal(n as int)],
        None => Seq::empty(),
    }
}

/// The values of an optional string.
pub open spec fn opt_string(v: Option<String>) -> Seq<Seq<char>> {
    match v {
        Some(s) => seq![string_text(s@)],
        None => Seq::empty(),
    }
}

/// The values of a list of strings.
pub open spec fn strings(v: Seq<String>) -> Seq<Seq<char>> {
    v.map_values(|s: String| string_text(s@))
}

/// The values of a list of points.
pub open spec fn points(v: Seq<Point>) -> Seq<Seq<char>> {
    v.map_values(|p: Point| pair_text(p@))
}

fn scalar_values(v: &Option<Scalar>) -> (out: Vec<Vec<char>>)
    ensures
        texts(out@) == opt_scalar(*v),
{
    match v {
        Some(x) => values_one(Some(chars_of(x.as_str()))),
        None => values_one(None),
    }
}

fn point_text(p: &Point) -> (out: Vec<char>)
    ensures
        out@ == pair_text(p@),
{
    let x = chars_of(p.x.as_str());
    let y = chars_of(p.y.as_str());
    write_pair(x.as_slice(), y.as_slice())
}

fn point_values(v: &Option<Point>) -> (out: Vec<Vec<char>>)
    ensures
        texts(out@) == opt_point(*v),
{
    match v {
        Some(p) => values_one(Some(point_text(p))),
        None => values_one(None),
    }
}

fn dims_values(v: &Option<(usize, usize)>) -> (out: Vec<Vec<char>>)
    ensures
        texts(out@) == opt_dims(*v),
{
    match v {
        Some(d) => values_one(Some(write_dims(*d))),
        None => values_one(None),
    }
}

fn color_values(v: &Option<Color>) -> (out: Vec<Vec<char>>)
    ensures
        texts(out@) == opt_color(*v),
{
    match v {
        Some(c) => values_one(Some(write_color(*c))),
        None => values_one(None),
    }
}

fn alignment_values(v: &Option<(Alignment, Alignment)>) -> (out: Vec<Vec<char>>)
    ensures
        texts(out@) == opt_alignment(*v),
{
    match v {
        Some(a) => values_one(Some(write_alignment(*a))),
        None => values_one(None),
    }
}

fn int_values(v: &Option<i32>) -> (out: Vec<Vec<char>>)
    ensures
        texts(out@) == opt_int(*v),
{
    match v {
        Some(n) => values_one(Some(write_int(*n))),
        None => values_one(None),
    }
}

fn string_values(v: &Option<String>) -> (out: Vec<Vec<char>>)
    ensures
        texts(out@) == opt_string(*v),
{
    match v {
        Some(s) => values_one(Some(write_string(chars_of(s.as_str()).as_slice()))),
        None => values_one(None),
    }
}

fn tag_values(v: &Vec<String>) -> (out: Vec<Vec<char>>)
    ensures
        texts(out@) == strings(v@),
{
    let mut out: Vec<Vec<char>> = Vec::new();
    let mut i: usize = 0;
    assert(texts(out@) =~= strings(v@).take(0));
    while i < v.len()
        invariant
            i <= v.len(),
            texts(out@) == strings(v@).take(i as int),
        decreases v.len() - i,
    {
        let t = write_string(chars_of(v[i].as_str()).as_slice());
        let ghost before = texts(out@);
        out.push(t);
        assert(texts(out@) =~= before.push(t@));
        assert(strings(v@).take(i + 1) =~= strings(v@).take(i as int).push(t@));
        i += 1;
    }
    assert(strings(v@).take(v.len() as int) =~= strings(v@));
    out
}

fn points_values(v: &Vec<Point>) -> (out: Vec<Vec<char>>)
    ensures
        texts(out@) == points(v@),
{
    let mut out: Vec<Vec<char>> = Vec::new();
    let mut i: usize = 0;
    assert(texts(out@) =~= points(v@).take(0));
    while i < v.len()
        invariant
            i <= v.len(),
            texts(out@) == points(v@).take(i as int),
        decreases v.len() - i,
    {
        let t = point_text(&v[i]);
        let ghost before = texts(out@);
        out.push(t);
        assert(texts(out@) =~= before.push(t@));
        assert(points(v@).take(i + 1) =~= points(v@).take(i as int).push(t@));
        i += 1;
    }
    assert(points(v@).take(v.len() as int) =~= points(v@));
    out
}

fn key(name: &[char]) -> (k: Vec<char>)
    ensures
        k@ == name@,
{
    let mut k: Vec<char> = Vec::new();
    push_all(&mut k, name);
    assert(k@ =~= name@);
    k
}

/// A rectangle to be drawn.
pub struct Rect {
    pub center: Option<Point>,
    pub size: Option<Point>,
    pub width: Option<Scalar>,
    pub fill: bool,
    pub color: Option<Color>,
    pub alignment: Option<(Alignment, Alignment)>,
    pub id: Option<i32>,
    pub func: Option<String>,
    pub tag: Vec<String>,
    pub keep: bool,
}

impl Rect {
    /// The fields that are written, group by group.
    pub open spec fn groups(self) -> Seq<Group> {
        seq![
            (seq!['c'], opt_point(self.center)),
            (seq!['s'], opt_point(self.size)),
            (seq!['w'], opt_scalar(self.width)),
            (seq!['f'], flag(self.fill)),
            (seq!['c', 'o', 'l'], opt_color(self.color)),
            (seq!['a'], opt_alignment(self.alignment)),
            (seq!['i', 'd'], opt_int(self.id)),
            (seq!['f', 'u'], opt_string(self.func)),
            (seq!['t'], strings(self.tag@)),
            (seq!['k'], flag(self.keep)),
        ]
    }

    fn fields(&self) -> (out: Vec<(Vec<char>, Vec<Vec<char>>)>)
        ensures
            groups_view(out@) == self.groups(),
    {
        let mut out: Vec<(Vec<char>, Vec<Vec<char>>)> = Vec::new();
        let name = key(&['c']);
        assert(name@ =~= seq!['c']);
        out.push((name, point_values(&self.center)));
        let name = key(&['s']);
        assert(name@ =~= seq!['s']);
        out.push((name, point_values(&self.size)));
        let name = key(&['w']);
        assert(name@ =~= seq!['w']);
        out.push((name, scalar_values(&self.width)));
        let name = key(&['f']);
        assert(name@ =~= seq!['f']);
        out.push((name, values_flag(self.fill)));
        let name = key(&['c', 'o', 'l']);
        assert(name@ =~= seq!['c', 'o', 'l']);
        out.push((name, color_values(&self.color)));
        let name = key(&['a']);
        assert(name@ =~= seq!['a']);
        out.push((name, alignment_values(&self.alignment)));
        let name = key(&['i', 'd']);
        assert(name@ =~= seq!['i', 'd']);
        out.push((name, int_values(&self.id)));
        let name = key(&['f', 'u']);
        assert(name@ =~= seq!['f', 'u']);
        out.push((name, string_values(&self.func)));
        let name = key(&['t']);
        assert(name@ =~= seq!['t']);
        out.push((name, tag_values(&self.tag)));
        let name = key(&['k']);
        assert(name@ =~= seq!['k']);
        out.push((name, values_flag(self.keep)));
        assert(groups_view(out@) =~= self.groups());
        out
    }

    /// The centre, or the anchor that the alignment refers to.
    pub fn center(self, arg: Point) -> (r: Rect)
        ensures
            r == (Rect { center: Some(arg), ..self }),
    {
        let mut r = self;
        r.center = Some(arg);
        r
    }

    /// Width and height.
    pub fn size(self, arg: Point) -> (r: Rect)
        ensures
            r == (Rect { size: Some(arg), ..self }),
    {
        let mut r = self;
        r.size = Some(arg);
        r
    }

    /// The stroke width.
    pub fn width(self, arg: Scalar) -> (r: Rect)
        ensures
            r == (Rect { width: Some(arg), ..self }),
    {
        let mut r = self;
        r.width = Some(arg);
        r
    }

    /// Whether the interior is painted.
    pub fn fill(self, arg: bool) -> (r: Rect)
        ensures
            r == (Rect { fill: arg, ..self }),
    {
        let mut r = self;
        r.fill = arg;
        r
    }

    /// The colour.
    pub fn color(self, arg: Color) -> (r: Rect)
        ensures
            r == (Rect { color: Some(arg), ..self }),
    {
        let mut r = self;
        r.color = Some(arg);
        r
    }

    /// Where the anchor lies on each axis.
    pub fn alignment(self, arg: (Alignment, Alignment)) -> (r: Rect)
        ensures
            r == (Rect { alignment: Some(arg), ..self }),
    {
        let mut r = self;
        r.alignment = Some(arg);
        r
    }

    /// The identity of the object across keyframes.
    pub fn id(self, arg: i32) -> (r: Rect)
        ensures
            r == (Rect { id: Some(arg), ..self }),
    {
        let mut r = self;
        r.id = Some(arg);
        r
    }

    /// The name of the easing curve.
    pub fn func(self, arg: String) -> (r: Rect)
        ensures
            r == (Rect { func: Some(arg), ..self }),
    {
        let mut r = self;
        r.func = Some(arg);
        r
    }

    /// Adds a tag.
    pub fn tag(self, arg: String) -> (r: Rect)
        ensures
            r.tag@ == self.tag@.push(arg),
            r == (Rect { tag: r.tag, ..self }),
    {
        let mut r = self;
        r.tag.push(arg);
        r
    }

    /// The keep flag.
    pub fn keep(self, arg: bool) -> (r: Rect)
        ensures
            r == (Rect { keep: arg, ..self }),
    {
        let mut r = self;
        r.keep = arg;
        r
    }
}

impl Rviewerable for Rect {
    open spec fn line(&self) -> Seq<char> {
        figure_line(seq!['r', 'e', 'c', 't'], self.groups())
    }

    open spec fn is_blank(&self) -> bool {
        &&& self.center is None
        &&& self.size is None
        &&& self.width is None
        &&& self.fill == false
        &&& self.color is None
        &&& self.alignment is None
        &&& self.id is None
        &&& self.func is None
        &&& self.tag@.len() == 0
        &&& self.keep == false
    }

    fn new() -> (r: Rect) {
        Rect {
            center: None,
            size: None,
            width: None,
            fill: false,
            color: None,
            alignment: None,
            id: None,
            func: None,
            tag: Vec::new(),
            keep: false,
        }
    }

    fn draw(self) -> (s: String) {
        let groups = self.fields();
        let line = write_line(&['r', 'e', 'c', 't'], &groups);
        assert(['r', 'e', 'c', 't']@ =~= seq!['r', 'e', 'c', 't']);
        string_of(line.as_slice())
    }
}

/// A circle or an arc to be drawn.
pub struct Circle {
    pub center: Option<Point>,
    pub radius: Option<Scalar>,
    pub arc: Option<Point>,
    pub width: Option<Scalar>,
    pub fill: bool,
    pub color: Option<Color>,
    pub id: Option<i32>,
    pub func: Option<String>,
    pub tag: Vec<String>,
    pub keep: bool,
}

impl Circle {
    /// The fields that are written, group by group.
    pub open spec fn groups(self) -> Seq<Group> {
        seq![
            (seq!['c'], opt_point(self.center)),
            (seq!['r'], opt_scalar(self.radius)),
            (seq!['a', 'r', 'c'], opt_point(self.arc)),
            (seq!['w'], opt_scalar(self.width)),
            (seq!['f'], flag(self.fill)),
            (seq!['c', 'o', 'l'], opt_color(self.color)),
            (seq!['i', 'd'], opt_int(self.id)),
            (seq!['f', 'u'], opt_string(self.func)),
            (seq!['t'], strings(self.tag@)),
            (seq!['k'], flag(self.keep)),
        ]
    }

    fn fields(&self) -> (out: Vec<(Vec<char>, Vec<Vec<char>>)>)
        ensures
            groups_view(out@) == self.groups(),
    {
        let mut out: Vec<(Vec<char>, Vec<Vec<char>>)> = Vec::new();
        let name = key(&['c']);
        assert(name@ =~= seq!['c']);
        out.push((name, point_values(&self.center)));
        let name = key(&['r']);
        assert(name@ =~= seq!['r']);
        out.push((name, scalar_values(&self.radius)));
        let name = key(&['a', 'r', 'c']);
        assert(name@ =~= seq!['a', 'r', 'c']);
        out.push((name, point_values(&self.arc)));
        let name = key(&['w']);
        assert(name@ =~= seq!['w']);
        out.push((name, scalar_values(&self.width)));
        let name = key(&['f']);
        assert(name@ =~= seq!['f']);
        out.push((name, values_flag(self.fill)));
        let name = key(&['c', 'o', 'l']);
        assert(name@ =~= seq!['c', 'o', 'l']);
        out.push((name, color_values(&self.color)));
        let name = key(&['i', 'd']);
        assert(name@ =~= seq!['i', 'd']);
        out.push((name, int_values(&self.id)));
        let name = key(&['f', 'u']);
        assert(name@ =~= seq!['f', 'u']);
        out.push((name, string_values(&self.func)));
        let name = key(&['t']);
        assert(name@ =~= seq!['t']);
        out.push((name, tag_values(&self.tag)));
        let name = key(&['k']);
        assert(name@ =~= seq!['k']);
        out.push((name, values_flag(self.keep)));
        assert(groups_view(out@) =~= self.groups());
        out
    }

    /// The centre.
    pub fn center(self, arg: Point) -> (r: Circle)
        ensures
            r == (Circle { center: Some(arg), ..self }),
    {
        let mut r = self;
        r.center = Some(arg);
        r
    }

    /// The radius.
    pub fn radius(self, arg: Scalar) -> (r: Circle)
        ensures
            r == (Circle { radius: Some(arg), ..self }),
    {
        let mut r = self;
        r.radius = Some(arg);
        r
    }

    /// The angles at which the arc begins and ends.
    pub fn arc(self, arg: Point) -> (r: Circle)
        ensures
            r == (Circle { arc: Some(arg), ..self }),
    {
        let mut r = self;
        r.arc = Some(arg);
        r
    }

    /// The stroke width.
    pub fn width(self, arg: Scalar) -> (r: Circle)
        ensures
            r == (Circle { width: Some(arg), ..self }),
    {
        let mut r = self;
        r.width = Some(arg);
        r
    }

    /// Whether the interior is painted.
    pub fn fill(self, arg: bool) -> (r: Circle)
        ensures
            r == (Circle { fill: arg, ..self }),
    {
        let mut r = self;
        r.fill = arg;
        r
    }

    /// The colour.
    pub fn color(self, arg: Color) -> (r: Circle)
        ensures
            r == (Circle { color: Some(arg), ..self }),
    {
        let mut r = self;
        r.color = Some(arg);
        r
    }

    /// The identity of the object across keyframes.
    pub fn id(self, arg: i32) -> (r: Circle)
        ensures
            r == (Circle { id: Some(arg), ..self }),
    {
        let mut r = self;
        r.id = Some(arg);
        r
    }

    /// The name of the easing curve.
    pub fn func(self, arg: String) -> (r: Circle)
        ensures
            r == (Circle { func: Some(arg), ..self }),
    {
        let mut r = self;
        r.func = Some(arg);
        r
    }

    /// Adds a tag.
    pub fn tag(self, arg: String) -> (r: Circle)
        ensures
            r.tag@ == self.tag@.push(arg),
            r == (Circle { tag: r.tag, ..self }),
    {
        let mut r = self;
        r.tag.push(arg);
        r
    }

    /// The keep flag.
    pub fn keep(self, arg: bool) -> (r: Circle)
        ensures
            r == (Circle { keep: arg, ..self }),
    {
        let mut r = self;
        r.keep = arg;
        r
    }
}

impl Rviewerable for Circle {
    open spec fn line(&self) -> Seq<char> {
        figure_line(seq!['c', 'i', 'r', 'c', 'l', 'e'], self.groups())
    }

    open spec fn is_blank(&self) -> bool {
        &&& self.center is None
        &&& self.radius is None
        &&& self.arc is None
        &&& self.width is None
        &&& self.fill == false
        &&& self.color is None
        &&& self.id is None
        &&& self.func is None
        &&& self.tag@.len() == 0
        &&& self.keep == false
    }

    fn new() -> (r: Circle) {
        Circle {
            center: None,
            radius: None,
            arc: None,
            width: None,
            fill: false,
            color: None,
            id: None,
            func: None,
            tag: Vec::new(),
            keep: false,
        }
    }

    fn draw(self) -> (s: String) {
        let groups = self.fields();
        let line = write_line(&['c', 'i', 'r', 'c', 'l', 'e'], &groups);
        assert(['c', 'i', 'r', 'c', 'l', 'e']@ =~= seq!['c', 'i', 'r', 'c', 'l', 'e']);
        string_of(line.as_slice())
    }
}

/// A line segment to be drawn.
pub struct Line {
    pub start: Option<Point>,
    pub finish: Option<Point>,
    pub width: Option<Scalar>,
    pub color: Option<Color>,
    pub id: Option<i32>,
    pub func: Option<String>,
    pub tag: Vec<String>,
    pub keep: bool,
}

impl Line {
    /// The fields that are written, group by group.
    pub open spec fn groups(self) -> Seq<Group> {
        seq![
            (seq!['s'], opt_point(self.start)),
            (seq!['f'], opt_point(self.finish)),
            (seq!['w'], opt_scalar(self.width)),
            (seq!['c', 'o', 'l'], opt_color(self.color)),
            (seq!['i', 'd'], opt_int(self.id)),
            (seq!['f', 'u'], opt_string(self.func)),
            (seq!['t'], strings(self.tag@)),
            (seq!['k'], flag(self.keep)),
        ]
    }

    fn fields(&self) -> (out: Vec<(Vec<char>, Vec<Vec<char>>)>)
        ensures
            groups_view(out@) == self.groups(),
    {
        let mut out: Vec<(Vec<char>, Vec<Vec<char>>)> = Vec::new();
        let name = key(&['s']);
        assert(name@ =~= seq!['s']);
        out.push((name, point_values(&self.start)));
        let name = key(&['f']);
        assert(name@ =~= seq!['f']);
        out.push((name, point_values(&self.finish)));
        let name = key(&['w']);
        assert(name@ =~= seq!['w']);
        out.push((name, scalar_values(&self.width)));
        let name = key(&['c', 'o', 'l']);
        assert(name@ =~= seq!['c', 'o', 'l']);
        out.push((name, color_values(&self.color)));
        let name = key(&['i', 'd']);
        assert(name@ =~= seq!['i', 'd']);
        out.push((name, int_values(&self.id)));
        let name = key(&['f', 'u']);
        assert(name@ =~= seq!['f', 'u']);
        out.push((name, string_values(&self.func)));
        let name = key(&['t']);
        assert(name@ =~= seq!['t']);
        out.push((name, tag_values(&self.tag)));
        let name = key(&['k']);
        assert(name@ =~= seq!['k']);
        out.push((name, values_flag(self.keep)));
        assert(groups_view(out@) =~= self.groups());
        out
    }

    /// The first end.
    pub fn start(self, arg: Point) -> (r: Line)
        ensures
            r == (Line { start: Some(arg), ..self }),
    {
        let mut r = self;
        r.start = Some(arg);
        r
    }

    /// The second end.
    pub fn finish(self, arg: Point) -> (r: Line)
        ensures
            r == (Line { finish: Some(arg), ..self }),
    {
        let mut r = self;
        r.finish = Some(arg);
        r
    }

    /// The stroke width.
    pub fn width(self, arg: Scalar) -> (r: Line)
        ensures
            r == (Line { width: Some(arg), ..self }),
    {
        let mut r = self;
        r.width = Some(arg);
        r
    }

    /// The colour.
    pub fn color(self, arg: Color) -> (r: Line)
        ensures
            r == (Line { color: Some(arg), ..self }),
    {
        let mut r = self;
        r.color = Some(arg);
        r
    }

    /// The identity of the object across keyframes.
    pub fn id(self, arg: i32) -> (r: Line)
        ensures
            r == (Line { id: Some(arg), ..self }),
    {
        let mut r = self;
        r.id = Some(arg);
        r
    }

    /// The name of the easing curve.
    pub fn func(self, arg: String) -> (r: Line)
        ensures
            r == (Line { func: Some(arg), ..self }),
    {
        let mut r = self;
        r.func = Some(arg);
        r
    }

    /// Adds a tag.
    pub fn tag(self, arg: String) -> (r: Line)
        ensures
            r.tag@ == self.tag@.push(arg),
            r == (Line { tag: r.tag, ..self }),
    {
        let mut r = self;
        r.tag.push(arg);
        r
    }

    /// The keep flag.
    pub fn keep(self, arg: bool) -> (r: Line)
        ensures
            r == (Line { keep: arg, ..self }),
    {
        let mut r = self;
        r.keep = arg;
        r
    }
}

impl Rviewerable for Line {
    open spec fn line(&self) -> Seq<char> {
        figure_line(seq!['l', 'i', 'n', 'e'], self.groups())
    }

    open spec fn is_blank(&self) -> bool {
        &&& self.start is None
        &&& self.finish is None
        &&& self.width is None
        &&& self.color is None
        &&& self.id is None
        &&& self.func is None
        &&& self.tag@.len() == 0
        &&& self.keep == false
    }

    fn new() -> (r: Line) {
        Line {
            start: None,
            finish: None,
            width: None,
            color: None,
            id: None,
            func: None,
            tag: Vec::new(),
            keep: false,
        }
    }

    fn draw(self) -> (s: String) {
        let groups = self.fields();
        let line = write_line(&['l', 'i', 'n', 'e'], &groups);
        assert(['l', 'i', 'n', 'e']@ =~= seq!['l', 'i', 'n', 'e']);
        string_of(line.as_slice())
    }
}

/// A grid to be drawn.
pub struct Grid {
    pub center: Option<Point>,
    pub size: Option<Point>,
    pub dims: Option<(usize, usize)>,
    pub width: Option<Scalar>,
    pub color: Option<Color>,
    pub alignment: Option<(Alignment, Alignment)>,
    pub id: Option<i32>,
    pub func: Option<String>,
    pub tag: Vec<String>,
    pub keep: bool,
}

impl Grid {
    /// The fields that are written, group by group.
    pub open spec fn groups(self) -> Seq<Group> {
        seq![
            (seq!['c'], opt_point(self.center)),
            (seq!['s'], opt_point(self.size)),
            (seq!['d'], opt_dims(self.dims)),
            (seq!['w'], opt_scalar(self.width)),
            (seq!['c', 'o', 'l'], opt_color(self.color)),
            (seq!['a'], opt_alignment(self.alignment)),
            (seq!['i', 'd'], opt_int(self.id)),
            (seq!['f', 'u'], opt_string(self.func)),
            (seq!['t'], strings(self.tag@)),
            (seq!['k'], flag(self.keep)),
        ]
    }

    fn fields(&self) -> (out: Vec<(Vec<char>, Vec<Vec<char>>)>)
        ensures
            groups_view(out@) == self.groups(),
    {
        let mut out: Vec<(Vec<char>, Vec<Vec<char>>)> = Vec::new();
        let name = key(&['c']);
        assert(name@ =~= seq!['c']);
        out.push((name, point_values(&self.center)));
        let name = key(&['s']);
        assert(name@ =~= seq!['s']);
        out.push((name, point_values(&self.size)));
        let name = key(&['d']);
        assert(name@ =~= seq!['d']);
        out.push((name, dims_values(&self.dims)));
        let name = key(&['w']);
        assert(name@ =~= seq!['w']);
        out.push((name, scalar_values(&self.width)));
        let name = key(&['c', 'o', 'l']);
        assert(name@ =~= seq!['c', 'o', 'l']);
        out.push((name, color_values(&self.color)));
        let name = key(&['a']);
        assert(name@ =~= seq!['a']);
        out.push((name, alignment_values(&self.alignment)));
        let name = key(&['i', 'd']);
        assert(name@ =~= seq!['i', 'd']);
        out.push((name, int_values(&self.id)));
        let name = key(&['f', 'u']);
        assert(name@ =~= seq!['f', 'u']);
        out.push((name, string_values(&self.func)));
        let name = key(&['t']);
        assert(name@ =~= seq!['t']);
        out.push((name, tag_values(&self.tag)));
        let name = key(&['k']);
        assert(name@ =~= seq!['k']);
        out.push((name, values_flag(self.keep)));
        assert(groups_view(out@) =~= self.groups());
        out
    }

    /// The centre, or the anchor that the alignment refers to.
    pub fn center(self, arg: Point) -> (r: Grid)
        ensures
            r == (Grid { center: Some(arg), ..self }),
    {
        let mut r = self;
        r.center = Some(arg);
        r
    }

    /// Width and height.
    pub fn size(self, arg: Point) -> (r: Grid)
        ensures
            r == (Grid { size: Some(arg), ..self }),
    {
        let mut r = self;
        r.size = Some(arg);
        r
    }

    /// Columns and rows.
    pub fn dims(self, arg: (usize, usize)) -> (r: Grid)
        ensures
            r == (Grid { dims: Some(arg), ..self }),
    {
        let mut r = self;
        r.dims = Some(arg);
        r
    }

    /// The stroke width.
    pub fn width(self, arg: Scalar) -> (r: Grid)
        ensures
            r == (Grid { width: Some(arg), ..self }),
    {
        let mut r = self;
        r.width = Some(arg);
        r
    }

    /// The colour.
    pub fn color(self, arg: Color) -> (r: Grid)
        ensures
            r == (Grid { color: Some(arg), ..self }),
    {
        let mut r = self;
        r.color = Some(arg);
        r
    }

    /// Where the anchor lies on each axis.
    pub fn alignment(self, arg: (Alignment, Alignment)) -> (r: Grid)
        ensures
            r == (Grid { alignment: Some(arg), ..self }),
    {
        let mut r = self;
        r.alignment = Some(arg);
        r
    }

    /// The identity of the object across keyframes.
    pub fn id(self, arg: i32) -> (r: Grid)
        ensures
            r == (Grid { id: Some(arg), ..self }),
    {
        let mut r = self;
        r.id = Some(arg);
        r
    }

    /// The name of the easing curve.
    pub fn func(self, arg: String) -> (r: Grid)
        ensures
            r == (Grid { func: Some(arg), ..self }),
    {
        let mut r = self;
        r.func = Some(arg);
        r
    }

    /// Adds a tag.
    pub fn tag(self, arg: String) -> (r: Grid)
        ensures
            r.tag@ == self.tag@.push(arg),
            r == (Grid { tag: r.tag, ..self }),
    {
        let mut r = self;
        r.tag.push(arg);
        r
    }

    /// The keep flag.
    pub fn keep(self, arg: bool) -> (r: Grid)
        ensures
            r == (Grid { keep: arg, ..self }),
    {
        let mut r = self;
        r.keep = arg;
        r
    }
}

impl Rviewerable for Grid {
    open spec fn line(&self) -> Seq<char> {
        figure_line(seq!['g', 'r', 'i', 'd'], self.groups())
    }

    open spec fn is_blank(&self) -> bool {
        &&& self.center is None
        &&& self.size is None
        &&& self.dims is None
        &&& self.width is None
        &&& self.color is None
        &&& self.alignment is None
        &&& self.id is None
        &&& self.func is None
        &&& self.tag@.len() == 0
        &&& self.keep == false
    }

    fn new() -> (r: Grid) {
        Grid {
            center: None,
            size: None,
            dims: None,
            width: None,
            color: None,
            alignment: None,
            id: None,
            func: None,
            tag: Vec::new(),
            keep: false,
        }
    }

    fn draw(self) -> (s: String) {
        let groups = self.fields();
        let line = write_line(&['g', 'r', 'i', 'd'], &groups);
        assert(['g', 'r', 'i', 'd']@ =~= seq!['g', 'r', 'i', 'd']);
        string_of(line.as_slice())
    }
}

/// A polygon or polyline to be drawn.
pub struct Poly {
    pub point: Vec<Point>,
    pub width: Option<Scalar>,
    pub fill: bool,
    pub color: Option<Color>,
    pub alignment: Option<(Alignment, Alignment)>,
    pub id: Option<i32>,
    pub func: Option<String>,
    pub tag: Vec<String>,
    pub keep: bool,
}

impl Poly {
    /// The fields that are written, group by group.
    pub open spec fn groups(self) -> Seq<Group> {
        seq![
            (seq!['p'], points(self.point@)),
            (seq!['w'], opt_scalar(self.width)),
            (seq!['f'], flag(self.fill)),
            (seq!['c', 'o', 'l'], opt_color(self.color)),
            (seq!['a'], opt_alignment(self.alignment)),
            (seq!['i', 'd'], opt_int(self.id)),
            (seq!['f', 'u'], opt_string(self.func)),
            (seq!['t'], strings(self.tag@)),
            (seq!['k'], flag(self.keep)),
        ]
    }

    fn fields(&self) -> (out: Vec<(Vec<char>, Vec<Vec<char>>)>)
        ensures
            groups_view(out@) == self.groups(),
    {
        let mut out: Vec<(Vec<char>, Vec<Vec<char>>)> = Vec::new();
        let name = key(&['p']);
        assert(name@ =~= seq!['p']);
        out.push((name, points_values(&self.point)));
        let name = key(&['w']);
        assert(name@ =~= seq!['w']);
        out.push((name, scalar_values(&self.width)));
        let name = key(&['f']);
        assert(name@ =~= seq!['f']);
        out.push((name, values_flag(self.fill)));
        let name = key(&['c', 'o', 'l']);
        assert(name@ =~= seq!['c', 'o', 'l']);
        out.push((name, color_values(&self.color)));
        let name = key(&['a']);
        assert(name@ =~= seq!['a']);
        out.push((name, alignment_values(&self.alignment)));
        let name = key(&['i', 'd']);
        assert(name@ =~= seq!['i', 'd']);
        out.push((name, int_values(&self.id)));
        let name = key(&['f', 'u']);
        assert(name@ =~= seq!['f', 'u']);
        out.push((name, string_values(&self.func)));
        let name = key(&['t']);
        assert(name@ =~= seq!['t']);
        out.push((name, tag_values(&self.tag)));
        let name = key(&['k']);
        assert(name@ =~= seq!['k']);
        out.push((name, values_flag(self.keep)));
        assert(groups_view(out@) =~= self.groups());
        out
    }

    /// Adds a point.
    pub fn point(self, arg: Point) -> (r: Poly)
        ensures
            r.point@ == self.point@.push(arg),
            r == (Poly { point: r.point, ..self }),
    {
        let mut r = self;
        r.point.push(arg);
        r
    }

    /// The stroke width.
    pub fn width(self, arg: Scalar) -> (r: Poly)
        ensures
            r == (Poly { width: Some(arg), ..self }),
    {
        let mut r = self;
        r.width = Some(arg);
        r
    }

    /// Whether the interior is painted.
    pub fn fill(self, arg: bool) -> (r: Poly)
        ensures
            r == (Poly { fill: arg, ..self }),
    {
        let mut r = self;
        r.fill = arg;
        r
    }

    /// The colour.
    pub fn color(self, arg: Color) -> (r: Poly)
        ensures
            r == (Poly { color: Some(arg), ..self }),
    {
        let mut r = self;
        r.color = Some(arg);
        r
    }

    /// Where the anchor lies on each axis.
    pub fn alignment(self, arg: (Alignment, Alignment)) -> (r: Poly)
        ensures
            r == (Poly { alignment: Some(arg), ..self }),
    {
        let mut r = self;
        r.alignment = Some(arg);
        r
    }

    /// The identity of the object across keyframes.
    pub fn id(self, arg: i32) -> (r: Poly)
        ensures
            r == (Poly { id: Some(arg), ..self }),
    {
        let mut r = self;
        r.id = Some(arg);
        r
    }

    /// The name of the easing curve.
    pub fn func(self, arg: String) -> (r: Poly)
        ensures
            r == (Poly { func: Some(arg), ..self }),
    {
        let mut r = self;
        r.func = Some(arg);
        r
    }

    /// Adds a tag.
    pub fn tag(self, arg: String) -> (r: Poly)
        ensures
            r.tag@ == self.tag@.push(arg),
            r == (Poly { tag: r.tag, ..self }),
    {
        let mut r = self;
        r.tag.push(arg);
        r
    }

    /// The keep flag.
    pub fn keep(self, arg: bool) -> (r: Poly)
        ensures
            r == (Poly { keep: arg, ..self }),
    {
        let mut r = self;
        r.keep = arg;
        r
    }
}

impl Rviewerable for Poly {
    open spec fn line(&self) -> Seq<char> {
        figure_line(seq!['p', 'o', 'l', 'y'], self.groups())
    }

    open spec fn is_blank(&self) -> bool {
        &&& self.point@.len() == 0
        &&& self.width is None
        &&& self.fill == false
        &&& self.color is None
        &&& self.alignment is None
        &&& self.id is None
        &&& self.func is None
        &&& self.tag@.len() == 0
        &&& self.keep == false
    }

    fn new() -> (r: Poly) {
        Poly {
            point: Vec::new(),
            width: None,
            fill: false,
            color: None,
            alignment: None,
            id: None,
            func: None,
            tag: Vec::new(),
            keep: false,
        }
    }

    fn draw(self) -> (s: String) {
        let groups = self.fields();
        let line = write_line(&['p', 'o', 'l', 'y'], &groups);
        assert(['p', 'o', 'l', 'y']@ =~= seq!['p', 'o', 'l', 'y']);
        string_of(line.as_slice())
    }
}

/// A text to be drawn.
pub struct Text {
    pub text: Option<String>,
    pub center: Option<Point>,
    pub font: Option<Scalar>,
    pub color: Option<Color>,
    pub alignment: Option<(Alignment, Alignment)>,
    pub id: Option<i32>,
    pub func: Option<String>,
    pub tag: Vec<String>,
    pub keep: bool,
}

impl Text {
    /// The fields that are written, group by group.
    pub open spec fn groups(self) -> Seq<Group> {
        seq![
            (seq!['m'], opt_string(self.text)),
            (seq!['c'], opt_point(self.center)),
            (seq!['s'], opt_scalar(self.font)),
            (seq!['c', 'o', 'l'], opt_color(self.color)),
            (seq!['a'], opt_alignment(self.alignment)),
            (seq!['i', 'd'], opt_int(self.id)),
            (seq!['f', 'u'], opt_string(self.func)),
            (seq!['t'], strings(self.tag@)),
            (seq!['k'], flag(self.keep)),
        ]
    }

    fn fields(&self) -> (out: Vec<(Vec<char>, Vec<Vec<char>>)>)
        ensures
            groups_view(out@) == self.groups(),
    {
        let mut out: Vec<(Vec<char>, Vec<Vec<char>>)> = Vec::new();
        let name = key(&['m']);
        assert(name@ =~= seq!['m']);
        out.push((name, string_values(&self.text)));
        let name = key(&['c']);
        assert(name@ =~= seq!['c']);
        out.push((name, point_values(&self.center)));
        let name = key(&['s']);
        assert(name@ =~= seq!['s']);
        out.push((name, scalar_values(&self.font)));
        let name = key(&['c', 'o', 'l']);
        assert(name@ =~= seq!['c', 'o', 'l']);
        out.push((name, color_values(&self.color)));
        let name = key(&['a']);
        assert(name@ =~= seq!['a']);
        out.push((name, alignment_values(&self.alignment)));
        let name = key(&['i', 'd']);
        assert(name@ =~= seq!['i', 'd']);
        out.push((name, int_values(&self.id)));
        let name = key(&['f', 'u']);
        assert(name@ =~= seq!['f', 'u']);
        out.push((name, string_values(&self.func)));
        let name = key(&['t']);
        assert(name@ =~= seq!['t']);
        out.push((name, tag_values(&self.tag)));
        let name = key(&['k']);
        assert(name@ =~= seq!['k']);
        out.push((name, values_flag(self.keep)));
        assert(groups_view(out@) =~= self.groups());
        out
    }

    /// The text.
    pub fn text(self, arg: String) -> (r: Text)
        ensures
            r == (Text { text: Some(arg), ..self }),
    {
        let mut r = self;
        r.text = Some(arg);
        r
    }

    /// The centre, or the anchor that the alignment refers to.
    pub fn center(self, arg: Point) -> (r: Text)
        ensures
            r == (Text { center: Some(arg), ..self }),
    {
        let mut r = self;
        r.center = Some(arg);
        r
    }

    /// The font size.
    pub fn font(self, arg: Scalar) -> (r: Text)
        ensures
            r == (Text { font: Some(arg), ..self }),
    {
        let mut r = self;
        r.font = Some(arg);
        r
    }

    /// The colour.
    pub fn color(self, arg: Color) -> (r: Text)
        ensures
            r == (Text { color: Some(arg), ..self }),
    {
        let mut r = self;
        r.color = Some(arg);
        r
    }

    /// Where the anchor lies on each axis.
    pub fn alignment(self, arg: (Alignment, Alignment)) -> (r: Text)
        ensures
            r == (Text { alignment: Some(arg), ..self }),
    {
        let mut r = self;
        r.alignment = Some(arg);
        r
    }

    /// The identity of the object across keyframes.
    pub fn id(self, arg: i32) -> (r: Text)
        ensures
            r == (Text { id: Some(arg), ..self }),
    {
        let mut r = self;
        r.id = Some(arg);
        r
    }

    /// The name of the easing curve.
    pub fn func(self, arg: String) -> (r: Text)
        ensures
            r == (Text { func: Some(arg), ..self }),
    {
        let mut r = self;
        r.func = Some(arg);
        r
    }

    /// Adds a tag.
    pub fn tag(self, arg: String) -> (r: Text)
        ensures
            r.tag@ == self.tag@.push(arg),
            r == (Text { tag: r.tag, ..self }),
    {
        let mut r = self;
        r.tag.push(arg);
        r
    }

    /// The keep flag.
    pub fn keep(self, arg: bool) -> (r: Text)
        ensures
            r == (Text { keep: arg, ..self }),
    {
        let mut r = self;
        r.keep = arg;
        r
    }
}

impl Rviewerable for Text {
    open spec fn line(&self) -> Seq<char> {
        figure_line(seq!['t', 'e', 'x', 't'], self.groups())
    }

    open spec fn is_blank(&self) -> bool {
        &&& self.text is None
        &&& self.center is None
        &&& self.font is None
        &&& self.color is None
        &&& self.alignment is None
        &&& self.id is None
        &&& self.func is None
        &&& self.tag@.len() == 0
        &&& self.keep == false
    }

    fn new() -> (r: Text) {
        Text {
            text: None,
            center: None,
            font: None,
            color: None,
            alignment: None,
            id: None,
            func: None,
            tag: Vec::new(),
            keep: false,
        }
    }

    fn draw(self) -> (s: String) {
        let groups = self.fields();
        let line = write_line(&['t', 'e', 'x', 't'], &groups);
        assert(['t', 'e', 'x', 't']@ =~= seq!['t', 'e', 'x', 't']);
        string_of(line.as_slice())
    }
}

/// The parameters of a scene, written before its figures.
pub struct Init {
    pub size: Option<Point>,
    pub shift: Option<Point>,
    pub font: Option<Scalar>,
    pub speed: Option<Scalar>,
    pub width: Option<Scalar>,
    pub svg_width: Option<Scalar>,
    pub in_betweens: Option<i32>,
    pub flipy: bool,
}

impl Init {
    /// The fields that are written, group by group.
    pub open spec fn groups(self) -> Seq<Group> {
        seq![
            (seq!['s', 'i', 'z', 'e'], opt_point(self.size)),
            (seq!['s', 'h', 'i', 'f', 't'], opt_point(self.shift)),
            (seq!['f', 'o', 'n', 't'], opt_scalar(self.font)),
            (seq!['s', 'p', 'e', 'e', 'd'], opt_scalar(self.speed)),
            (seq!['w', 'i', 'd', 't', 'h'], opt_scalar(self.width)),
            (seq!['s', 'v', 'g', 'w', 'i', 'd', 't', 'h'], opt_scalar(self.svg_width)),
            (seq!['i', 'n', '_', 'b', 'e', 't', 'w', 'e', 'e', 'n', 's'], opt_int(self.in_betweens)),
            (seq!['f', 'l', 'i', 'p', 'y'], flag(self.flipy)),
        ]
    }

    fn fields(&self) -> (out: Vec<(Vec<char>, Vec<Vec<char>>)>)
        ensures
            groups_view(out@) == self.groups(),
    {
        let mut out: Vec<(Vec<char>, Vec<Vec<char>>)> = Vec::new();
        let name = key(&['s', 'i', 'z', 'e']);
        assert(name@ =~= seq!['s', 'i', 'z', 'e']);
        out.push((name, point_values(&self.size)));
        let name = key(&['s', 'h', 'i', 'f', 't']);
        assert(name@ =~= seq!['s', 'h', 'i', 'f', 't']);
        out.push((name, point_values(&self.shift)));
        let name = key(&['f', 'o', 'n', 't']);
        assert(name@ =~= seq!['f', 'o', 'n', 't']);
        out.push((name, scalar_values(&self.font)));
        let name = key(&['s', 'p', 'e', 'e', 'd']);
        assert(name@ =~= seq!['s', 'p', 'e', 'e', 'd']);
        out.push((name, scalar_values(&self.speed)));
        let name = key(&['w', 'i', 'd', 't', 'h']);
        assert(name@ =~= seq!['w', 'i', 'd', 't', 'h']);
        out.push((name, scalar_values(&self.width)));
        let name = key(&['s', 'v', 'g', 'w', 'i', 'd', 't', 'h']);
        assert(name@ =~= seq!['s', 'v', 'g', 'w', 'i', 'd', 't', 'h']);
        out.push((name, scalar_values(&self.svg_width)));
        let name = key(&['i', 'n', '_', 'b', 'e', 't', 'w', 'e', 'e', 'n', 's']);
        assert(name@ =~= seq!['i', 'n', '_', 'b', 'e', 't', 'w', 'e', 'e', 'n', 's']);
        out.push((name, int_values(&self.in_betweens)));
        let name = key(&['f', 'l', 'i', 'p', 'y']);
        assert(name@ =~= seq!['f', 'l', 'i', 'p', 'y']);
        out.push((name, values_flag(self.flipy)));
        assert(groups_view(out@) =~= self.groups());
        out
    }

    /// Width and height of the scene.
    pub fn size(self, arg: Point) -> (r: Init)
        ensures
            r == (Init { size: Some(arg), ..self }),
    {
        let mut r = self;
        r.size = Some(arg);
        r
    }

    /// By how much every figure is moved.
    pub fn shift(self, arg: Point) -> (r: Init)
        ensures
            r == (Init { shift: Some(arg), ..self }),
    {
        let mut r = self;
        r.shift = Some(arg);
        r
    }

    /// The default font size.
    pub fn font(self, arg: Scalar) -> (r: Init)
        ensures
            r == (Init { font: Some(arg), ..self }),
    {
        let mut r = self;
        r.font = Some(arg);
        r
    }

    /// Frames per second.
    pub fn speed(self, arg: Scalar) -> (r: Init)
        ensures
            r == (Init { speed: Some(arg), ..self }),
    {
        let mut r = self;
        r.speed = Some(arg);
        r
    }

    /// The default stroke width.
    pub fn width(self, arg: Scalar) -> (r: Init)
        ensures
            r == (Init { width: Some(arg), ..self }),
    {
        let mut r = self;
        r.width = Some(arg);
        r
    }

    /// Factor applied to stroke widths in vector documents.
    pub fn svg_width(self, arg: Scalar) -> (r: Init)
        ensures
            r == (Init { svg_width: Some(arg), ..self }),
    {
        let mut r = self;
        r.svg_width = Some(arg);
        r
    }

    /// Steps from one keyframe to the next.
    pub fn in_betweens(self, arg: i32) -> (r: Init)
        ensures
            r == (Init { in_betweens: Some(arg), ..self }),
    {
        let mut r = self;
        r.in_betweens = Some(arg);
        r
    }

    /// Whether the vertical axis points down.
    pub fn flipy(self, arg: bool) -> (r: Init)
        ensures
            r == (Init { flipy: arg, ..self }),
    {
        let mut r = self;
        r.flipy = arg;
        r
    }
}

impl Rviewerable for Init {
    open spec fn line(&self) -> Seq<char> {
        emit(spread(self.groups()), '\n')
    }

    open spec fn is_blank(&self) -> bool {
        &&& self.size is None
        &&& self.shift is None
        &&& self.font is None
        &&& self.speed is None
        &&& self.width is None
        &&& self.svg_width is None
        &&& self.in_betweens is None
        &&& self.flipy == false
    }

    fn new() -> (r: Init) {
        Init {
            size: None,
            shift: None,
            font: None,
            speed: None,
            width: None,
            svg_width: None,
            in_betweens: None,
            flipy: false,
        }
    }

    fn draw(self) -> (s: String) {
        let groups = self.fields();
        let mut line: Vec<char> = Vec::new();
        write_fields(&mut line, &groups, '\n');
        assert(line@ =~= emit(spread(self.groups()), '\n'));
        string_of(line.as_slice())
    }
}

/// The values of a curve, with a blank between two of them.
pub open spec fn listed(values: Seq<Seq<char>>) -> Seq<char>
    decreases values.len(),
{
    if values.len() == 0 {
        Seq::empty()
    } else if values.len() == 1 {
        values[0]
    } else {
        listed(values.drop_last()) + seq![' '] + values.last()
    }
}

/// The directive that ends a time step.
pub open spec fn tick_line() -> Seq<char> {
    seq!['t', 'i', 'c', 'k', '\n']
}

/// The directive that disables a tag.
pub open spec fn disable_line(tag: Seq<char>) -> Seq<char> {
    seq!['d', 'i', 's', 'a', 'b', 'l', 'e', ' '] + tag + seq!['\n']
}

/// The line of an overlay message.
pub open spec fn message_line(msg: Seq<char>) -> Seq<char> {
    seq!['m', 's', 'g', ' '] + msg + seq!['\n']
}

/// The directive that sets a named easing curve: the keyword, the name and
/// the factors, with a blank after the keyword and after the name.
pub open spec fn func_line(func: Seq<char>, values: Seq<Seq<char>>) -> Seq<char> {
    seq!['s', 'e', 't', 'f', 'u', 'n', 'c', ' '] + func + seq![' '] + listed(values) + seq!['\n']
}

/// The factors of a curve as their literals.
pub open spec fn literals(v: Seq<Scalar>) -> Seq<Seq<char>> {
    v.map_values(|x: Scalar| x@)
}

/// Writes the directive that ends a time step.
pub fn tick() -> (s: String)
    ensures
        s@ == tick_line(),
{
    let line = ['t', 'i', 'c', 'k', '\n'];
    assert(line@ =~= tick_line());
    string_of(&line)
}

/// Writes the directive that disables a tag.
pub fn disable_tag(tag: &str) -> (s: String)
    ensures
        s@ == disable_line(tag@),
{
    let mut out: Vec<char> = Vec::new();
    push_all(&mut out, &['d', 'i', 's', 'a', 'b', 'l', 'e', ' ']);
    push_all(&mut out, chars_of(tag).as_slice());
    out.push('\n');
    assert(out@ =~= disable_line(tag@));
    string_of(out.as_slice())
}

/// Writes the line of an overlay message.
pub fn message(msg: &str) -> (s: String)
    ensures
        s@ == message_line(msg@),
{
    let mut out: Vec<char> = Vec::new();
    push_all(&mut out, &['m', 's', 'g', ' ']);
    push_all(&mut out, chars_of(msg).as_slice());
    out.push('\n');
    assert(out@ =~= message_line(msg@));
    string_of(out.as_slice())
}

/// Writes the directive that sets a named easing curve.
pub fn set_func(func: &str, values: &[Scalar]) -> (s: String)
    ensures
        s@ == func_line(func@, literals(values@)),
{
    let mut out: Vec<char> = Vec::new();
    push_all(&mut out, &['s', 'e', 't', 'f', 'u', 'n', 'c', ' ']);
    push_all(&mut out, chars_of(func).as_slice());
    out.push(' ');
    let ghost head = out@;
    let ghost all = literals(values@);
    let mut i: usize = 0;
    assert(all.take(0) =~= Seq::<Seq<char>>::empty());
    assert(head + listed(all.take(0)) =~= head);
    while i < values.len()
        invariant
            i <= values.len(),
            all == literals(values@),
            out@ == head + listed(all.take(i as int)),
        decreases values.len() - i,
    {
        if i > 0 {
            out.push(' ');
        }
        push_all(&mut out, chars_of(values[i].as_str()).as_slice());
        proof {
            let done = all.take(i + 1);
            assert(done.drop_last() =~= all.take(i as int));
            assert(done.last() == values@[i as int]@);
            if i == 0 {
                assert(done[0] == values@[0]@);
            }
            assert(out@ =~= head + listed(done));
        }
        i += 1;
    }
    assert(all.take(values.len() as int) =~= all);
    out.push('\n');
    assert(out@ =~= func_line(func@, literals(values@)));
    string_of(out.as_slice())
}

} // verus!
