//! The `key=value` parameters of a protocol line and their typed readers.

use vstd::prelude::*;
use crate::color::Color;
use crate::number::{
    i32_from, is_number, parse_i32, parse_unsigned, u8_from, usize_from, Scalar,
};
use crate::text::{
    chars_of, pieces, same_chars, slice_of, split, split_whitespace, string_of, texts, tokens,
};

verus! {

/// The key and the value of one token: what stands before the first `=`, and
/// what stands between the first `=` and the second (or the end). A token
/// without `=` has an empty value.
pub open spec fn pair_of(token: Seq<char>) -> (Seq<char>, Seq<char>) {
    let p = pieces(token, '=');
    (
        p[0],
        if p.len() > 1 {
            p[1]
        } else {
            Seq::empty()
        },
    )
}

/// The pair of every token, in order.
pub open spec fn entries_of(tokens: Seq<Seq<char>>) -> Seq<(Seq<char>, Seq<char>)> {
    tokens.map_values(|t: Seq<char>| pair_of(t))
}

/// The non-empty values given for `name`, in order of appearance.
pub open spec fn values_of(entries: Seq<(Seq<char>, Seq<char>)>, name: Seq<char>) -> Seq<
    Seq<char>,
>
    decreases entries.len(),
{
    if entries.len() == 0 {
        Seq::empty()
    } else {
        let rest = values_of(entries.drop_last(), name);
        if entries.last().0 == name && entries.last().1.len() > 0 {
            rest.push(entries.last().1)
        } else {
            rest
        }
    }
}

/// Whether `name` stands in the line as a token of its own, without a value.
pub open spec fn is_bare(entries: Seq<(Seq<char>, Seq<char>)>, name: Seq<char>) -> bool {
    exists|i: int| 0 <= i < entries.len() && #[trigger] entries[i] == (name, Seq::<char>::empty())
}

/// The parameters of a line: the key and value of each whitespace-separated
/// token. A key may occur several times; its values keep their order.
pub struct Params {
    pairs: Vec<(Vec<char>, Vec<char>)>,
}

impl View for Params {
    type V = Seq<(Seq<char>, Seq<char>)>;

    closed spec fn view(&self) -> Seq<(Seq<char>, Seq<char>)> {
        self.pairs@.map_values(|p: (Vec<char>, Vec<char>)| (p.0@, p.1@))
    }
}

impl Params {
    /// Reads the parameters of a line.
    pub fn from_str(s: &str) -> (params: Params)
        ensures
            params@ == entries_of(tokens(s@)),
    {
        let line = chars_of(s);
        Params::from_chars(line.as_slice())
    }

    /// Reads the parameters of a line given as characters.
    pub fn from_chars(line: &[char]) -> (params: Params)
        ensures
            params@ == entries_of(tokens(line@)),
    {
        let words = split_whitespace(line);
        let mut params = Params { pairs: Vec::new() };
        let mut i: usize = 0;
        assert(params@ =~= entries_of(texts(words@).take(0)));
        while i < words.len()
            invariant
                i <= words.len(),
                params@ == entries_of(texts(words@).take(i as int)),
            decreases words.len() - i,
        {
            let mut parts = split(words[i].as_slice(), '=');
            let ghost p = texts(parts@);
            let value = if parts.len() > 1 {
                parts.swap_remove(1)
            } else {
                Vec::new()
            };
            let key = parts.swap_remove(0);
            assert((key@, value@) == pair_of(words@[i as int]@)) by {
                assert(key@ == p[0]);
                if p.len() > 1 {
                    assert(value@ == p[1]);
                } else {
                    assert(value@ =~= Seq::<char>::empty());
                }
            }
            let ghost before = params@;
            params.pairs.push((key, value));
            assert(params@ =~= before.push((key@, value@)));
            assert(entries_of(texts(words@).take(i + 1)) =~= entries_of(
                texts(words@).take(i as int),
            ).push(pair_of(words@[i as int]@)));
            i += 1;
        }
        assert(texts(words@).take(words.len() as int) =~= texts(words@));
        params
    }

    /// The non-empty values given for `name`, in order of appearance.
    pub fn values(&self, name: &[char]) -> (out: Vec<Vec<char>>)
        ensures
            texts(out@) == values_of(self@, name@),
    {
        let mut out: Vec<Vec<char>> = Vec::new();
        let mut i: usize = 0;
        assert(self@.take(0) =~= Seq::<(Seq<char>, Seq<char>)>::empty());
        assert(texts(out@) =~= Seq::<Seq<char>>::empty());
        while i < self.pairs.len()
            invariant
                i <= self.pairs.len(),
                texts(out@) == values_of(self@.take(i as int), name@),
            decreases self.pairs.len() - i,
        {
            let ghost t = self@.take(i + 1);
            assert(t.drop_last() =~= self@.take(i as int));
            assert(t.last() == (self.pairs@[i as int].0@, self.pairs@[i as int].1@));
            if self.pairs[i].1.len() > 0 && same_chars(self.pairs[i].0.as_slice(), name) {
                let value = slice_of(self.pairs[i].1.as_slice(), 0, self.pairs[i].1.len());
                assert(value@ =~= self.pairs@[i as int].1@);
                let ghost before = texts(out@);
                out.push(value);
                assert(texts(out@) =~= before.push(value@));
            }
            i += 1;
        }
        assert(self@.take(self.pairs.len() as int) =~= self@);
        out
    }

    /// Whether `name` stands in the line as a token of its own.
    pub fn bare(&self, name: &[char]) -> (b: bool)
        ensures
            b == is_bare(self@, name@),
    {
        let mut i: usize = 0;
        while i < self.pairs.len()
            invariant
                i <= self.pairs.len(),
                forall|k: int| 0 <= k < i ==> self@[k] != (name@, Seq::<char>::empty()),
            decreases self.pairs.len() - i,
        {
            if self.pairs[i].1.len() == 0 && same_chars(self.pairs[i].0.as_slice(), name) {
                assert(self.pairs@[i as int].1@ =~= Seq::<char>::empty());
                assert(self@[i as int] == (name@, Seq::<char>::empty()));
                return true;
            }
            assert(self@[i as int] != (name@, Seq::<char>::empty()));
            i += 1;
        }
        false
    }

    /// What the line gives for `name` where it gives no value: what a bare
    /// `name` denotes, where the key stands bare and that denotes a `T`.
    fn get_bare<T: Param>(&self, name: &[char]) -> (r: Option<T>)
        ensures
            model_of(r) == read_bare::<T>(self@, name@),
    {
        if self.bare(name) {
            T::from_bare()
        } else {
            None
        }
    }

    /// The parameter `name` read as a `T`: its values where it has any, else
    /// what the bare key denotes where it stands bare. `None` where the line
    /// does not give the parameter, or gives it in a form that is no `T`.
    pub fn get<T: Param>(&self, name: &str) -> (r: Option<T>)
        ensures
            model_of(r) == read::<T>(self@, name@),
    {
        let key = chars_of(name);
        let values = self.values(key.as_slice());
        if values.len() == 0 {
            self.get_bare(key.as_slice())
        } else {
            T::from(values.as_slice())
        }
    }

    /// The parameter `name` read as a `T`, or `default` where the line does not
    /// give it: `None` where the line gives it in a form that is no `T`.
    pub fn get_or<T: Param>(&self, name: &[char], default: T) -> (r: Option<T>)
        ensures
            model_of(r) == read_or::<T>(self@, name@, default.model()),
    {
        let values = self.values(name);
        if values.len() == 0 {
            match self.get_bare::<T>(name) {
                Some(v) => Some(v),
                None => Some(default),
            }
        } else {
            T::from(values.as_slice())
        }
    }

    /// The optional parameter `name` read as a `T`: `Some(None)` where the line
    /// does not give it, `None` where it gives it in a form that is no `T`.
    pub fn get_opt<T: Param>(&self, name: &[char]) -> (r: Option<Option<T>>)
        ensures
            match r {
                Some(v) => read_opt::<T>(self@, name@) == Some(model_of(v)),
                None => read_opt::<T>(self@, name@) is None,
            },
    {
        let values = self.values(name);
        if values.len() == 0 {
            Some(self.get_bare::<T>(name))
        } else {
            match T::from(values.as_slice()) {
                Some(v) => Some(Some(v)),
                None => None,
            }
        }
    }

    /// The flag `name`: its first value where it has one, true where it
    /// stands bare, false where the line does not name it. `None` where the
    /// value is neither `0` nor `1`.
    pub fn flag(&self, name: &[char]) -> (r: Option<bool>)
        ensures
            r == read_flag(self@, name@),
            r == read_or::<bool>(self@, name@, false),
    {
        self.get_or::<bool>(name, false)
    }
}

/// What a line gives for a key without a value: what the bare key denotes,
/// where the key stands bare in the line; else nothing.
pub open spec fn read_bare<T: Param>(entries: Seq<(Seq<char>, Seq<char>)>, name: Seq<char>) -> Option<
    T::Model,
> {
    if is_bare(entries, name) {
        T::bare()
    } else {
        None
    }
}

/// What a parameter reads as: what its values denote where it has any, else
/// what the bare key denotes where it stands bare.
pub open spec fn read<T: Param>(entries: Seq<(Seq<char>, Seq<char>)>, name: Seq<char>) -> Option<
    T::Model,
> {
    let values = values_of(entries, name);
    if values.len() == 0 {
        read_bare::<T>(entries, name)
    } else {
        T::parsed(values)
    }
}

/// What a parameter with a default reads as: nothing where a value is given
/// that does not denote a `T`.
pub open spec fn read_or<T: Param>(
    entries: Seq<(Seq<char>, Seq<char>)>,
    name: Seq<char>,
    default: T::Model,
) -> Option<T::Model> {
    let values = values_of(entries, name);
    if values.len() == 0 {
        match read_bare::<T>(entries, name) {
            Some(v) => Some(v),
            None => Some(default),
        }
    } else {
        T::parsed(values)
    }
}

/// What an optional parameter reads as: nothing where a value is given that
/// does not denote a `T`.
pub open spec fn read_opt<T: Param>(
    entries: Seq<(Seq<char>, Seq<char>)>,
    name: Seq<char>,
) -> Option<Option<T::Model>> {
    let values = values_of(entries, name);
    if values.len() == 0 {
        Some(read_bare::<T>(entries, name))
    } else {
        match T::parsed(values) {
            Some(v) => Some(Some(v)),
            None => None,
        }
    }
}

/// What a flag reads as: its first value where it has one, true where it
/// stands bare, false where the line does not name it.
pub open spec fn read_flag(entries: Seq<(Seq<char>, Seq<char>)>, name: Seq<char>) -> Option<bool> {
    let values = values_of(entries, name);
    if values.len() == 0 {
        Some(is_bare(entries, name))
    } else {
        parse_bool(values[0])
    }
}

/// The model of an optional value.
pub open spec fn model_of<T: Param>(r: Option<T>) -> Option<T::Model> {
    match r {
        Some(v) => Some(v.model()),
        None => None,
    }
}

/// A type that can be read from the values of a parameter.
pub trait Param: Sized {
    /// The mathematical value that contracts speak of.
    type Model;

    /// The model of a value.
    spec fn model(&self) -> Self::Model;

    /// What the values of a parameter denote, if anything.
    spec fn parsed(values: Seq<Seq<char>>) -> Option<Self::Model>;

    /// What the key of a parameter denotes where it stands in the line
    /// without a value: a set flag, and nothing for any other type.
    spec fn bare() -> Option<Self::Model>;

    /// Reads the values given for one parameter, of which there is at least one.
    fn from(values: &[Vec<char>]) -> (r: Option<Self>)
        requires
            values@.len() > 0,
        ensures
            match r {
                Some(v) => Self::parsed(texts(values@)) == Some(v.model()),
                None => Self::parsed(texts(values@)) is None,
            },
    ;

    /// Reads a key that stands in the line without a value.
    fn from_bare() -> (r: Option<Self>)
        ensures
            match r {
                Some(v) => Self::bare() == Some(v.model()),
                None => Self::bare() is None,
            },
    ;
}

/// A flag: `0` is false, `1` and the empty value are true.
pub open spec fn parse_bool(s: Seq<char>) -> Option<bool> {
    if s == seq!['0'] {
        Some(false)
    } else if s == seq!['1'] || s.len() == 0 {
        Some(true)
    } else {
        None
    }
}

impl Param for bool {
    type Model = bool;

    open spec fn model(&self) -> bool {
        *self
    }

    open spec fn parsed(values: Seq<Seq<char>>) -> Option<bool> {
        parse_bool(values[0])
    }

    open spec fn bare() -> Option<bool> {
        Some(true)
    }

    fn from_bare() -> (r: Option<bool>) {
        Some(true)
    }

    fn from(values: &[Vec<char>]) -> (r: Option<bool>) {
        let s = &values[0];
        if s.len() == 0 {
            Some(true)
        } else if s.len() == 1 && s[0] == '0' {
            assert(s@ =~= seq!['0']);
            Some(false)
        } else if s.len() == 1 && s[0] == '1' {
            assert(s@ =~= seq!['1']);
            Some(true)
        } else {
            assert(s@ != seq!['0'] && s@ != seq!['1']) by {
                if s@.len() == 1 {
                    assert(seq!['0'][0] == '0');
                    assert(seq!['1'][0] == '1');
                }
            }
            None
        }
    }
}

impl Param for i32 {
    type Model = i32;

    open spec fn model(&self) -> i32 {
        *self
    }

    open spec fn parsed(values: Seq<Seq<char>>) -> Option<i32> {
        parse_i32(values[0])
    }

    open spec fn bare() -> Option<i32> {
        None
    }

    fn from_bare() -> (r: Option<i32>) {
        None
    }

    fn from(values: &[Vec<char>]) -> (r: Option<i32>) {
        i32_from(values[0].as_slice())
    }
}

impl Param for String {
    type Model = Seq<char>;

    open spec fn model(&self) -> Seq<char> {
        self@
    }

    open spec fn parsed(values: Seq<Seq<char>>) -> Option<Seq<char>> {
        Some(values[0])
    }

    open spec fn bare() -> Option<Seq<char>> {
        None
    }

    fn from_bare() -> (r: Option<String>) {
        None
    }

    fn from(values: &[Vec<char>]) -> (r: Option<String>) {
        Some(string_of(values[0].as_slice()))
    }
}

/// The character sequences held by a vector of strings.
pub open spec fn labels(v: Seq<String>) -> Seq<Seq<char>> {
    v.map_values(|s: String| s@)
}

impl Param for Vec<String> {
    type Model = Seq<Seq<char>>;

    open spec fn model(&self) -> Seq<Seq<char>> {
        labels(self@)
    }

    open spec fn parsed(values: Seq<Seq<char>>) -> Option<Seq<Seq<char>>> {
        Some(values)
    }

    open spec fn bare() -> Option<Seq<Seq<char>>> {
        None
    }

    fn from_bare() -> (r: Option<Vec<String>>) {
        None
    }

    fn from(values: &[Vec<char>]) -> (r: Option<Vec<String>>) {
        let mut out: Vec<String> = Vec::new();
        let mut i: usize = 0;
        while i < values.len()
            invariant
                i <= values.len(),
                labels(out@) == texts(values@).take(i as int),
            decreases values.len() - i,
        {
            let s = string_of(values[i].as_slice());
            let ghost before = labels(out@);
            out.push(s);
            assert(labels(out@) =~= before.push(s@));
            assert(texts(values@).take(i + 1) =~= texts(values@).take(i as int).push(
                values@[i as int]@,
            ));
            i += 1;
        }
        assert(texts(values@).take(values.len() as int) =~= texts(values@));
        Some(out)
    }
}

/// The first two characters of a value.
pub open spec fn parse_chars(s: Seq<char>) -> Option<(char, char)> {
    if s.len() >= 2 {
        Some((s[0], s[1]))
    } else {
        None
    }
}

impl Param for (char, char) {
    type Model = (char, char);

    open spec fn model(&self) -> (char, char) {
        *self
    }

    open spec fn parsed(values: Seq<Seq<char>>) -> Option<(char, char)> {
        parse_chars(values[0])
    }

    open spec fn bare() -> Option<(char, char)> {
        None
    }

    fn from_bare() -> (r: Option<(char, char)>) {
        None
    }

    fn from(values: &[Vec<char>]) -> (r: Option<(char, char)>) {
        let s = &values[0];
        if s.len() >= 2 {
            Some((s[0], s[1]))
        } else {
            None
        }
    }
}

/// The fields of a bracketed tuple: the value without its first and last
/// character, split at commas. A value of fewer than two characters has none.
pub open spec fn fields(s: Seq<char>) -> Option<Seq<Seq<char>>> {
    if s.len() >= 2 {
        Some(pieces(s.subrange(1, s.len() - 1), ','))
    } else {
        None
    }
}

/// Splits a bracketed tuple into its fields.
pub fn fields_of(s: &[char]) -> (r: Option<Vec<Vec<char>>>)
    ensures
        match fields(s@) {
            Some(f) => r is Some && texts(r.unwrap()@) == f && f.len() >= 1,
            None => r is None,
        },
{
    if s.len() >= 2 {
        let inner = slice_of(s, 1, s.len() - 1);
        Some(split(inner.as_slice(), ','))
    } else {
        None
    }
}

/// A pair of unsigned integers, `(a,b)`.
pub open spec fn parse_dims(s: Seq<char>) -> Option<(usize, usize)> {
    match fields(s) {
        Some(f) => if f.len() >= 2 {
            match (parse_unsigned(f[0], usize::MAX as nat), parse_unsigned(f[1], usize::MAX as nat)) {
                (Some(a), Some(b)) => Some((a as usize, b as usize)),
                _ => None,
            }
        } else {
            None
        },
        None => None,
    }
}

impl Param for (usize, usize) {
    type Model = (usize, usize);

    open spec fn model(&self) -> (usize, usize) {
        *self
    }

    open spec fn parsed(values: Seq<Seq<char>>) -> Option<(usize, usize)> {
        parse_dims(values[0])
    }

    open spec fn bare() -> Option<(usize, usize)> {
        None
    }

    fn from_bare() -> (r: Option<(usize, usize)>) {
        None
    }

    fn from(values: &[Vec<char>]) -> (r: Option<(usize, usize)>) {
        match fields_of(values[0].as_slice()) {
            Some(f) => {
                if f.len() < 2 {
                    return None;
                }
                match (usize_from(f[0].as_slice()), usize_from(f[1].as_slice())) {
                    (Some(a), Some(b)) => Some((a, b)),
                    _ => None,
                }
            },
            None => None,
        }
    }
}

/// A colour, `(r,g,b)` or `(r,g,b,a)`, each channel from 0 to 255. Without
/// the fourth field the colour is opaque.
pub open spec fn parse_color(s: Seq<char>) -> Option<Color> {
    match fields(s) {
        Some(f) => if f.len() >= 3 {
            match (parse_unsigned(f[0], 255), parse_unsigned(f[1], 255), parse_unsigned(f[2], 255)) {
                (Some(r), Some(g), Some(b)) => if f.len() >= 4 {
                    match parse_unsigned(f[3], 255) {
                        Some(a) => Some(Color { r: r as u8, g: g as u8, b: b as u8, a: a as u8 }),
                        None => None,
                    }
                } else {
                    Some(Color { r: r as u8, g: g as u8, b: b as u8, a: 255 })
                },
                _ => None,
            }
        } else {
            None
        },
        None => None,
    }
}

/// Reads a colour.
pub fn color_from(s: &[char]) -> (r: Option<Color>)
    ensures
        r == parse_color(s@),
{
    match fields_of(s) {
        Some(f) => {
            if f.len() < 3 {
                return None;
            }
            match (u8_from(f[0].as_slice()), u8_from(f[1].as_slice()), u8_from(f[2].as_slice())) {
                (Some(r), Some(g), Some(b)) => {
                    if f.len() >= 4 {
                        match u8_from(f[3].as_slice()) {
                            Some(a) => Some(Color { r, g, b, a }),
                            None => None,
                        }
                    } else {
                        Some(Color { r, g, b, a: 255 })
                    }
                },
                _ => None,
            }
        },
        None => None,
    }
}

impl Param for Color {
    type Model = Color;

    open spec fn model(&self) -> Color {
        *self
    }

    open spec fn parsed(values: Seq<Seq<char>>) -> Option<Color> {
        parse_color(values[0])
    }

    open spec fn bare() -> Option<Color> {
        None
    }

    fn from_bare() -> (r: Option<Color>) {
        None
    }

    fn from(values: &[Vec<char>]) -> (r: Option<Color>) {
        color_from(values[0].as_slice())
    }
}

/// A number literal.
pub open spec fn parse_scalar(s: Seq<char>) -> Option<Seq<char>> {
    if is_number(s) {
        Some(s)
    } else {
        None
    }
}

impl Param for Scalar {
    type Model = Seq<char>;

    open spec fn model(&self) -> Seq<char> {
        self@
    }

    open spec fn parsed(values: Seq<Seq<char>>) -> Option<Seq<char>> {
        parse_scalar(values[0])
    }

    open spec fn bare() -> Option<Seq<char>> {
        None
    }

    fn from_bare() -> (r: Option<Scalar>) {
        None
    }

    fn from(values: &[Vec<char>]) -> (r: Option<Scalar>) {
        Scalar::from_chars(values[0].as_slice())
    }
}

/// A pair of real quantities: a position, an extent or a pair of angles.
pub struct Point {
    pub x: Scalar,
    pub y: Scalar,
}

impl View for Point {
    type V = (Seq<char>, Seq<char>);

    open spec fn view(&self) -> (Seq<char>, Seq<char>) {
        (self.x@, self.y@)
    }
}

impl Clone for Point {
    fn clone(&self) -> (c: Point)
        ensures
            c@ == self@,
    {
        Point { x: self.x.clone(), y: self.y.clone() }
    }
}

/// The point `(0,0)`.
pub open spec fn origin() -> (Seq<char>, Seq<char>) {
    (seq!['0'], seq!['0'])
}

impl Point {
    /// The point `(0,0)`.
    pub fn origin() -> (p: Point)
        ensures
            p@ == origin(),
    {
        Point { x: Scalar::zero(), y: Scalar::zero() }
    }
}

/// A pair of number literals, `(x,y)`.
pub open spec fn parse_point(s: Seq<char>) -> Option<(Seq<char>, Seq<char>)> {
    match fields(s) {
        Some(f) => if f.len() >= 2 && is_number(f[0]) && is_number(f[1]) {
            Some((f[0], f[1]))
        } else {
            None
        },
        None => None,
    }
}

/// Reads a pair of number literals.
pub fn point_from(s: &[char]) -> (r: Option<Point>)
    ensures
        r is Some <==> parse_point(s@) is Some,
        r is Some ==> r.unwrap()@ == parse_point(s@).unwrap(),
{
    match fields_of(s) {
        Some(f) => {
            if f.len() < 2 {
                return None;
            }
            match (Scalar::from_chars(f[0].as_slice()), Scalar::from_chars(f[1].as_slice())) {
                (Some(x), Some(y)) => Some(Point { x, y }),
                _ => None,
            }
        },
        None => None,
    }
}

impl Param for Point {
    type Model = (Seq<char>, Seq<char>);

    open spec fn model(&self) -> (Seq<char>, Seq<char>) {
        self@
    }

    open spec fn parsed(values: Seq<Seq<char>>) -> Option<(Seq<char>, Seq<char>)> {
        parse_point(values[0])
    }

    open spec fn bare() -> Option<(Seq<char>, Seq<char>)> {
        None
    }

    fn from_bare() -> (r: Option<Point>) {
        None
    }

    fn from(values: &[Vec<char>]) -> (r: Option<Point>) {
        point_from(values[0].as_slice())
    }
}

/// The positions held by a vector of points.
pub open spec fn positions(v: Seq<Point>) -> Seq<(Seq<char>, Seq<char>)> {
    v.map_values(|p: Point| p@)
}

/// Every value read as a point; nothing where one of them is none.
pub open spec fn parse_points(values: Seq<Seq<char>>) -> Option<Seq<(Seq<char>, Seq<char>)>> {
    if forall|i: int| 0 <= i < values.len() ==> parse_point(#[trigger] values[i]) is Some {
        Some(values.map_values(|s: Seq<char>| parse_point(s).unwrap()))
    } else {
        None
    }
}

impl Param for Vec<Point> {
    type Model = Seq<(Seq<char>, Seq<char>)>;

    open spec fn model(&self) -> Seq<(Seq<char>, Seq<char>)> {
        positions(self@)
    }

    open spec fn parsed(values: Seq<Seq<char>>) -> Option<Seq<(Seq<char>, Seq<char>)>> {
        parse_points(values)
    }

    open spec fn bare() -> Option<Seq<(Seq<char>, Seq<char>)>> {
        None
    }

    fn from_bare() -> (r: Option<Vec<Point>>) {
        None
    }

    fn from(values: &[Vec<char>]) -> (r: Option<Vec<Point>>) {
        let mut out: Vec<Point> = Vec::new();
        let mut i: usize = 0;
        let ghost all = texts(values@);
        while i < values.len()
            invariant
                i <= values.len(),
                all == texts(values@),
                forall|k: int| 0 <= k < i ==> parse_point(#[trigger] all[k]) is Some,
                positions(out@) == all.take(i as int).map_values(
                    |s: Seq<char>| parse_point(s).unwrap(),
                ),
            decreases values.len() - i,
        {
            match point_from(values[i].as_slice()) {
                Some(p) => {
                    let ghost before = positions(out@);
                    out.push(p);
                    assert(positions(out@) =~= before.push(p@));
                    assert(all.take(i + 1).map_values(|s: Seq<char>| parse_point(s).unwrap())
                        =~= all.take(i as int).map_values(
                        |s: Seq<char>| parse_point(s).unwrap(),
                    ).push(p@));
                },
                None => {
                    assert(parse_point(all[i as int]) is None);
                    return None;
                },
            }
            i += 1;
        }
        assert(all.take(values.len() as int) =~= all);
        Some(out)
    }
}

} // verus!
