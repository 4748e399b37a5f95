//! Writing protocol lines: the text of each kind of value, and the line made
//! of a keyword and `key=value` fields.

use vstd::prelude::*;
use crate::alignment::Alignment;
use crate::color::Color;
use crate::number::{decimal, push_decimal, push_signed, signed_decimal};
use crate::text::{push_all, texts};

verus! {

/// A pair of numbers as the protocol writes it: `(x,y)`.
pub open spec fn pair_text(p: (Seq<char>, Seq<char>)) -> Seq<char> {
    seq!['('] + p.0 + seq![','] + p.1 + seq![')']
}

/// A pair of counts as the protocol writes it: `(a,b)`.
pub open spec fn dims_text(d: (usize, usize)) -> Seq<char> {
    pair_text((decimal(d.0 as nat), decimal(d.1 as nat)))
}

/// A colour as the protocol writes it: `(r,g,b)` where it is opaque, else
/// `(r,g,b,a)`.
pub open spec fn color_text(c: Color) -> Seq<char> {
    seq!['('] + decimal(c.r as nat) + seq![','] + decimal(c.g as nat) + seq![','] + decimal(
        c.b as nat,
    ) + (if c.a != 255 {
        seq![','] + decimal(c.a as nat)
    } else {
        Seq::empty()
    }) + seq![')']
}

/// An alignment as the protocol writes it: one letter for each axis.
pub open spec fn alignment_text(a: (Alignment, Alignment)) -> Seq<char> {
    seq![a.0.letter(), a.1.letter()]
}

/// A string as the protocol writes it: in double quotes where it holds a
/// blank, else as it is.
pub open spec fn string_text(s: Seq<char>) -> Seq<char> {
    if s.contains(' ') {
        seq!['"'] + s + seq!['"']
    } else {
        s
    }
}

/// A group of fields: a key, and the values written under it, one field for
/// each.
pub type Group = (Seq<char>, Seq<Seq<char>>);

/// The fields of one group: its key paired with each of its values.
pub open spec fn fields_of(g: Group) -> Seq<(Seq<char>, Seq<char>)> {
    g.1.map_values(|v: Seq<char>| (g.0, v))
}

/// The fields of several groups, group after group.
pub open spec fn spread(groups: Seq<Group>) -> Seq<(Seq<char>, Seq<char>)>
    decreases groups.len(),
{
    if groups.len() == 0 {
        Seq::empty()
    } else {
        spread(groups.drop_last()) + fields_of(groups.last())
    }
}

/// Each field written as `key=value` and followed by the separator.
pub open spec fn emit(fields: Seq<(Seq<char>, Seq<char>)>, sep: char) -> Seq<char>
    decreases fields.len(),
{
    if fields.len() == 0 {
        Seq::empty()
    } else {
        emit(fields.drop_last(), sep) + fields.last().0 + seq!['='] + fields.last().1 + seq![sep]
    }
}

/// The line of a figure: the keyword, a blank, each field followed by a
/// blank, and the end of the line.
pub open spec fn figure_line(keyword: Seq<char>, groups: Seq<Group>) -> Seq<char> {
    keyword + seq![' '] + emit(spread(groups), ' ') + seq!['\n']
}

/// The values of one optional field.
pub open spec fn one(v: Option<Seq<char>>) -> Seq<Seq<char>> {
    match v {
        Some(v) => seq![v],
        None => Seq::empty(),
    }
}

/// The values of a flag: `1` where it is set, nothing where it is not.
pub open spec fn flag(b: bool) -> Seq<Seq<char>> {
    if b {
        seq![seq!['1']]
    } else {
        Seq::empty()
    }
}

/// The model of a list of groups.
pub open spec fn groups_view(groups: Seq<(Vec<char>, Vec<Vec<char>>)>) -> Seq<Group> {
    groups.map_values(|g: (Vec<char>, Vec<Vec<char>>)| (g.0@, texts(g.1@)))
}

/// Writes a pair of numbers.
pub fn write_pair(x: &[char], y: &[char]) -> (out: Vec<char>)
    ensures
        out@ == pair_text((x@, y@)),
{
    let mut out: Vec<char> = Vec::new();
    out.push('(');
    push_all(&mut out, x);
    out.push(',');
    push_all(&mut out, y);
    out.push(')');
    assert(out@ =~= pair_text((x@, y@)));
    out
}

/// Writes a pair of counts.
pub fn write_dims(d: (usize, usize)) -> (out: Vec<char>)
    ensures
        out@ == dims_text(d),
{
    let mut a: Vec<char> = Vec::new();
    push_decimal(&mut a, d.0 as u64);
    let mut b: Vec<char> = Vec::new();
    push_decimal(&mut b, d.1 as u64);
    assert(a@ =~= decimal(d.0 as nat));
    assert(b@ =~= decimal(d.1 as nat));
    write_pair(a.as_slice(), b.as_slice())
}

/// Writes a colour.
pub fn write_color(c: Color) -> (out: Vec<char>)
    ensures
        out@ == color_text(c),
{
    let mut out: Vec<char> = Vec::new();
    out.push('(');
    push_decimal(&mut out, c.r as u64);
    out.push(',');
    push_decimal(&mut out, c.g as u64);
    out.push(',');
    push_decimal(&mut out, c.b as u64);
    if c.a != 255 {
        out.push(',');
        push_decimal(&mut out, c.a as u64);
    }
    out.push(')');
    assert(out@ =~= color_text(c));
    out
}

/// Writes an alignment.
pub fn write_alignment(a: (Alignment, Alignment)) -> (out: Vec<char>)
    ensures
        out@ == alignment_text(a),
{
    let mut out: Vec<char> = Vec::new();
    out.push(a.0.to_char());
    out.push(a.1.to_char());
    assert(out@ =~= alignment_text(a));
    out
}

/// Writes a signed integer.
pub fn write_int(n: i32) -> (out: Vec<char>)
    ensures
        out@ == signed_decimal(n as int),
{
    let mut out: Vec<char> = Vec::new();
    push_signed(&mut out, n);
    assert(out@ =~= signed_decimal(n as int));
    out
}

/// Writes a string, in quotes where it holds a blank.
pub fn write_string(s: &[char]) -> (out: Vec<char>)
    ensures
        out@ == string_text(s@),
{
    let mut blank = false;
    let mut i: usize = 0;
    while i < s.len()
        invariant
            i <= s.len(),
            blank == s@.take(i as int).contains(' '),
        decreases s.len() - i,
    {
        proof {
            let t = s@.take(i + 1);
            if s@[i as int] == ' ' || blank {
                if blank {
                    let k = choose|k: int| 0 <= k < i && s@.take(i as int)[k] == ' ';
                    assert(t[k] == ' ');
                } else {
                    assert(t[i as int] == ' ');
                }
            } else if t.contains(' ') {
                let k = choose|k: int| 0 <= k < t.len() && t[k] == ' ';
                assert(s@.take(i as int)[k] == ' ');
            }
        }
        if s[i] == ' ' {
            blank = true;
        }
        i += 1;
    }
    assert(s@.take(s.len() as int) =~= s@);
    let mut out: Vec<char> = Vec::new();
    if blank {
        out.push('"');
        push_all(&mut out, s);
        out.push('"');
        assert(out@ =~= seq!['"'] + s@ + seq!['"']);
    } else {
        push_all(&mut out, s);
        assert(out@ =~= s@);
    }
    out
}

/// The values of one optional field.
pub fn values_one(v: Option<Vec<char>>) -> (out: Vec<Vec<char>>)
    ensures
        texts(out@) == one(
            match v {
                Some(v) => Some(v@),
                None => None,
            },
        ),
{
    let mut out: Vec<Vec<char>> = Vec::new();
    match v {
        Some(v) => {
            out.push(v);
            assert(texts(out@) =~= seq![v@]);
        },
        None => {
            assert(texts(out@) =~= Seq::<Seq<char>>::empty());
        },
    }
    out
}

/// The values of a flag.
pub fn values_flag(b: bool) -> (out: Vec<Vec<char>>)
    ensures
        texts(out@) == flag(b),
{
    let mut out: Vec<Vec<char>> = Vec::new();
    if b {
        let mut v: Vec<char> = Vec::new();
        v.push('1');
        assert(v@ =~= seq!['1']);
        out.push(v);
        assert(texts(out@) =~= seq![seq!['1']]);
    } else {
        assert(texts(out@) =~= Seq::<Seq<char>>::empty());
    }
    out
}

/// Appends each field of the groups as `key=value`, followed by the
/// separator.
pub fn write_fields(out: &mut Vec<char>, groups: &Vec<(Vec<char>, Vec<Vec<char>>)>, sep: char)
    ensures
        final(out)@ == old(out)@ + emit(spread(groups_view(groups@)), sep),
{
    let ghost all = groups_view(groups@);
    let mut i: usize = 0;
    assert(all.take(0) =~= Seq::<Group>::empty());
    assert(old(out)@ + emit(spread(all.take(0)), sep) =~= old(out)@);
    while i < groups.len()
        invariant
            i <= groups.len(),
            all == groups_view(groups@),
            out@ == old(out)@ + emit(spread(all.take(i as int)), sep),
        decreases groups.len() - i,
    {
        let key = &groups[i].0;
        let values = &groups[i].1;
        let ghost done = spread(all.take(i as int));
        let ghost g = all[i as int];
        assert(g == (key@, texts(values@)));
        let mut j: usize = 0;
        assert(fields_of(g).take(0) =~= Seq::<(Seq<char>, Seq<char>)>::empty());
        assert(done + fields_of(g).take(0) =~= done);
        while j < values.len()
            invariant
                j <= values.len(),
                g == (key@, texts(values@)),
                out@ == old(out)@ + emit(done + fields_of(g).take(j as int), sep),
            decreases values.len() - j,
        {
            let ghost before = done + fields_of(g).take(j as int);
            let ghost after = done + fields_of(g).take(j + 1);
            assert(after.drop_last() =~= before);
            assert(after.last() == (key@, values@[j as int]@));
            push_all(out, key.as_slice());
            out.push('=');
            push_all(out, values[j].as_slice());
            out.push(sep);
            assert(out@ =~= old(out)@ + emit(after, sep));
            j += 1;
        }
        proof {
            assert(fields_of(g).take(values.len() as int) =~= fields_of(g));
            assert(all.take(i + 1).drop_last() =~= all.take(i as int));
            assert(all.take(i + 1).last() == g);
        }
        i += 1;
    }
    assert(all.take(groups.len() as int) =~= all);
}

/// Writes the line of a figure.
pub fn write_line(keyword: &[char], groups: &Vec<(Vec<char>, Vec<Vec<char>>)>) -> (out: Vec<char>)
    ensures
        out@ == figure_line(keyword@, groups_view(groups@)),
{
    let mut out: Vec<char> = Vec::new();
    push_all(&mut out, keyword);
    out.push(' ');
    write_fields(&mut out, groups, ' ');
    out.push('\n');
    assert(out@ =~= figure_line(keyword@, groups_view(groups@)));
    out
}

} // verus!
