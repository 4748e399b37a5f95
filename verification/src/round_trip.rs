//! Reading back what was written: a line made by a builder of
//! [`client`](crate::client) denotes, to the reader of
//! [`figure`](crate::figure), the figure that the builder described.

use vstd::prelude::*;
use crate::alignment::Alignment;
use crate::app_data::DrawPropertiesView;
use crate::client::{
    message_line, opt_alignment, opt_color, opt_dims, opt_int, opt_point, opt_scalar, opt_string,
    points, strings, Circle, Grid, Line, Poly, Rect, Rviewerable, Text,
};
use crate::color::Color;
use crate::encode::{
    alignment_text, color_text, dims_text, emit, fields_of, figure_line, flag, pair_text, spread,
    string_text, Group,
};
use crate::figure::circle::{circle_of, MCircleView};
use crate::figure::common::plain as plain_block;
use crate::figure::common::{alignment_of, common_of, CommonView};
use crate::figure::grid::{grid_of, MGridView};
use crate::figure::line::{line_of, MLineView};
use crate::figure::message::MMessageView;
use crate::figure::poly::{poly_of, MPolyView};
use crate::figure::rect::{rect_of, MRectView};
use crate::figure::text::{marker_from, softened, text_of, text_parts, MTextView};
use crate::figure::{
    decode, kind_of, word_circle, word_grid, word_line, word_msg, word_poly, word_rect, word_text,
    FigureView, Kind,
};
use crate::number::{
    all_digits, decimal, digit_run, exponent_at, is_decimal, is_digit, is_number, is_special,
    lemma_decimal_round_trip, lower, parse_i32, parse_unsigned, signed_decimal, spells, Scalar,
};
use crate::parse::{
    entries_of, fields, is_bare, labels, origin, pair_of, parse_bool, parse_chars, parse_color,
    parse_dims, parse_point, positions, read_flag, read_opt, read_or, values_of, Point,
};
use crate::text::{is_space, lemma_find, lemma_tokens_word, pieces, space_free, tokens};

verus! {

/// No character of `s` is whitespace or `=`.
pub open spec fn plain(s: Seq<char>) -> bool {
    forall|i: int| 0 <= i < s.len() ==> !is_space(#[trigger] s[i]) && s[i] != '='
}

/// A text that can stand as a key or as a value: not empty, and [`plain`].
pub open spec fn word(s: Seq<char>) -> bool {
    s.len() > 0 && plain(s)
}

/// Every key is plain, every value is a word, and no key occurs twice.
pub open spec fn writable(groups: Seq<Group>) -> bool {
    &&& forall|i: int| 0 <= i < groups.len() ==> plain((#[trigger] groups[i]).0)
    &&& forall|i: int, k: int|
        0 <= i < groups.len() && 0 <= k < groups[i].1.len() ==> word(#[trigger] groups[i].1[k])
    &&& forall|i: int, j: int|
        0 <= i < j < groups.len() ==> (#[trigger] groups[i]).0 != (#[trigger] groups[j]).0
}

/// A written line as it is taken: with its line end, or without it, as a
/// reader receives it that takes its input line by line.
pub open spec fn taken(line: Seq<char>, ended: bool) -> Seq<char> {
    if ended {
        line
    } else {
        line.drop_last()
    }
}

/// Every field has a plain key and a word for its value.
spec fn clean(fields: Seq<(Seq<char>, Seq<char>)>) -> bool {
    forall|i: int|
        0 <= i < fields.len() ==> plain((#[trigger] fields[i]).0) && word(fields[i].1)
}

/// The token of each field.
spec fn written(fields: Seq<(Seq<char>, Seq<char>)>) -> Seq<Seq<char>> {
    fields.map_values(|f: (Seq<char>, Seq<char>)| f.0 + seq!['='] + f.1)
}

proof fn lemma_tokens_concat(a: Seq<char>, b: Seq<char>)
    requires
        a.len() == 0 || is_space(a.last()),
    ensures
        tokens(a + b) == tokens(a) + tokens(b),
    decreases a.len(),
{
    if a.len() == 0 {
        assert(a + b =~= b);
        assert(tokens(a) + tokens(b) =~= tokens(b));
    } else {
        let s = a + b;
        let a1 = a.drop_first();
        assert(s.drop_first() =~= a1 + b);
        assert(s[0] == a[0]);
        if a1.len() > 0 {
            assert(a1.last() == a.last());
            assert(s[1] == a[1]);
        }
        lemma_tokens_concat(a1, b);
        if is_space(a[0]) {
        } else {
            assert(a1.len() > 0);
            let rest = tokens(a1);
            if !is_space(a[1]) {
                assert(a1[0] == a[1]);
                assert(rest.len() > 0);
                assert((rest + tokens(b))[0] == rest[0]);
                assert((rest + tokens(b)).drop_first() =~= rest.drop_first() + tokens(b));
                assert(tokens(s) =~= tokens(a) + tokens(b));
            } else {
                assert(tokens(s) =~= tokens(a) + tokens(b));
            }
        }
    }
}

proof fn lemma_tokens_blank(c: char)
    requires
        is_space(c),
    ensures
        tokens(seq![c]) == Seq::<Seq<char>>::empty(),
{
    let s = seq![c];
    assert(s.drop_first().len() == 0);
    assert(tokens(s.drop_first()) =~= Seq::<Seq<char>>::empty());
    assert(s[0] == c);
}

proof fn lemma_field_token(f: (Seq<char>, Seq<char>))
    requires
        plain(f.0),
        word(f.1),
    ensures
        space_free(f.0 + seq!['='] + f.1),
        pair_of(f.0 + seq!['='] + f.1) == f,
{
    let t = f.0 + seq!['='] + f.1;
    assert forall|i: int| 0 <= i < t.len() implies !is_space(#[trigger] t[i]) by {
        if i < f.0.len() {
            assert(t[i] == f.0[i]);
        } else if i == f.0.len() {
            assert(t[i] == '=');
        } else {
            assert(t[i] == f.1[i - f.0.len() - 1]);
        }
    }
    assert forall|k: int| 0 <= k < f.0.len() implies t[k] != '=' by {
        assert(t[k] == f.0[k]);
    }
    lemma_find(t, '=', f.0.len() as int);
    assert(t.take(f.0.len() as int) =~= f.0);
    assert(t.skip(f.0.len() as int + 1) =~= f.1);
    assert forall|k: int| 0 <= k < f.1.len() implies f.1[k] != '=' by {}
    lemma_find(f.1, '=', f.1.len() as int);
    assert(pieces(f.1, '=') =~= seq![f.1]);
    assert(pieces(t, '=') =~= seq![f.0, f.1]);
}

proof fn lemma_keyword_token(k: Seq<char>)
    requires
        word(k),
    ensures
        space_free(k),
        pair_of(k) == (k, Seq::<char>::empty()),
{
    lemma_find(k, '=', k.len() as int);
    assert(pieces(k, '=') =~= seq![k]);
}

proof fn lemma_emit_tokens(fields: Seq<(Seq<char>, Seq<char>)>)
    requires
        clean(fields),
    ensures
        tokens(emit(fields, ' ')) == written(fields),
        emit(fields, ' ').len() == 0 || is_space(emit(fields, ' ').last()),
    decreases fields.len(),
{
    if fields.len() == 0 {
        assert(written(fields) =~= Seq::<Seq<char>>::empty());
    } else {
        let init = fields.drop_last();
        let f = fields.last();
        assert(clean(init)) by {
            assert forall|i: int| 0 <= i < init.len() implies plain((#[trigger] init[i]).0)
                && word(init[i].1) by {
                assert(init[i] == fields[i]);
            }
        }
        lemma_emit_tokens(init);
        lemma_field_token(f);
        let t = f.0 + seq!['='] + f.1;
        let blank = seq![' '];
        assert(emit(fields, ' ') =~= emit(init, ' ') + (t + blank));
        lemma_tokens_concat(emit(init, ' '), t + blank);
        lemma_tokens_word(t, blank);
        lemma_tokens_blank(' ');
        assert(written(fields) =~= written(init) + seq![t]);
        assert((t + blank).last() == ' ');
    }
}

proof fn lemma_spread_clean(groups: Seq<Group>)
    requires
        writable(groups),
    ensures
        clean(spread(groups)),
    decreases groups.len(),
{
    if groups.len() > 0 {
        let init = groups.drop_last();
        assert(writable(init)) by {
            assert forall|i: int| 0 <= i < init.len() implies plain((#[trigger] init[i]).0) by {
                assert(init[i] == groups[i]);
            }
            assert forall|i: int, k: int|
                0 <= i < init.len() && 0 <= k < init[i].1.len() implies word(
                #[trigger] init[i].1[k],
            ) by {
                assert(init[i] == groups[i]);
            }
            assert forall|i: int, j: int| 0 <= i < j < init.len() implies (#[trigger] init[i]).0
                != (#[trigger] init[j]).0 by {
                assert(init[i] == groups[i] && init[j] == groups[j]);
            }
        }
        lemma_spread_clean(init);
        let g = groups.last();
        let all = spread(groups);
        assert forall|i: int| 0 <= i < all.len() implies plain((#[trigger] all[i]).0) && word(
            all[i].1,
        ) by {
            if i < spread(init).len() {
                assert(all[i] == spread(init)[i]);
            } else {
                let k = i - spread(init).len();
                assert(all[i] == (g.0, g.1[k]));
                assert(word(groups[groups.len() - 1].1[k]));
            }
        }
    }
}

/// The entries of a written line: the keyword without a value, then every
/// field as it was given.
pub proof fn lemma_line_entries(keyword: Seq<char>, groups: Seq<Group>, ended: bool)
    requires
        word(keyword),
        writable(groups),
    ensures
        entries_of(tokens(taken(figure_line(keyword, groups), ended))) == seq![
            (keyword, Seq::<char>::empty()),
        ] + spread(groups),
{
    let fields = spread(groups);
    lemma_spread_clean(groups);
    lemma_emit_tokens(fields);
    lemma_keyword_token(keyword);
    let blank = seq![' '];
    let end = seq!['\n'];
    let head = keyword + blank;
    let body = emit(fields, ' ');
    lemma_tokens_word(keyword, blank);
    lemma_tokens_blank(' ');
    if ended {
        assert(taken(figure_line(keyword, groups), ended) =~= head + (body + end));
        lemma_tokens_concat(head, body + end);
        lemma_tokens_concat(body, end);
        lemma_tokens_blank('\n');
        assert(tokens(body + end) =~= tokens(body));
    } else {
        assert(taken(figure_line(keyword, groups), ended) =~= head + body);
        lemma_tokens_concat(head, body);
    }
    let toks = tokens(taken(figure_line(keyword, groups), ended));
    assert(toks =~= seq![keyword] + written(fields));
    let entries = entries_of(toks);
    let expected = seq![(keyword, Seq::<char>::empty())] + fields;
    assert(entries.len() == expected.len());
    assert forall|i: int| 0 <= i < entries.len() implies entries[i] == expected[i] by {
        if i == 0 {
            assert(toks[0] == keyword);
        } else {
            assert(toks[i] == fields[i - 1].0 + seq!['='] + fields[i - 1].1);
            lemma_field_token(fields[i - 1]);
        }
    }
    assert(entries =~= expected);
}

proof fn lemma_values_concat(
    a: Seq<(Seq<char>, Seq<char>)>,
    b: Seq<(Seq<char>, Seq<char>)>,
    name: Seq<char>,
)
    ensures
        values_of(a + b, name) == values_of(a, name) + values_of(b, name),
    decreases b.len(),
{
    if b.len() == 0 {
        assert(a + b =~= a);
        assert(values_of(a, name) + values_of(b, name) =~= values_of(a, name));
    } else {
        assert((a + b).drop_last() =~= a + b.drop_last());
        assert((a + b).last() == b.last());
        lemma_values_concat(a, b.drop_last(), name);
        if b.last().0 == name && b.last().1.len() > 0 {
            assert((values_of(a, name) + values_of(b.drop_last(), name)).push(b.last().1)
                =~= values_of(a, name) + values_of(b, name));
        }
    }
}

proof fn lemma_values_group(g: Group, name: Seq<char>)
    requires
        forall|k: int| 0 <= k < g.1.len() ==> (#[trigger] g.1[k]).len() > 0,
    ensures
        values_of(fields_of(g), name) == if g.0 == name {
            g.1
        } else {
            Seq::<Seq<char>>::empty()
        },
    decreases g.1.len(),
{
    let fs = fields_of(g);
    if g.1.len() == 0 {
        assert(g.1 =~= Seq::<Seq<char>>::empty());
    } else {
        let g1 = (g.0, g.1.drop_last());
        assert(fs.drop_last() =~= fields_of(g1));
        assert(fs.last() == (g.0, g.1.last()));
        assert forall|k: int| 0 <= k < g1.1.len() implies (#[trigger] g1.1[k]).len() > 0 by {
            assert(g1.1[k] == g.1[k]);
        }
        lemma_values_group(g1, name);
        if g.0 == name {
            assert(g.1.last().len() > 0);
            assert(g1.1.push(g.1.last()) =~= g.1);
        }
    }
}

proof fn lemma_values_spread(groups: Seq<Group>, name: Seq<char>)
    requires
        writable(groups),
    ensures
        (forall|i: int| 0 <= i < groups.len() ==> (#[trigger] groups[i]).0 != name) ==> values_of(
            spread(groups),
            name,
        ) == Seq::<Seq<char>>::empty(),
        forall|j: int|
            0 <= j < groups.len() && (#[trigger] groups[j]).0 == name ==> values_of(
                spread(groups),
                name,
            ) == groups[j].1,
    decreases groups.len(),
{
    if groups.len() > 0 {
        let init = groups.drop_last();
        let g = groups.last();
        assert(writable(init)) by {
            assert forall|i: int| 0 <= i < init.len() implies plain((#[trigger] init[i]).0) by {
                assert(init[i] == groups[i]);
            }
            assert forall|i: int, k: int|
                0 <= i < init.len() && 0 <= k < init[i].1.len() implies word(
                #[trigger] init[i].1[k],
            ) by {
                assert(init[i] == groups[i]);
            }
            assert forall|i: int, j: int| 0 <= i < j < init.len() implies (#[trigger] init[i]).0
                != (#[trigger] init[j]).0 by {
                assert(init[i] == groups[i] && init[j] == groups[j]);
            }
        }
        lemma_values_spread(init, name);
        lemma_values_concat(spread(init), fields_of(g), name);
        assert forall|k: int| 0 <= k < g.1.len() implies (#[trigger] g.1[k]).len() > 0 by {
            assert(word(groups[groups.len() - 1].1[k]));
        }
        lemma_values_group(g, name);
        if forall|i: int| 0 <= i < groups.len() ==> (#[trigger] groups[i]).0 != name {
            assert forall|i: int| 0 <= i < init.len() implies (#[trigger] init[i]).0 != name by {
                assert(init[i] == groups[i]);
            }
            assert(groups[groups.len() - 1].0 != name);
            assert(values_of(spread(groups), name) =~= Seq::<Seq<char>>::empty());
        }
        assert forall|j: int| 0 <= j < groups.len() && (#[trigger] groups[j]).0 == name implies values_of(
            spread(groups),
            name,
        ) == groups[j].1 by {
            if j == groups.len() - 1 {
                assert forall|i: int| 0 <= i < init.len() implies (#[trigger] init[i]).0
                    != name by {
                    assert(init[i] == groups[i]);
                    assert(groups[i].0 != groups[j].0);
                }
                assert(values_of(spread(groups), name) =~= g.1);
            } else {
                assert(init[j] == groups[j]);
                assert(groups[j].0 != groups[groups.len() - 1].0);
                assert(values_of(spread(groups), name) =~= groups[j].1);
            }
        }
    }
}

/// What a written line gives for a key: the values of the group with that
/// key, and nothing for a key that no group has. No key stands bare.
pub proof fn lemma_line_values(
    keyword: Seq<char>,
    groups: Seq<Group>,
    ended: bool,
    name: Seq<char>,
)
    requires
        word(keyword),
        writable(groups),
        name != keyword,
    ensures
        ({
            let entries = entries_of(tokens(taken(figure_line(keyword, groups), ended)));
            &&& !is_bare(entries, name)
            &&& (forall|i: int| 0 <= i < groups.len() ==> (#[trigger] groups[i]).0 != name)
                ==> values_of(entries, name) == Seq::<Seq<char>>::empty()
            &&& forall|j: int|
                0 <= j < groups.len() && (#[trigger] groups[j]).0 == name ==> values_of(
                    entries,
                    name,
                ) == groups[j].1
        }),
{
    lemma_line_entries(keyword, groups, ended);
    let first = seq![(keyword, Seq::<char>::empty())];
    let fields = spread(groups);
    let entries = first + fields;
    lemma_values_concat(first, fields, name);
    assert(values_of(first, name) =~= Seq::<Seq<char>>::empty()) by {
        assert(first.drop_last().len() == 0);
        assert(values_of(first.drop_last(), name) =~= Seq::<Seq<char>>::empty());
        assert(first.last().1.len() == 0);
    }
    lemma_values_spread(groups, name);
    assert(values_of(first, name) + values_of(fields, name) =~= values_of(fields, name));
    lemma_spread_clean(groups);
    assert(!is_bare(entries, name)) by {
        if is_bare(entries, name) {
            let i = choose|i: int|
                0 <= i < entries.len() && #[trigger] entries[i] == (name, Seq::<char>::empty());
            if i > 0 {
                assert(entries[i] == fields[i - 1]);
                assert(word(fields[i - 1].1));
            }
        }
    }
}

/// A character that can stand inside a value of a tuple: no whitespace, no
/// `=`, no comma.
pub open spec fn safe(c: char) -> bool {
    !is_space(c) && c != '=' && c != ','
}

/// Every character of `s` is [`safe`].
pub open spec fn all_safe(s: Seq<char>) -> bool {
    forall|i: int| 0 <= i < s.len() ==> safe(#[trigger] s[i])
}

proof fn lemma_digit_run(s: Seq<char>, i: int)
    requires
        0 <= i <= s.len(),
    ensures
        i <= digit_run(s, i) <= s.len(),
        forall|k: int| i <= k < digit_run(s, i) ==> is_digit(#[trigger] s[k]),
    decreases s.len() - i,
{
    if i < s.len() && is_digit(s[i]) {
        lemma_digit_run(s, i + 1);
    }
}

proof fn lemma_decimal_safe(s: Seq<char>)
    requires
        is_decimal(s),
    ensures
        s.len() > 0,
        all_safe(s),
{
    let a = digit_run(s, 0);
    lemma_digit_run(s, 0);
    let dot = a < s.len() && s[a] == '.';
    if dot {
        lemma_digit_run(s, a + 1);
    }
    let b = if dot {
        digit_run(s, a + 1)
    } else {
        a
    };
    if b < s.len() {
        assert(exponent_at(s, b));
        let c = if b + 1 < s.len() && (s[b + 1] == '+' || s[b + 1] == '-') {
            b + 2
        } else {
            b + 1
        };
        lemma_digit_run(s, c);
    }
    assert forall|i: int| 0 <= i < s.len() implies safe(#[trigger] s[i]) by {
        let c = s[i];
        assert(is_digit(c) || c == '.' || c == 'e' || c == 'E' || c == '+' || c == '-');
    }
}

proof fn lemma_special_safe(s: Seq<char>)
    requires
        is_special(s),
    ensures
        s.len() > 0,
        all_safe(s),
{
    assert forall|i: int| 0 <= i < s.len() implies safe(#[trigger] s[i]) by {
        let c = s[i];
        let l = lower(c);
        let inf = seq!['i', 'n', 'f'];
        let nan = seq!['n', 'a', 'n'];
        let infinity = seq!['i', 'n', 'f', 'i', 'n', 'i', 't', 'y'];
        if spells(s, inf) {
            assert(l == inf[i]);
        } else if spells(s, nan) {
            assert(l == nan[i]);
        } else {
            assert(l == infinity[i]);
        }
        assert('a' <= l <= 'z');
        assert(('a' <= c <= 'z') || ('A' <= c <= 'Z'));
    }
}

/// A number literal is not empty and holds no whitespace, `=` or comma.
pub proof fn lemma_number_safe(s: Seq<char>)
    requires
        is_number(s),
    ensures
        s.len() > 0,
        all_safe(s),
        word(s),
{
    let signed = s.len() > 0 && (s[0] == '+' || s[0] == '-');
    let body = if signed {
        s.skip(1)
    } else {
        s
    };
    if is_decimal(body) {
        lemma_decimal_safe(body);
    } else {
        lemma_special_safe(body);
    }
    assert forall|i: int| 0 <= i < s.len() implies safe(#[trigger] s[i]) by {
        if signed {
            if i > 0 {
                assert(s[i] == body[i - 1]);
            }
        }
    }
}

proof fn lemma_digits_safe(n: nat)
    ensures
        decimal(n).len() > 0,
        all_safe(decimal(n)),
        all_digits(decimal(n)),
        decimal(n)[0] != '+',
        decimal(n)[0] != '-',
{
    lemma_decimal_round_trip(n);
    let s = decimal(n);
    assert(is_digit(s[0]));
    assert forall|i: int| 0 <= i < s.len() implies safe(#[trigger] s[i]) by {
        assert(is_digit(s[i]));
    }
}

proof fn lemma_pieces_one(x: Seq<char>, sep: char)
    requires
        forall|i: int| 0 <= i < x.len() ==> x[i] != sep,
    ensures
        pieces(x, sep) == seq![x],
{
    lemma_find(x, sep, x.len() as int);
}

proof fn lemma_pieces_more(x: Seq<char>, rest: Seq<char>, sep: char)
    requires
        forall|i: int| 0 <= i < x.len() ==> x[i] != sep,
    ensures
        pieces(x + seq![sep] + rest, sep) == seq![x] + pieces(rest, sep),
{
    let t = x + seq![sep] + rest;
    assert forall|k: int| 0 <= k < x.len() implies t[k] != sep by {
        assert(t[k] == x[k]);
    }
    assert(t[x.len() as int] == sep);
    lemma_find(t, sep, x.len() as int);
    assert(t.take(x.len() as int) =~= x);
    assert(t.skip(x.len() as int + 1) =~= rest);
}

proof fn lemma_pair_fields(x: Seq<char>, y: Seq<char>)
    requires
        all_safe(x),
        all_safe(y),
    ensures
        fields(pair_text((x, y))) == Some(seq![x, y]),
        word(pair_text((x, y))),
{
    let t = pair_text((x, y));
    assert(t.subrange(1, t.len() - 1) =~= x + seq![','] + y);
    lemma_pieces_one(y, ',');
    lemma_pieces_more(x, y, ',');
    assert(seq![x] + seq![y] =~= seq![x, y]);
    assert forall|i: int| 0 <= i < t.len() implies !is_space(#[trigger] t[i]) && t[i] != '=' by {
        if i == 0 {
        } else if i <= x.len() {
            assert(t[i] == x[i - 1]);
        } else if i == x.len() + 1 {
        } else if i <= x.len() + 1 + y.len() {
            assert(t[i] == y[i - x.len() - 2]);
        } else {
        }
    }
}

/// A written pair of numbers reads back as the pair.
pub proof fn lemma_point_round_trip(p: (Seq<char>, Seq<char>))
    requires
        is_number(p.0),
        is_number(p.1),
    ensures
        parse_point(pair_text(p)) == Some(p),
        word(pair_text(p)),
{
    lemma_number_safe(p.0);
    lemma_number_safe(p.1);
    lemma_pair_fields(p.0, p.1);
}

proof fn lemma_unsigned_round_trip(n: nat, max: nat)
    requires
        n <= max,
    ensures
        parse_unsigned(decimal(n), max) == Some(n),
{
    lemma_digits_safe(n);
    lemma_decimal_round_trip(n);
}

/// Written columns and rows read back as they were.
pub proof fn lemma_dims_round_trip(d: (usize, usize))
    ensures
        parse_dims(dims_text(d)) == Some(d),
        word(dims_text(d)),
{
    lemma_digits_safe(d.0 as nat);
    lemma_digits_safe(d.1 as nat);
    lemma_pair_fields(decimal(d.0 as nat), decimal(d.1 as nat));
    lemma_unsigned_round_trip(d.0 as nat, usize::MAX as nat);
    lemma_unsigned_round_trip(d.1 as nat, usize::MAX as nat);
}

proof fn lemma_bracket_fields(inner: Seq<char>)
    ensures
        fields(seq!['('] + inner + seq![')']) == Some(pieces(inner, ',')),
{
    let t = seq!['('] + inner + seq![')'];
    assert(t.subrange(1, t.len() - 1) =~= inner);
}

proof fn lemma_list_three(r: Seq<char>, g: Seq<char>, b: Seq<char>)
    requires
        all_safe(r),
        all_safe(g),
        all_safe(b),
    ensures
        pieces(r + seq![','] + (g + seq![','] + b), ',') == seq![r, g, b],
{
    let comma = seq![','];
    lemma_pieces_one(b, ',');
    lemma_pieces_more(g, b, ',');
    lemma_pieces_more(r, g + comma + b, ',');
    assert(seq![r] + (seq![g] + seq![b]) =~= seq![r, g, b]);
}

proof fn lemma_list_four(r: Seq<char>, g: Seq<char>, b: Seq<char>, a: Seq<char>)
    requires
        all_safe(r),
        all_safe(g),
        all_safe(b),
        all_safe(a),
    ensures
        pieces(r + seq![','] + (g + seq![','] + (b + seq![','] + a)), ',') == seq![r, g, b, a],
{
    let comma = seq![','];
    lemma_list_three(g, b, a);
    lemma_pieces_more(r, g + comma + (b + comma + a), ',');
    assert(seq![r] + seq![g, b, a] =~= seq![r, g, b, a]);
}

/// The channels of a colour between commas.
spec fn channels(c: Color) -> Seq<char> {
    let r = decimal(c.r as nat);
    let g = decimal(c.g as nat);
    let b = decimal(c.b as nat);
    let a = decimal(c.a as nat);
    if c.a != 255 {
        r + seq![','] + (g + seq![','] + (b + seq![','] + a))
    } else {
        r + seq![','] + (g + seq![','] + b)
    }
}

proof fn lemma_channels(c: Color)
    ensures
        color_text(c) == seq!['('] + channels(c) + seq![')'],
        forall|i: int|
            0 <= i < channels(c).len() ==> is_digit(#[trigger] channels(c)[i]) || channels(c)[i]
                == ',',
        pieces(channels(c), ',') == if c.a != 255 {
            seq![decimal(c.r as nat), decimal(c.g as nat), decimal(c.b as nat), decimal(c.a as nat)]
        } else {
            seq![decimal(c.r as nat), decimal(c.g as nat), decimal(c.b as nat)]
        },
{
    let r = decimal(c.r as nat);
    let g = decimal(c.g as nat);
    let b = decimal(c.b as nat);
    let a = decimal(c.a as nat);
    lemma_digits_safe(c.r as nat);
    lemma_digits_safe(c.g as nat);
    lemma_digits_safe(c.b as nat);
    lemma_digits_safe(c.a as nat);
    assert(color_text(c) =~= seq!['('] + channels(c) + seq![')']);
    let t = channels(c);
    if c.a != 255 {
        lemma_list_four(r, g, b, a);
        assert forall|i: int| 0 <= i < t.len() implies is_digit(#[trigger] t[i]) || t[i]
            == ',' by {
            if i < r.len() {
                assert(t[i] == r[i]);
            } else if i == r.len() {
            } else if i < r.len() + 1 + g.len() {
                assert(t[i] == g[i - r.len() - 1]);
            } else if i == r.len() + 1 + g.len() {
            } else if i < r.len() + 1 + g.len() + 1 + b.len() {
                assert(t[i] == b[i - r.len() - g.len() - 2]);
            } else if i == r.len() + 1 + g.len() + 1 + b.len() {
            } else {
                assert(t[i] == a[i - r.len() - g.len() - b.len() - 3]);
            }
        }
    } else {
        lemma_list_three(r, g, b);
        assert forall|i: int| 0 <= i < t.len() implies is_digit(#[trigger] t[i]) || t[i]
            == ',' by {
            if i < r.len() {
                assert(t[i] == r[i]);
            } else if i == r.len() {
            } else if i < r.len() + 1 + g.len() {
                assert(t[i] == g[i - r.len() - 1]);
            } else if i == r.len() + 1 + g.len() {
            } else {
                assert(t[i] == b[i - r.len() - g.len() - 2]);
            }
        }
    }
}

/// A written colour reads back as it was.
pub proof fn lemma_color_round_trip(c: Color)
    ensures
        parse_color(color_text(c)) == Some(c),
        word(color_text(c)),
{
    lemma_channels(c);
    lemma_bracket_fields(channels(c));
    lemma_wrapped_word(channels(c));
    lemma_unsigned_round_trip(c.r as nat, 255);
    lemma_unsigned_round_trip(c.g as nat, 255);
    lemma_unsigned_round_trip(c.b as nat, 255);
    lemma_unsigned_round_trip(c.a as nat, 255);
}

/// A text of digits and commas in brackets is a word.
proof fn lemma_wrapped_word(inner: Seq<char>)
    requires
        forall|i: int| 0 <= i < inner.len() ==> is_digit(#[trigger] inner[i]) || inner[i] == ',',
    ensures
        word(seq!['('] + inner + seq![')']),
{
    let t = seq!['('] + inner + seq![')'];
    assert forall|i: int| 0 <= i < t.len() implies !is_space(#[trigger] t[i]) && t[i] != '=' by {
        if 0 < i <= inner.len() {
            assert(t[i] == inner[i - 1]);
        }
    }
}

/// A written integer reads back as it was.
pub proof fn lemma_int_round_trip(n: i32)
    ensures
        parse_i32(signed_decimal(n as int)) == Some(n),
        word(signed_decimal(n as int)),
{
    let s = signed_decimal(n as int);
    if n < 0 {
        let m = (-n) as nat;
        lemma_digits_safe(m);
        lemma_decimal_round_trip(m);
        assert(s.skip(1) =~= decimal(m));
        assert(s[0] == '-');
        assert forall|i: int| 0 <= i < s.len() implies !is_space(#[trigger] s[i]) && s[i]
            != '=' by {
            if i > 0 {
                assert(s[i] == decimal(m)[i - 1]);
            }
        }
    } else {
        lemma_digits_safe(n as nat);
        lemma_unsigned_round_trip(n as nat, 0x7fff_ffff);
    }
}

/// A written alignment reads back as it was.
pub proof fn lemma_alignment_round_trip(a: (Alignment, Alignment))
    ensures
        parse_chars(alignment_text(a)) == Some((a.0.letter(), a.1.letter())),
        Alignment::of_letter(a.0.letter()) == Some(a.0),
        Alignment::of_letter(a.1.letter()) == Some(a.1),
        word(alignment_text(a)),
{
    let t = alignment_text(a);
    assert(t[0] == a.0.letter() && t[1] == a.1.letter());
}

/// An optional pair of numbers that is absent or holds two number literals.
pub open spec fn point_ok(v: Option<Point>) -> bool {
    v is Some ==> is_number(v.unwrap().x@) && is_number(v.unwrap().y@)
}

/// An optional number that is absent or a number literal.
pub open spec fn scalar_ok(v: Option<Scalar>) -> bool {
    v is Some ==> is_number(v.unwrap()@)
}

/// An optional name that is absent or a word.
pub open spec fn name_ok(v: Option<String>) -> bool {
    v is Some ==> word(v.unwrap()@)
}

/// Names that are all words.
pub open spec fn names_ok(v: Seq<String>) -> bool {
    forall|i: int| 0 <= i < v.len() ==> word(#[trigger] v[i]@)
}

/// Points that all hold two number literals.
pub open spec fn points_ok(v: Seq<Point>) -> bool {
    forall|i: int| 0 <= i < v.len() ==> is_number((#[trigger] v[i]).x@) && is_number(v[i].y@)
}

/// The value of an optional pair, or a default.
pub open spec fn point_or(v: Option<Point>, default: (Seq<char>, Seq<char>)) -> (
    Seq<char>,
    Seq<char>,
) {
    match v {
        Some(p) => p@,
        None => default,
    }
}

/// The value of an optional number, or a default.
pub open spec fn scalar_or(v: Option<Scalar>, default: Seq<char>) -> Seq<char> {
    match v {
        Some(x) => x@,
        None => default,
    }
}

/// The common block that a reader makes of what a builder was told.
pub open spec fn common_read(
    color: Option<Color>,
    tag: Seq<String>,
    keep: bool,
    id: Option<i32>,
    func: Option<String>,
) -> CommonView {
    CommonView {
        color: match color {
            Some(c) => c,
            None => Color::black(),
        },
        tags: labels(tag),
        keep,
        id,
        func: match func {
            Some(f) => Some(f@),
            None => None,
        },
    }
}

/// The alignment that a reader makes of what a builder was told.
pub open spec fn alignment_read(v: Option<(Alignment, Alignment)>) -> (Alignment, Alignment) {
    match v {
        Some(a) => a,
        None => (Alignment::Center, Alignment::Center),
    }
}

proof fn lemma_word_unquoted(s: Seq<char>)
    requires
        word(s),
    ensures
        string_text(s) == s,
{
    if s.contains(' ') {
        let i = choose|i: int| 0 <= i < s.len() && s[i] == ' ';
        assert(is_space(s[i]));
    }
}

proof fn lemma_read_point(
    keyword: Seq<char>,
    groups: Seq<Group>,
    ended: bool,
    j: int,
    v: Option<Point>,
    default: (Seq<char>, Seq<char>),
)
    requires
        word(keyword),
        writable(groups),
        0 <= j < groups.len(),
        groups[j].0 != keyword,
        groups[j].1 == opt_point(v),
        point_ok(v),
    ensures
        read_or::<Point>(
            entries_of(tokens(taken(figure_line(keyword, groups), ended))),
            groups[j].0,
            default,
        ) == Some(point_or(v, default)),
{
    lemma_line_values(keyword, groups, ended, groups[j].0);
    match v {
        Some(p) => {
            lemma_point_round_trip(p@);
        },
        None => {},
    }
}

proof fn lemma_read_arc(
    keyword: Seq<char>,
    groups: Seq<Group>,
    ended: bool,
    j: int,
    v: Option<Point>,
)
    requires
        word(keyword),
        writable(groups),
        0 <= j < groups.len(),
        groups[j].0 != keyword,
        groups[j].1 == opt_point(v),
        point_ok(v),
    ensures
        read_opt::<Point>(entries_of(tokens(taken(figure_line(keyword, groups), ended))), groups[j].0) == Some(
            match v {
                Some(p) => Some(p@),
                None => None,
            },
        ),
{
    lemma_line_values(keyword, groups, ended, groups[j].0);
    match v {
        Some(p) => {
            lemma_point_round_trip(p@);
        },
        None => {},
    }
}

proof fn lemma_read_scalar(
    keyword: Seq<char>,
    groups: Seq<Group>,
    ended: bool,
    j: int,
    v: Option<Scalar>,
    default: Seq<char>,
)
    requires
        word(keyword),
        writable(groups),
        0 <= j < groups.len(),
        groups[j].0 != keyword,
        groups[j].1 == opt_scalar(v),
        scalar_ok(v),
    ensures
        read_or::<Scalar>(
            entries_of(tokens(taken(figure_line(keyword, groups), ended))),
            groups[j].0,
            default,
        ) == Some(scalar_or(v, default)),
{
    lemma_line_values(keyword, groups, ended, groups[j].0);
}

proof fn lemma_read_dims(
    keyword: Seq<char>,
    groups: Seq<Group>,
    ended: bool,
    j: int,
    v: Option<(usize, usize)>,
    default: (usize, usize),
)
    requires
        word(keyword),
        writable(groups),
        0 <= j < groups.len(),
        groups[j].0 != keyword,
        groups[j].1 == opt_dims(v),
    ensures
        read_or::<(usize, usize)>(
            entries_of(tokens(taken(figure_line(keyword, groups), ended))),
            groups[j].0,
            default,
        ) == Some(
            match v {
                Some(d) => d,
                None => default,
            },
        ),
{
    lemma_line_values(keyword, groups, ended, groups[j].0);
    match v {
        Some(d) => {
            lemma_dims_round_trip(d);
        },
        None => {},
    }
}

proof fn lemma_read_flag(keyword: Seq<char>, groups: Seq<Group>, ended: bool, j: int, b: bool)
    requires
        word(keyword),
        writable(groups),
        0 <= j < groups.len(),
        groups[j].0 != keyword,
        groups[j].1 == flag(b),
    ensures
        read_flag(entries_of(tokens(taken(figure_line(keyword, groups), ended))), groups[j].0) == Some(b),
{
    lemma_line_values(keyword, groups, ended, groups[j].0);
    if b {
        let one = seq!['1'];
        assert(flag(b)[0] == one);
        assert(one[0] != seq!['0'][0]);
        assert(parse_bool(one) == Some(true));
    }
}

proof fn lemma_read_alignment(
    keyword: Seq<char>,
    groups: Seq<Group>,
    ended: bool,
    j: int,
    v: Option<(Alignment, Alignment)>,
)
    requires
        word(keyword),
        writable(groups),
        0 <= j < groups.len(),
        groups[j].0 != keyword,
        groups[j].0 == seq!['a'],
        groups[j].1 == opt_alignment(v),
    ensures
        alignment_of(entries_of(tokens(taken(figure_line(keyword, groups), ended)))) == Some(alignment_read(v)),
{
    lemma_line_values(keyword, groups, ended, groups[j].0);
    match v {
        Some(a) => {
            lemma_alignment_round_trip(a);
        },
        None => {},
    }
}

proof fn lemma_read_points(
    keyword: Seq<char>,
    groups: Seq<Group>,
    ended: bool,
    j: int,
    v: Seq<Point>,
)
    requires
        word(keyword),
        writable(groups),
        0 <= j < groups.len(),
        groups[j].0 != keyword,
        groups[j].1 == points(v),
        points_ok(v),
    ensures
        read_or::<Vec<Point>>(
            entries_of(tokens(taken(figure_line(keyword, groups), ended))),
            groups[j].0,
            Seq::empty(),
        ) == Some(positions(v)),
{
    lemma_line_values(keyword, groups, ended, groups[j].0);
    let values = points(v);
    if values.len() > 0 {
        assert forall|i: int| 0 <= i < values.len() implies parse_point(#[trigger] values[i])
            == Some(v[i]@) by {
            lemma_point_round_trip(v[i]@);
        }
        assert(values.map_values(|s: Seq<char>| parse_point(s).unwrap()) =~= positions(v));
    } else {
        assert(positions(v) =~= Seq::<(Seq<char>, Seq<char>)>::empty());
    }
}

proof fn lemma_read_color(
    keyword: Seq<char>,
    groups: Seq<Group>,
    ended: bool,
    j: int,
    v: Option<Color>,
)
    requires
        word(keyword),
        writable(groups),
        0 <= j < groups.len(),
        groups[j].0 != keyword,
        groups[j].1 == opt_color(v),
    ensures
        read_or::<Color>(
            entries_of(tokens(taken(figure_line(keyword, groups), ended))),
            groups[j].0,
            Color::black(),
        ) == Some(
            match v {
                Some(c) => c,
                None => Color::black(),
            },
        ),
{
    lemma_line_values(keyword, groups, ended, groups[j].0);
    match v {
        Some(c) => {
            lemma_color_round_trip(c);
        },
        None => {},
    }
}

proof fn lemma_read_tags(
    keyword: Seq<char>,
    groups: Seq<Group>,
    ended: bool,
    j: int,
    v: Seq<String>,
)
    requires
        word(keyword),
        writable(groups),
        0 <= j < groups.len(),
        groups[j].0 != keyword,
        groups[j].1 == strings(v),
        names_ok(v),
    ensures
        read_or::<Vec<String>>(
            entries_of(tokens(taken(figure_line(keyword, groups), ended))),
            groups[j].0,
            Seq::empty(),
        ) == Some(labels(v)),
{
    lemma_line_values(keyword, groups, ended, groups[j].0);
    assert(strings(v) =~= labels(v)) by {
        assert forall|i: int| 0 <= i < v.len() implies strings(v)[i] == labels(v)[i] by {
            lemma_word_unquoted(v[i]@);
        }
    }
    if v.len() == 0 {
        assert(labels(v) =~= Seq::<Seq<char>>::empty());
    }
}

proof fn lemma_read_id(
    keyword: Seq<char>,
    groups: Seq<Group>,
    ended: bool,
    j: int,
    v: Option<i32>,
)
    requires
        word(keyword),
        writable(groups),
        0 <= j < groups.len(),
        groups[j].0 != keyword,
        groups[j].1 == opt_int(v),
    ensures
        read_opt::<i32>(
            entries_of(tokens(taken(figure_line(keyword, groups), ended))),
            groups[j].0,
        ) == Some(v),
{
    lemma_line_values(keyword, groups, ended, groups[j].0);
    match v {
        Some(n) => {
            lemma_int_round_trip(n);
        },
        None => {},
    }
}

proof fn lemma_read_name(
    keyword: Seq<char>,
    groups: Seq<Group>,
    ended: bool,
    j: int,
    v: Option<String>,
)
    requires
        word(keyword),
        writable(groups),
        0 <= j < groups.len(),
        groups[j].0 != keyword,
        groups[j].1 == opt_string(v),
        name_ok(v),
    ensures
        read_opt::<String>(
            entries_of(tokens(taken(figure_line(keyword, groups), ended))),
            groups[j].0,
        ) == Some(
            match v {
                Some(f) => Some(f@),
                None => None,
            },
        ),
{
    lemma_line_values(keyword, groups, ended, groups[j].0);
    match v {
        Some(f) => {
            lemma_word_unquoted(f@);
        },
        None => {},
    }
}

proof fn lemma_read_common(
    keyword: Seq<char>,
    groups: Seq<Group>,
    ended: bool,
    at: (int, int, int, int, int),
    color: Option<Color>,
    tag: Seq<String>,
    keep: bool,
    id: Option<i32>,
    func: Option<String>,
)
    requires
        word(keyword),
        writable(groups),
        0 <= at.0 < groups.len() && groups[at.0] == (seq!['c', 'o', 'l'], opt_color(color)),
        0 <= at.1 < groups.len() && groups[at.1] == (seq!['t'], strings(tag)),
        0 <= at.2 < groups.len() && groups[at.2] == (seq!['k'], flag(keep)),
        0 <= at.3 < groups.len() && groups[at.3] == (seq!['i', 'd'], opt_int(id)),
        0 <= at.4 < groups.len() && groups[at.4] == (seq!['f', 'u'], opt_string(func)),
        keyword.len() > 3,
        name_ok(func),
        names_ok(tag),
    ensures
        common_of(entries_of(tokens(taken(figure_line(keyword, groups), ended)))) == Some(
            common_read(color, tag, keep, id, func),
        ),
{
    lemma_read_color(keyword, groups, ended, at.0, color);
    lemma_read_tags(keyword, groups, ended, at.1, tag);
    lemma_read_flag(keyword, groups, ended, at.2, keep);
    lemma_read_id(keyword, groups, ended, at.3, id);
    lemma_read_name(keyword, groups, ended, at.4, func);
}

/// Every value of the group is a word.
spec fn words(values: Seq<Seq<char>>) -> bool {
    forall|k: int| 0 <= k < values.len() ==> word(#[trigger] values[k])
}

proof fn lemma_words_point(v: Option<Point>)
    requires
        point_ok(v),
    ensures
        words(opt_point(v)),
{
    match v {
        Some(p) => {
            lemma_point_round_trip(p@);
        },
        None => {},
    }
}

proof fn lemma_words_scalar(v: Option<Scalar>)
    requires
        scalar_ok(v),
    ensures
        words(opt_scalar(v)),
{
    match v {
        Some(x) => {
            lemma_number_safe(x@);
        },
        None => {},
    }
}

proof fn lemma_words_dims(v: Option<(usize, usize)>)
    ensures
        words(opt_dims(v)),
{
    match v {
        Some(d) => {
            lemma_dims_round_trip(d);
        },
        None => {},
    }
}

proof fn lemma_words_color(v: Option<Color>)
    ensures
        words(opt_color(v)),
{
    match v {
        Some(c) => {
            lemma_color_round_trip(c);
        },
        None => {},
    }
}

proof fn lemma_words_alignment(v: Option<(Alignment, Alignment)>)
    ensures
        words(opt_alignment(v)),
{
    match v {
        Some(a) => {
            lemma_alignment_round_trip(a);
        },
        None => {},
    }
}

proof fn lemma_words_int(v: Option<i32>)
    ensures
        words(opt_int(v)),
{
    match v {
        Some(n) => {
            lemma_int_round_trip(n);
        },
        None => {},
    }
}

proof fn lemma_words_string(v: Option<String>)
    requires
        name_ok(v),
    ensures
        words(opt_string(v)),
{
    match v {
        Some(s) => {
            lemma_word_unquoted(s@);
        },
        None => {},
    }
}

proof fn lemma_words_strings(v: Seq<String>)
    requires
        names_ok(v),
    ensures
        words(strings(v)),
{
    assert forall|k: int| 0 <= k < strings(v).len() implies word(#[trigger] strings(v)[k]) by {
        lemma_word_unquoted(v[k]@);
    }
}

proof fn lemma_words_points(v: Seq<Point>)
    requires
        points_ok(v),
    ensures
        words(points(v)),
{
    assert forall|k: int| 0 <= k < points(v).len() implies word(#[trigger] points(v)[k]) by {
        lemma_point_round_trip(v[k]@);
    }
}

proof fn lemma_words_flag(b: bool)
    ensures
        words(flag(b)),
{
    if b {
        assert(flag(b)[0] == seq!['1']);
        assert(word(seq!['1']));
    }
}

proof fn lemma_first_char(w: Seq<char>, line: Seq<char>)
    requires
        w.len() > 0,
        w.is_prefix_of(line),
    ensures
        line.len() > 0,
        line[0] == w[0],
{
    assert(line.subrange(0, w.len() as int)[0] == w[0]);
}

/// A line that begins with a shape keyword names that shape.
proof fn lemma_kind_of(keyword: Seq<char>, tail: Seq<char>)
    ensures
        keyword == word_rect() ==> kind_of(keyword + tail) == Some(Kind::Rect),
        keyword == word_circle() ==> kind_of(keyword + tail) == Some(Kind::Circle),
        keyword == word_line() ==> kind_of(keyword + tail) == Some(Kind::Line),
        keyword == word_grid() ==> kind_of(keyword + tail) == Some(Kind::Grid),
        keyword == word_poly() ==> kind_of(keyword + tail) == Some(Kind::Poly),
        keyword == word_text() ==> kind_of(keyword + tail) == Some(Kind::Text),
{
    let line = keyword + tail;
    assert(keyword =~= line.subrange(0, keyword.len() as int));
    assert(word_rect()[0] == 'r' && word_circle()[0] == 'c' && word_line()[0] == 'l'
        && word_grid()[0] == 'g' && word_poly()[0] == 'p' && word_text()[0] == 't' && word_msg()[0]
        == 'm');
    if keyword.len() > 0 {
        assert(line[0] == keyword[0]);
    }
    if word_rect().is_prefix_of(line) {
        lemma_first_char(word_rect(), line);
    }
    if word_circle().is_prefix_of(line) {
        lemma_first_char(word_circle(), line);
    }
    if word_line().is_prefix_of(line) {
        lemma_first_char(word_line(), line);
    }
    if word_grid().is_prefix_of(line) {
        lemma_first_char(word_grid(), line);
    }
    if word_poly().is_prefix_of(line) {
        lemma_first_char(word_poly(), line);
    }
    if word_text().is_prefix_of(line) {
        lemma_first_char(word_text(), line);
    }
}

/// What can be written of a rectangle: numbers that are number literals, and
/// a curve name and tags that are words.
pub open spec fn rect_writable(r: Rect) -> bool {
    &&& point_ok(r.center)
    &&& point_ok(r.size)
    &&& scalar_ok(r.width)
    &&& name_ok(r.func)
    &&& names_ok(r.tag@)
}

/// The rectangle that a reader makes of what a builder was told.
pub open spec fn rect_read(r: Rect, props: DrawPropertiesView) -> MRectView {
    MRectView {
        center: point_or(r.center, origin()),
        size: point_or(r.size, origin()),
        fill: r.fill,
        width: scalar_or(r.width, props.width),
        alignment: alignment_read(r.alignment),
        common: common_read(r.color, r.tag@, r.keep, r.id, r.func),
    }
}

proof fn lemma_rect_groups(r: Rect)
    requires
        rect_writable(r),
    ensures
        writable(r.groups()),
        word(seq!['r', 'e', 'c', 't']),
        forall|i: int| 0 <= i < r.groups().len() ==> (#[trigger] r.groups()[i]).0 != seq![
            'r',
            'e',
            'c',
            't',
        ],
{
    let g = r.groups();
    lemma_words_point(r.center);
    lemma_words_point(r.size);
    lemma_words_scalar(r.width);
    lemma_words_flag(r.fill);
    lemma_words_color(r.color);
    lemma_words_alignment(r.alignment);
    lemma_words_int(r.id);
    lemma_words_string(r.func);
    lemma_words_strings(r.tag@);
    lemma_words_flag(r.keep);
    assert(g[0].0[0] == 'c' && g[0].0.len() == 1);
    assert(g[1].0[0] == 's' && g[1].0.len() == 1);
    assert(g[2].0[0] == 'w' && g[2].0.len() == 1);
    assert(g[3].0[0] == 'f' && g[3].0.len() == 1);
    assert(g[4].0[0] == 'c' && g[4].0.len() == 3 && g[4].0[1] == 'o' && g[4].0[2] == 'l');
    assert(g[5].0[0] == 'a' && g[5].0.len() == 1);
    assert(g[6].0[0] == 'i' && g[6].0.len() == 2 && g[6].0[1] == 'd');
    assert(g[7].0[0] == 'f' && g[7].0.len() == 2 && g[7].0[1] == 'u');
    assert(g[8].0[0] == 't' && g[8].0.len() == 1);
    assert(g[9].0[0] == 'k' && g[9].0.len() == 1);
    assert forall|i: int, k: int| 0 <= i < g.len() && 0 <= k < g[i].1.len() implies word(
        #[trigger] g[i].1[k],
    ) by {
        assert(words(g[i].1));
    }
    let kw = seq!['r', 'e', 'c', 't'];
    assert(kw.len() == 4 && kw[0] == 'r' && kw[1] == 'e' && kw[2] == 'c' && kw[3] == 't');
}

/// A rectangle that was written reads back as it was described.
///
/// The line of a rectangle builder denotes a rectangle with the centre, size,
/// fill flag, stroke width, alignment, colour, tags, keep flag, identity and
/// curve name that the builder was told, and with the default of each that it
/// was not told.
pub proof fn lemma_rect_round_trip(r: Rect, props: DrawPropertiesView, ended: bool)
    requires
        rect_writable(r),
    ensures
        rect_of(taken(r.line(), ended), props) == Some(rect_read(r, props)),
        decode(taken(r.line(), ended), props) == Some(FigureView::Rect(rect_read(r, props))),
{
    let after = taken(seq![' '] + emit(spread(r.groups()), ' ') + seq!['\n'], ended);
    lemma_kind_of(seq!['r', 'e', 'c', 't'], after);
    assert(taken(r.line(), ended) =~= seq!['r', 'e', 'c', 't'] + after);
    assert(seq!['r', 'e', 'c', 't'] =~= word_rect());
    let g = r.groups();
    let kw = seq!['r', 'e', 'c', 't'];
    lemma_rect_groups(r);
    lemma_read_point(kw, g, ended, 0, r.center, origin());
    lemma_read_point(kw, g, ended, 1, r.size, origin());
    lemma_read_scalar(kw, g, ended, 2, r.width, props.width);
    lemma_read_flag(kw, g, ended, 3, r.fill);
    lemma_read_alignment(kw, g, ended, 5, r.alignment);
    lemma_read_common(kw, g, ended, (4, 8, 9, 6, 7), r.color, r.tag@, r.keep, r.id, r.func);
}

/// What can be written of a circle: numbers that are number literals, and a
/// curve name and tags that are words.
pub open spec fn circle_writable(r: Circle) -> bool {
    &&& point_ok(r.center)
    &&& scalar_ok(r.radius)
    &&& point_ok(r.arc)
    &&& scalar_ok(r.width)
    &&& name_ok(r.func)
    &&& names_ok(r.tag@)
}

/// The circle that a reader makes of what a builder was told.
pub open spec fn circle_read(r: Circle, props: DrawPropertiesView) -> MCircleView {
    MCircleView {
        center: point_or(r.center, origin()),
        radius: scalar_or(r.radius, seq!['1']),
        fill: r.fill,
        width: scalar_or(r.width, props.width),
        arc: match r.arc {
            Some(p) => Some(p@),
            None => None,
        },
        common: common_read(r.color, r.tag@, r.keep, r.id, r.func),
    }
}

proof fn lemma_circle_groups(r: Circle)
    requires
        circle_writable(r),
    ensures
        writable(r.groups()),
        word(seq!['c', 'i', 'r', 'c', 'l', 'e']),
        forall|i: int| 0 <= i < r.groups().len() ==> (#[trigger] r.groups()[i]).0 != seq!['c', 'i', 'r', 'c', 'l', 'e'],
{
    let g = r.groups();
    lemma_words_point(r.center);
    lemma_words_scalar(r.radius);
    lemma_words_point(r.arc);
    lemma_words_scalar(r.width);
    lemma_words_flag(r.fill);
    lemma_words_color(r.color);
    lemma_words_int(r.id);
    lemma_words_string(r.func);
    lemma_words_strings(r.tag@);
    lemma_words_flag(r.keep);
    assert(g[0].0.len() == 1 && g[0].0[0] == 'c');
    assert(g[1].0.len() == 1 && g[1].0[0] == 'r');
    assert(g[2].0.len() == 3 && g[2].0[0] == 'a' && g[2].0[1] == 'r' && g[2].0[2] == 'c');
    assert(g[3].0.len() == 1 && g[3].0[0] == 'w');
    assert(g[4].0.len() == 1 && g[4].0[0] == 'f');
    assert(g[5].0.len() == 3 && g[5].0[0] == 'c' && g[5].0[1] == 'o' && g[5].0[2] == 'l');
    assert(g[6].0.len() == 2 && g[6].0[0] == 'i' && g[6].0[1] == 'd');
    assert(g[7].0.len() == 2 && g[7].0[0] == 'f' && g[7].0[1] == 'u');
    assert(g[8].0.len() == 1 && g[8].0[0] == 't');
    assert(g[9].0.len() == 1 && g[9].0[0] == 'k');
    assert forall|i: int, k: int| 0 <= i < g.len() && 0 <= k < g[i].1.len() implies word(
        #[trigger] g[i].1[k],
    ) by {
        assert(words(g[i].1));
    }
    let kw = seq!['c', 'i', 'r', 'c', 'l', 'e'];
    assert(kw.len() == 6 && kw[0] == 'c' && kw[1] == 'i' && kw[2] == 'r' && kw[3] == 'c' && kw[4] == 'l' && kw[5] == 'e');
}

/// A circle that was written reads back as it was described.
///
/// The line of a circle builder denotes a circle with the centre, radius, fill flag, stroke width, angles, colour, tags, keep flag, identity and curve name that the builder was told, and with the default of each that it was not told.
pub proof fn lemma_circle_round_trip(r: Circle, props: DrawPropertiesView, ended: bool)
    requires
        circle_writable(r),
    ensures
        circle_of(taken(r.line(), ended), props) == Some(circle_read(r, props)),
        decode(taken(r.line(), ended), props) == Some(FigureView::Circle(circle_read(r, props))),
{
    let after = taken(seq![' '] + emit(spread(r.groups()), ' ') + seq!['\n'], ended);
    lemma_kind_of(seq!['c', 'i', 'r', 'c', 'l', 'e'], after);
    assert(taken(r.line(), ended) =~= seq!['c', 'i', 'r', 'c', 'l', 'e'] + after);
    assert(seq!['c', 'i', 'r', 'c', 'l', 'e'] =~= word_circle());
    let g = r.groups();
    let kw = seq!['c', 'i', 'r', 'c', 'l', 'e'];
    lemma_circle_groups(r);
    lemma_read_point(kw, g, ended, 0, r.center, origin());
    lemma_read_scalar(kw, g, ended, 1, r.radius, seq!['1']);
    lemma_read_arc(kw, g, ended, 2, r.arc);
    lemma_read_scalar(kw, g, ended, 3, r.width, props.width);
    lemma_read_flag(kw, g, ended, 4, r.fill);
    lemma_read_common(kw, g, ended, (5, 8, 9, 6, 7), r.color, r.tag@, r.keep, r.id, r.func);
}

/// What can be written of a line segment: numbers that are number literals, and a
/// curve name and tags that are words.
pub open spec fn line_writable(r: Line) -> bool {
    &&& point_ok(r.start)
    &&& point_ok(r.finish)
    &&& scalar_ok(r.width)
    &&& name_ok(r.func)
    &&& names_ok(r.tag@)
}

/// The line segment that a reader makes of what a builder was told.
pub open spec fn line_read(r: Line, props: DrawPropertiesView) -> MLineView {
    MLineView {
        start: point_or(r.start, origin()),
        finish: point_or(r.finish, origin()),
        width: scalar_or(r.width, props.width),
        common: common_read(r.color, r.tag@, r.keep, r.id, r.func),
    }
}

proof fn lemma_line_groups(r: Line)
    requires
        line_writable(r),
    ensures
        writable(r.groups()),
        word(seq!['l', 'i', 'n', 'e']),
        forall|i: int| 0 <= i < r.groups().len() ==> (#[trigger] r.groups()[i]).0 != seq!['l', 'i', 'n', 'e'],
{
    let g = r.groups();
    lemma_words_point(r.start);
    lemma_words_point(r.finish);
    lemma_words_scalar(r.width);
    lemma_words_color(r.color);
    lemma_words_int(r.id);
    lemma_words_string(r.func);
    lemma_words_strings(r.tag@);
    lemma_words_flag(r.keep);
    assert(g[0].0.len() == 1 && g[0].0[0] == 's');
    assert(g[1].0.len() == 1 && g[1].0[0] == 'f');
    assert(g[2].0.len() == 1 && g[2].0[0] == 'w');
    assert(g[3].0.len() == 3 && g[3].0[0] == 'c' && g[3].0[1] == 'o' && g[3].0[2] == 'l');
    assert(g[4].0.len() == 2 && g[4].0[0] == 'i' && g[4].0[1] == 'd');
    assert(g[5].0.len() == 2 && g[5].0[0] == 'f' && g[5].0[1] == 'u');
    assert(g[6].0.len() == 1 && g[6].0[0] == 't');
    assert(g[7].0.len() == 1 && g[7].0[0] == 'k');
    assert forall|i: int, k: int| 0 <= i < g.len() && 0 <= k < g[i].1.len() implies word(
        #[trigger] g[i].1[k],
    ) by {
        assert(words(g[i].1));
    }
    let kw = seq!['l', 'i', 'n', 'e'];
    assert(kw.len() == 4 && kw[0] == 'l' && kw[1] == 'i' && kw[2] == 'n' && kw[3] == 'e');
}

/// A line segment that was written reads back as it was described.
///
/// The line of a line segment builder denotes a line segment with the ends, stroke width, colour, tags, keep flag, identity and curve name that the builder was told, and with the default of each that it was not told.
pub proof fn lemma_line_round_trip(r: Line, props: DrawPropertiesView, ended: bool)
    requires
        line_writable(r),
    ensures
        line_of(taken(r.line(), ended), props) == Some(line_read(r, props)),
        decode(taken(r.line(), ended), props) == Some(FigureView::Line(line_read(r, props))),
{
    let after = taken(seq![' '] + emit(spread(r.groups()), ' ') + seq!['\n'], ended);
    lemma_kind_of(seq!['l', 'i', 'n', 'e'], after);
    assert(taken(r.line(), ended) =~= seq!['l', 'i', 'n', 'e'] + after);
    assert(seq!['l', 'i', 'n', 'e'] =~= word_line());
    let g = r.groups();
    let kw = seq!['l', 'i', 'n', 'e'];
    lemma_line_groups(r);
    lemma_read_point(kw, g, ended, 0, r.start, origin());
    lemma_read_point(kw, g, ended, 1, r.finish, origin());
    lemma_read_scalar(kw, g, ended, 2, r.width, props.width);
    lemma_read_common(kw, g, ended, (3, 6, 7, 4, 5), r.color, r.tag@, r.keep, r.id, r.func);
}

/// What can be written of a grid: numbers that are number literals, and a
/// curve name and tags that are words.
pub open spec fn grid_writable(r: Grid) -> bool {
    &&& point_ok(r.center)
    &&& point_ok(r.size)
    &&& scalar_ok(r.width)
    &&& name_ok(r.func)
    &&& names_ok(r.tag@)
}

/// The grid that a reader makes of what a builder was told.
pub open spec fn grid_read(r: Grid, props: DrawPropertiesView) -> MGridView {
    MGridView {
        center: point_or(r.center, origin()),
        size: point_or(r.size, origin()),
        dims: match r.dims {
            Some(d) => d,
            None => (1usize, 1usize),
        },
        width: scalar_or(r.width, props.width),
        alignment: alignment_read(r.alignment),
        common: common_read(r.color, r.tag@, r.keep, r.id, r.func),
    }
}

proof fn lemma_grid_groups(r: Grid)
    requires
        grid_writable(r),
    ensures
        writable(r.groups()),
        word(seq!['g', 'r', 'i', 'd']),
        forall|i: int| 0 <= i < r.groups().len() ==> (#[trigger] r.groups()[i]).0 != seq!['g', 'r', 'i', 'd'],
{
    let g = r.groups();
    lemma_words_point(r.center);
    lemma_words_point(r.size);
    lemma_words_dims(r.dims);
    lemma_words_scalar(r.width);
    lemma_words_color(r.color);
    lemma_words_alignment(r.alignment);
    lemma_words_int(r.id);
    lemma_words_string(r.func);
    lemma_words_strings(r.tag@);
    lemma_words_flag(r.keep);
    assert(g[0].0.len() == 1 && g[0].0[0] == 'c');
    assert(g[1].0.len() == 1 && g[1].0[0] == 's');
    assert(g[2].0.len() == 1 && g[2].0[0] == 'd');
    assert(g[3].0.len() == 1 && g[3].0[0] == 'w');
    assert(g[4].0.len() == 3 && g[4].0[0] == 'c' && g[4].0[1] == 'o' && g[4].0[2] == 'l');
    assert(g[5].0.len() == 1 && g[5].0[0] == 'a');
    assert(g[6].0.len() == 2 && g[6].0[0] == 'i' && g[6].0[1] == 'd');
    assert(g[7].0.len() == 2 && g[7].0[0] == 'f' && g[7].0[1] == 'u');
    assert(g[8].0.len() == 1 && g[8].0[0] == 't');
    assert(g[9].0.len() == 1 && g[9].0[0] == 'k');
    assert forall|i: int, k: int| 0 <= i < g.len() && 0 <= k < g[i].1.len() implies word(
        #[trigger] g[i].1[k],
    ) by {
        assert(words(g[i].1));
    }
    let kw = seq!['g', 'r', 'i', 'd'];
    assert(kw.len() == 4 && kw[0] == 'g' && kw[1] == 'r' && kw[2] == 'i' && kw[3] == 'd');
}

/// A grid that was written reads back as it was described.
///
/// The line of a grid builder denotes a grid with the centre, size, columns and rows, stroke width, alignment, colour, tags, keep flag, identity and curve name that the builder was told, and with the default of each that it was not told.
pub proof fn lemma_grid_round_trip(r: Grid, props: DrawPropertiesView, ended: bool)
    requires
        grid_writable(r),
    ensures
        grid_of(taken(r.line(), ended), props) == Some(grid_read(r, props)),
        decode(taken(r.line(), ended), props) == Some(FigureView::Grid(grid_read(r, props))),
{
    let after = taken(seq![' '] + emit(spread(r.groups()), ' ') + seq!['\n'], ended);
    lemma_kind_of(seq!['g', 'r', 'i', 'd'], after);
    assert(taken(r.line(), ended) =~= seq!['g', 'r', 'i', 'd'] + after);
    assert(seq!['g', 'r', 'i', 'd'] =~= word_grid());
    let g = r.groups();
    let kw = seq!['g', 'r', 'i', 'd'];
    lemma_grid_groups(r);
    lemma_read_point(kw, g, ended, 0, r.center, origin());
    lemma_read_point(kw, g, ended, 1, r.size, origin());
    lemma_read_dims(kw, g, ended, 2, r.dims, (1usize, 1usize));
    lemma_read_scalar(kw, g, ended, 3, r.width, props.width);
    lemma_read_alignment(kw, g, ended, 5, r.alignment);
    lemma_read_common(kw, g, ended, (4, 8, 9, 6, 7), r.color, r.tag@, r.keep, r.id, r.func);
}

/// What can be written of a polygon: numbers that are number literals, and a
/// curve name and tags that are words.
pub open spec fn poly_writable(r: Poly) -> bool {
    &&& points_ok(r.point@)
    &&& scalar_ok(r.width)
    &&& name_ok(r.func)
    &&& names_ok(r.tag@)
}

/// The polygon that a reader makes of what a builder was told.
pub open spec fn poly_read(r: Poly, props: DrawPropertiesView) -> MPolyView {
    MPolyView {
        points: positions(r.point@),
        fill: r.fill,
        width: scalar_or(r.width, props.width),
        common: common_read(r.color, r.tag@, r.keep, r.id, r.func),
    }
}

proof fn lemma_poly_groups(r: Poly)
    requires
        poly_writable(r),
    ensures
        writable(r.groups()),
        word(seq!['p', 'o', 'l', 'y']),
        forall|i: int| 0 <= i < r.groups().len() ==> (#[trigger] r.groups()[i]).0 != seq!['p', 'o', 'l', 'y'],
{
    let g = r.groups();
    lemma_words_points(r.point@);
    lemma_words_scalar(r.width);
    lemma_words_flag(r.fill);
    lemma_words_color(r.color);
    lemma_words_alignment(r.alignment);
    lemma_words_int(r.id);
    lemma_words_string(r.func);
    lemma_words_strings(r.tag@);
    lemma_words_flag(r.keep);
    assert(g[0].0.len() == 1 && g[0].0[0] == 'p');
    assert(g[1].0.len() == 1 && g[1].0[0] == 'w');
    assert(g[2].0.len() == 1 && g[2].0[0] == 'f');
    assert(g[3].0.len() == 3 && g[3].0[0] == 'c' && g[3].0[1] == 'o' && g[3].0[2] == 'l');
    assert(g[4].0.len() == 1 && g[4].0[0] == 'a');
    assert(g[5].0.len() == 2 && g[5].0[0] == 'i' && g[5].0[1] == 'd');
    assert(g[6].0.len() == 2 && g[6].0[0] == 'f' && g[6].0[1] == 'u');
    assert(g[7].0.len() == 1 && g[7].0[0] == 't');
    assert(g[8].0.len() == 1 && g[8].0[0] == 'k');
    assert forall|i: int, k: int| 0 <= i < g.len() && 0 <= k < g[i].1.len() implies word(
        #[trigger] g[i].1[k],
    ) by {
        assert(words(g[i].1));
    }
    let kw = seq!['p', 'o', 'l', 'y'];
    assert(kw.len() == 4 && kw[0] == 'p' && kw[1] == 'o' && kw[2] == 'l' && kw[3] == 'y');
}

/// A polygon that was written reads back as it was described.
///
/// The line of a polygon builder denotes a polygon with the points, fill flag, stroke width, colour, tags, keep flag, identity and curve name that the builder was told, and with the default of each that it was not told.
pub proof fn lemma_poly_round_trip(r: Poly, props: DrawPropertiesView, ended: bool)
    requires
        poly_writable(r),
    ensures
        poly_of(taken(r.line(), ended), props) == Some(poly_read(r, props)),
        decode(taken(r.line(), ended), props) == Some(FigureView::Poly(poly_read(r, props))),
{
    let after = taken(seq![' '] + emit(spread(r.groups()), ' ') + seq!['\n'], ended);
    lemma_kind_of(seq!['p', 'o', 'l', 'y'], after);
    assert(taken(r.line(), ended) =~= seq!['p', 'o', 'l', 'y'] + after);
    assert(seq!['p', 'o', 'l', 'y'] =~= word_poly());
    let g = r.groups();
    let kw = seq!['p', 'o', 'l', 'y'];
    lemma_poly_groups(r);
    lemma_read_points(kw, g, ended, 0, r.point@);
    lemma_read_flag(kw, g, ended, 2, r.fill);
    lemma_read_scalar(kw, g, ended, 1, r.width, props.width);
    lemma_read_common(kw, g, ended, (3, 7, 8, 5, 6), r.color, r.tag@, r.keep, r.id, r.func);
}

proof fn lemma_emit_concat(
    a: Seq<(Seq<char>, Seq<char>)>,
    b: Seq<(Seq<char>, Seq<char>)>,
    sep: char,
)
    ensures
        emit(a + b, sep) == emit(a, sep) + emit(b, sep),
    decreases b.len(),
{
    if b.len() == 0 {
        assert(a + b =~= a);
        assert(emit(a, sep) + emit(b, sep) =~= emit(a, sep));
    } else {
        assert((a + b).drop_last() =~= a + b.drop_last());
        assert((a + b).last() == b.last());
        lemma_emit_concat(a, b.drop_last(), sep);
        assert(emit(a + b, sep) =~= emit(a, sep) + emit(b, sep));
    }
}

proof fn lemma_spread_first(first: Group, rest: Seq<Group>)
    ensures
        spread(seq![first] + rest) == fields_of(first) + spread(rest),
    decreases rest.len(),
{
    let all = seq![first] + rest;
    if rest.len() == 0 {
        assert(all.drop_last() =~= Seq::<Group>::empty());
        assert(spread(all.drop_last()) =~= Seq::<(Seq<char>, Seq<char>)>::empty());
        assert(all.last() == first);
        assert(spread(all) =~= fields_of(first) + spread(rest));
    } else {
        assert(all.drop_last() =~= seq![first] + rest.drop_last());
        assert(all.last() == rest.last());
        lemma_spread_first(first, rest.drop_last());
        assert(spread(all) =~= fields_of(first) + spread(rest));
    }
}

/// Every `=` of the text has a character before it, and that character is
/// not `m`.
spec fn unmarked(s: Seq<char>) -> bool {
    forall|i: int| 0 <= i < s.len() && #[trigger] s[i] == '=' ==> i > 0 && s[i - 1] != 'm'
}

proof fn lemma_unmarked_concat(a: Seq<char>, b: Seq<char>)
    requires
        unmarked(a),
        unmarked(b),
    ensures
        unmarked(a + b),
{
    let s = a + b;
    assert forall|i: int| 0 <= i < s.len() && #[trigger] s[i] == '=' implies i > 0 && s[i - 1]
        != 'm' by {
        if i < a.len() {
            assert(s[i] == a[i]);
            assert(s[i - 1] == a[i - 1]);
        } else {
            assert(s[i] == b[i - a.len()]);
            assert(i - a.len() > 0);
            assert(s[i - 1] == b[i - a.len() - 1]);
        }
    }
}

/// Every key is not empty and does not end in `m`.
spec fn keyed(fields: Seq<(Seq<char>, Seq<char>)>) -> bool {
    forall|i: int|
        0 <= i < fields.len() ==> (#[trigger] fields[i]).0.len() > 0 && fields[i].0.last() != 'm'
}

proof fn lemma_emit_unmarked(fields: Seq<(Seq<char>, Seq<char>)>)
    requires
        clean(fields),
        keyed(fields),
    ensures
        unmarked(emit(fields, ' ')),
    decreases fields.len(),
{
    if fields.len() > 0 {
        let init = fields.drop_last();
        let f = fields.last();
        assert(clean(init) && keyed(init)) by {
            assert forall|i: int| 0 <= i < init.len() implies plain((#[trigger] init[i]).0)
                && word(init[i].1) && init[i].0.len() > 0 && init[i].0.last() != 'm' by {
                assert(init[i] == fields[i]);
            }
        }
        lemma_emit_unmarked(init);
        let t = f.0 + seq!['='] + f.1 + seq![' '];
        assert(unmarked(t)) by {
            assert forall|i: int| 0 <= i < t.len() && #[trigger] t[i] == '=' implies i > 0 && t[i
                - 1] != 'm' by {
                if i < f.0.len() {
                    assert(t[i] == f.0[i]);
                } else if i == f.0.len() {
                    assert(t[i - 1] == f.0.last());
                } else if i < f.0.len() + 1 + f.1.len() {
                    assert(t[i] == f.1[i - f.0.len() - 1]);
                } else {
                }
            }
        }
        lemma_unmarked_concat(emit(init, ' '), t);
        assert(emit(fields, ' ') =~= emit(init, ' ') + t);
    }
}

proof fn lemma_no_marker(s: Seq<char>, i: int)
    requires
        unmarked(s),
        0 <= i,
    ensures
        marker_from(s, i) == s.len(),
    decreases s.len() - i,
{
    if i + 2 < s.len() {
        if s[i] == 'm' && s[i + 1] == '=' {
            assert(s[i + 1 - 1] != 'm');
        }
        lemma_no_marker(s, i + 1);
    }
}

proof fn lemma_spread_keyed(groups: Seq<Group>)
    requires
        forall|i: int|
            0 <= i < groups.len() ==> (#[trigger] groups[i]).0.len() > 0 && groups[i].0.last()
                != 'm',
    ensures
        keyed(spread(groups)),
    decreases groups.len(),
{
    if groups.len() > 0 {
        let init = groups.drop_last();
        assert forall|i: int| 0 <= i < init.len() implies (#[trigger] init[i]).0.len() > 0
            && init[i].0.last() != 'm' by {
            assert(init[i] == groups[i]);
        }
        lemma_spread_keyed(init);
        let g = groups.last();
        let all = spread(groups);
        assert forall|i: int| 0 <= i < all.len() implies (#[trigger] all[i]).0.len() > 0
            && all[i].0.last() != 'm' by {
            if i < spread(init).len() {
                assert(all[i] == spread(init)[i]);
            } else {
                assert(all[i].0 == g.0);
                assert(g == groups[groups.len() - 1]);
            }
        }
    }
}

/// The groups of a text but for the text itself.
pub open spec fn text_rest(r: Text) -> Seq<Group> {
    seq![
        (seq!['c'], opt_point(r.center)),
        (seq!['s'], opt_scalar(r.font)),
        (seq!['c', 'o', 'l'], opt_color(r.color)),
        (seq!['a'], opt_alignment(r.alignment)),
        (seq!['i', 'd'], opt_int(r.id)),
        (seq!['f', 'u'], opt_string(r.func)),
        (seq!['t'], strings(r.tag@)),
        (seq!['k'], flag(r.keep)),
    ]
}

/// What can be written of a text: numbers that are number literals, a curve
/// name and tags that are words, and a text without double quotes and
/// semicolons.
pub open spec fn text_writable(r: Text) -> bool {
    &&& point_ok(r.center)
    &&& scalar_ok(r.font)
    &&& name_ok(r.func)
    &&& names_ok(r.tag@)
    &&& r.text is Some ==> forall|i: int|
        0 <= i < r.text.unwrap()@.len() ==> (#[trigger] r.text.unwrap()@[i]) != '"'
            && r.text.unwrap()@[i] != ';'
}

/// The text figure that a reader makes of what a builder was told.
pub open spec fn text_read(r: Text, props: DrawPropertiesView) -> MTextView {
    MTextView {
        center: point_or(r.center, origin()),
        text: match r.text {
            Some(t) => t@,
            None => Seq::empty(),
        },
        font: scalar_or(r.font, props.font),
        alignment: alignment_read(r.alignment),
        common: common_read(r.color, r.tag@, r.keep, r.id, r.func),
    }
}

proof fn lemma_text_groups(r: Text)
    requires
        text_writable(r),
    ensures
        writable(text_rest(r)),
        word(seq!['t', 'e', 'x', 't']),
        forall|i: int| 0 <= i < text_rest(r).len() ==> (#[trigger] text_rest(r)[i]).0 != seq![
            't',
            'e',
            'x',
            't',
        ],
        forall|i: int|
            0 <= i < text_rest(r).len() ==> (#[trigger] text_rest(r)[i]).0.len() > 0 && text_rest(
                r,
            )[i].0.last() != 'm',
        r.groups() == seq![(seq!['m'], opt_string(r.text))] + text_rest(r),
{
    let g = text_rest(r);
    lemma_words_point(r.center);
    lemma_words_scalar(r.font);
    lemma_words_color(r.color);
    lemma_words_alignment(r.alignment);
    lemma_words_int(r.id);
    lemma_words_string(r.func);
    lemma_words_strings(r.tag@);
    lemma_words_flag(r.keep);
    assert(g[0].0.len() == 1 && g[0].0[0] == 'c');
    assert(g[1].0.len() == 1 && g[1].0[0] == 's');
    assert(g[2].0.len() == 3 && g[2].0[0] == 'c' && g[2].0[1] == 'o' && g[2].0[2] == 'l');
    assert(g[3].0.len() == 1 && g[3].0[0] == 'a');
    assert(g[4].0.len() == 2 && g[4].0[0] == 'i' && g[4].0[1] == 'd');
    assert(g[5].0.len() == 2 && g[5].0[0] == 'f' && g[5].0[1] == 'u');
    assert(g[6].0.len() == 1 && g[6].0[0] == 't');
    assert(g[7].0.len() == 1 && g[7].0[0] == 'k');
    assert forall|i: int, k: int| 0 <= i < g.len() && 0 <= k < g[i].1.len() implies word(
        #[trigger] g[i].1[k],
    ) by {
        assert(words(g[i].1));
    }
    let kw = seq!['t', 'e', 'x', 't'];
    assert(kw.len() == 4 && kw[0] == 't' && kw[1] == 'e' && kw[2] == 'x' && kw[3] == 't');
    assert(r.groups() =~= seq![(seq!['m'], opt_string(r.text))] + text_rest(r));
}

proof fn lemma_softened_same(t: Seq<char>)
    requires
        forall|i: int| 0 <= i < t.len() ==> t[i] != ';',
    ensures
        softened(t) == t,
{
    assert(softened(t) =~= t);
}

/// The beginning of a text line that gives its text: `text m=`.
spec fn text_head() -> Seq<char> {
    seq!['t', 'e', 'x', 't', ' ', 'm', '=']
}

proof fn lemma_marker_at_five(line: Seq<char>)
    requires
        text_head().is_prefix_of(line),
        line.len() >= 8,
    ensures
        marker_from(line, 0) == 5,
{
    let h = text_head();
    assert(h.len() == 7);
    assert forall|k: int| 0 <= k < 7 implies line[k] == h[k] by {
        assert(line.subrange(0, 7)[k] == h[k]);
    }
    assert(h[0] == 't' && h[1] == 'e' && h[2] == 'x' && h[3] == 't' && h[4] == ' ' && h[5] == 'm'
        && h[6] == '=');
    assert(marker_from(line, 5) == 5);
    assert(marker_from(line, 4) == 5);
    assert(marker_from(line, 3) == 5);
    assert(marker_from(line, 2) == 5);
    assert(marker_from(line, 1) == 5);
}

proof fn lemma_parts_none(line: Seq<char>)
    requires
        unmarked(line),
    ensures
        text_parts(line) == Some((Seq::<char>::empty(), line)),
{
    lemma_no_marker(line, 0);
}

proof fn lemma_parts_quoted(t: Seq<char>, tail: Seq<char>)
    requires
        forall|i: int| 0 <= i < t.len() ==> t[i] != '"' && t[i] != ';',
    ensures
        text_parts(text_head() + seq!['"'] + t + seq!['"'] + tail) == Some(
            (t, seq!['t', 'e', 'x', 't'] + tail),
        ),
{
    let line = text_head() + seq!['"'] + t + seq!['"'] + tail;
    assert(text_head() =~= line.subrange(0, 7));
    lemma_marker_at_five(line);
    assert(line[7] == '"');
    let body = line.skip(8);
    assert(body =~= t + seq!['"'] + tail);
    assert forall|k: int| 0 <= k < t.len() implies body[k] != '"' by {
        assert(body[k] == t[k]);
    }
    assert(body[t.len() as int] == '"');
    lemma_find(body, '"', t.len() as int);
    assert(body.take(t.len() as int) =~= t);
    assert(body.skip(t.len() as int + 1) =~= tail);
    assert(line.take(4) =~= seq!['t', 'e', 'x', 't']);
    lemma_softened_same(t);
}

proof fn lemma_parts_unquoted(t: Seq<char>, tail: Seq<char>)
    requires
        forall|i: int| 0 <= i < t.len() ==> t[i] != '"' && t[i] != ';' && t[i] != ' ',
    ensures
        text_parts(text_head() + t + seq![' '] + tail) == Some(
            (t, seq!['t', 'e', 'x', 't'] + (seq![' '] + tail)),
        ),
{
    let line = text_head() + t + seq![' '] + tail;
    assert(text_head() =~= line.subrange(0, 7));
    lemma_marker_at_five(line);
    if t.len() > 0 {
        assert(line[7] == t[0]);
    } else {
        assert(line[7] == ' ');
    }
    let body = line.skip(7);
    assert(body =~= t + seq![' '] + tail);
    assert forall|k: int| 0 <= k < t.len() implies body[k] != ' ' by {
        assert(body[k] == t[k]);
    }
    assert(body[t.len() as int] == ' ');
    lemma_find(body, ' ', t.len() as int);
    assert(body.take(t.len() as int) =~= t);
    assert(body.skip(t.len() as int) =~= seq![' '] + tail);
    assert(line.take(4) =~= seq!['t', 'e', 'x', 't']);
    lemma_softened_same(t);
}

/// The end of a line as it is taken.
spec fn line_end(ended: bool) -> Seq<char> {
    if ended {
        seq!['\n']
    } else {
        Seq::empty()
    }
}

proof fn lemma_text_unmarked(r: Text, ended: bool)
    requires
        text_writable(r),
    ensures
        unmarked(
            seq!['t', 'e', 'x', 't', ' '] + (emit(spread(text_rest(r)), ' ') + line_end(ended)),
        ),
{
    let rest_groups = text_rest(r);
    lemma_text_groups(r);
    lemma_spread_clean(rest_groups);
    lemma_spread_keyed(rest_groups);
    lemma_emit_unmarked(spread(rest_groups));
    let head = seq!['t', 'e', 'x', 't', ' '];
    let end = line_end(ended);
    assert(unmarked(head)) by {
        assert(head[0] == 't' && head[1] == 'e' && head[2] == 'x' && head[3] == 't' && head[4]
            == ' ');
    }
    assert(unmarked(end));
    lemma_unmarked_concat(emit(spread(rest_groups), ' '), end);
    lemma_unmarked_concat(head, emit(spread(rest_groups), ' ') + end);
}

proof fn lemma_text_line(r: Text, ended: bool)
    requires
        text_writable(r),
    ensures
        taken(r.line(), ended) == seq!['t', 'e', 'x', 't', ' '] + emit(
            fields_of((seq!['m'], opt_string(r.text))),
            ' ',
        ) + (emit(spread(text_rest(r)), ' ') + line_end(ended)),
        taken(figure_line(seq!['t', 'e', 'x', 't'], text_rest(r)), ended) == seq![
            't',
            'e',
            'x',
            't',
            ' ',
        ] + (emit(spread(text_rest(r)), ' ') + line_end(ended)),
{
    let kw = seq!['t', 'e', 'x', 't'];
    let rest_groups = text_rest(r);
    let first: Group = (seq!['m'], opt_string(r.text));
    lemma_text_groups(r);
    lemma_spread_first(first, rest_groups);
    lemma_emit_concat(fields_of(first), spread(rest_groups), ' ');
    let tail = emit(spread(rest_groups), ' ') + line_end(ended);
    assert(kw + seq![' '] =~= seq!['t', 'e', 'x', 't', ' ']);
    assert(taken(figure_line(kw, rest_groups), ended) =~= seq!['t', 'e', 'x', 't', ' '] + tail);
    assert(taken(r.line(), ended) =~= seq!['t', 'e', 'x', 't', ' '] + emit(fields_of(first), ' ')
        + tail);
}

/// What is written for the text itself: nothing, or `m=`, the text as a
/// string and a blank.
spec fn text_field(text: Option<Seq<char>>) -> Seq<char> {
    match text {
        Some(t) => seq!['m', '='] + string_text(t) + seq![' '],
        None => Seq::empty(),
    }
}

proof fn lemma_text_field(text: Option<String>)
    ensures
        emit(fields_of((seq!['m'], opt_string(text))), ' ') == text_field(
            match text {
                Some(t) => Some(t@),
                None => None,
            },
        ),
{
    let first: Group = (seq!['m'], opt_string(text));
    let fs = fields_of(first);
    match text {
        None => {
            assert(fs =~= Seq::<(Seq<char>, Seq<char>)>::empty());
        },
        Some(t) => {
            let value = string_text(t@);
            assert(fs =~= seq![(seq!['m'], value)]);
            assert(fs.drop_last() =~= Seq::<(Seq<char>, Seq<char>)>::empty());
            assert(emit(fs.drop_last(), ' ') =~= Seq::<char>::empty());
            assert(emit(fs, ' ') =~= seq!['m', '='] + value + seq![' ']);
        },
    }
}

proof fn lemma_parts_some(t: Seq<char>, tail: Seq<char>)
    requires
        forall|i: int| 0 <= i < t.len() ==> t[i] != '"' && t[i] != ';',
    ensures
        text_parts(seq!['t', 'e', 'x', 't', ' '] + text_field(Some(t)) + tail) == Some(
            (t, seq!['t', 'e', 'x', 't', ' '] + tail),
        ),
{
    let begin = seq!['t', 'e', 'x', 't', ' '];
    let line = begin + text_field(Some(t)) + tail;
    assert(begin + seq!['m', '='] =~= text_head());
    assert(seq!['t', 'e', 'x', 't'] + (seq![' '] + tail) =~= begin + tail);
    if t.contains(' ') {
        lemma_parts_quoted(t, seq![' '] + tail);
        assert(line =~= text_head() + seq!['"'] + t + seq!['"'] + (seq![' '] + tail));
    } else {
        assert forall|i: int| 0 <= i < t.len() implies t[i] != ' ' by {
            if t[i] == ' ' {
                assert(t.contains(' '));
            }
        }
        lemma_parts_unquoted(t, tail);
        assert(line =~= text_head() + t + seq![' '] + tail);
    }
}

/// The line of a text builder falls into the text that the builder was told
/// and the line of its other fields.
proof fn lemma_text_parts(r: Text, ended: bool)
    requires
        text_writable(r),
    ensures
        text_parts(taken(r.line(), ended)) == Some(
            (
                match r.text {
                    Some(t) => t@,
                    None => Seq::<char>::empty(),
                },
                taken(figure_line(seq!['t', 'e', 'x', 't'], text_rest(r)), ended),
            ),
        ),
{
    let tail = emit(spread(text_rest(r)), ' ') + line_end(ended);
    let begin = seq!['t', 'e', 'x', 't', ' '];
    lemma_text_line(r, ended);
    lemma_text_field(r.text);
    match r.text {
        None => {
            assert(begin + Seq::<char>::empty() + tail =~= begin + tail);
            lemma_text_unmarked(r, ended);
            lemma_parts_none(begin + tail);
        },
        Some(text) => {
            lemma_parts_some(text@, tail);
        },
    }
}

/// A text that was written reads back as it was described.
///
/// The line of a text builder denotes a text figure with the text, centre,
/// font size, alignment, colour, tags, keep flag, identity and curve name
/// that the builder was told, and with the default of each that it was not
/// told.
pub proof fn lemma_text_round_trip(r: Text, props: DrawPropertiesView, ended: bool)
    requires
        text_writable(r),
    ensures
        text_of(taken(r.line(), ended), props) == Some(text_read(r, props)),
        decode(taken(r.line(), ended), props) == Some(FigureView::Text(text_read(r, props))),
{
    let after = taken(seq![' '] + emit(spread(r.groups()), ' ') + seq!['\n'], ended);
    lemma_kind_of(seq!['t', 'e', 'x', 't'], after);
    assert(taken(r.line(), ended) =~= seq!['t', 'e', 'x', 't'] + after);
    assert(seq!['t', 'e', 'x', 't'] =~= word_text());
    let g = text_rest(r);
    let kw = seq!['t', 'e', 'x', 't'];
    lemma_text_parts(r, ended);
    lemma_text_groups(r);
    lemma_read_point(kw, g, ended, 0, r.center, origin());
    lemma_read_scalar(kw, g, ended, 1, r.font, props.font);
    lemma_read_alignment(kw, g, ended, 3, r.alignment);
    lemma_read_common(kw, g, ended, (2, 6, 7, 4, 5), r.color, r.tag@, r.keep, r.id, r.func);
}

/// A message that was written reads back with its text.
///
/// The line of a message, taken without its line end, denotes a message with
/// the text that was written, at the next free place of the stack.
pub proof fn lemma_message_round_trip(msg: Seq<char>, props: DrawPropertiesView)
    ensures
        decode(taken(message_line(msg), false), props) == Some(
            FigureView::Message(
                MMessageView { message_ind: props.was_messages, text: msg, common: plain_block() },
            ),
        ),
{
    let line = taken(message_line(msg), false);
    let head = seq!['m', 's', 'g', ' '];
    assert(line =~= head + msg);
    assert(line.skip(4) =~= msg);
    assert(word_msg() =~= line.subrange(0, 3));
    assert(line[0] == 'm');
    assert(word_rect()[0] == 'r' && word_circle()[0] == 'c' && word_line()[0] == 'l'
        && word_grid()[0] == 'g' && word_poly()[0] == 'p' && word_text()[0] == 't');
    if word_rect().is_prefix_of(line) {
        lemma_first_char(word_rect(), line);
    }
    if word_circle().is_prefix_of(line) {
        lemma_first_char(word_circle(), line);
    }
    if word_line().is_prefix_of(line) {
        lemma_first_char(word_line(), line);
    }
    if word_grid().is_prefix_of(line) {
        lemma_first_char(word_grid(), line);
    }
    if word_poly().is_prefix_of(line) {
        lemma_first_char(word_poly(), line);
    }
    if word_text().is_prefix_of(line) {
        lemma_first_char(word_text(), line);
    }
}

} // verus!
