use rviewer::color::Color;
use rviewer::number::{i32_from, u8_from, usize_from, Scalar};
use rviewer::parse::{color_from, point_from, Param, Params, Point};
use rviewer::text::{chars_of, split, split_whitespace, starts_with, string_of, trim};

fn chars(s: &str) -> Vec<char> {
    s.chars().collect()
}

fn strings(v: Vec<Vec<char>>) -> Vec<String> {
    v.into_iter().map(|w| w.into_iter().collect()).collect()
}

#[test]
fn chars_and_strings_convert_both_ways() {
    assert_eq!(chars_of("a b\u{e9}"), vec!['a', ' ', 'b', '\u{e9}']);
    assert_eq!(string_of(&['x', '=', '1']), "x=1");
    assert_eq!(string_of(&[]), "");
}

#[test]
fn whitespace_splits_into_maximal_runs() {
    assert_eq!(
        strings(split_whitespace(&chars("  rect  c=(1,2)\tk \n"))),
        vec!["rect", "c=(1,2)", "k"]
    );
    assert_eq!(strings(split_whitespace(&chars(""))), Vec::<String>::new());
    assert_eq!(strings(split_whitespace(&chars(" \t\n"))), Vec::<String>::new());
    assert_eq!(strings(split_whitespace(&chars("one"))), vec!["one"]);
}

#[test]
fn unicode_whitespace_separates_tokens() {
    assert_eq!(strings(split_whitespace(&chars("a\u{a0}b\u{2003}c\u{3000}d"))), vec!["a", "b", "c", "d"]);
    let text = "a\u{85}b \u{1680}c\u{200b}d";
    let expected: Vec<String> = text.split_whitespace().map(|s| s.to_string()).collect();
    assert_eq!(strings(split_whitespace(&chars(text))), expected);
}

#[test]
fn split_keeps_empty_pieces() {
    assert_eq!(strings(split(&chars("a=b=c"), '=')), vec!["a", "b", "c"]);
    assert_eq!(strings(split(&chars("abc"), '=')), vec!["abc"]);
    assert_eq!(strings(split(&chars("=x"), '=')), vec!["", "x"]);
    assert_eq!(strings(split(&chars("x="), '=')), vec!["x", ""]);
    assert_eq!(strings(split(&chars(""), ',')), vec![""]);
    assert_eq!(strings(split(&chars(",,"), ',')), vec!["", "", ""]);
}

#[test]
fn trim_removes_whitespace_at_both_ends() {
    assert_eq!(string_of(&trim(&chars("  30 \t"))), "30");
    assert_eq!(string_of(&trim(&chars("a b"))), "a b");
    assert_eq!(string_of(&trim(&chars("   "))), "");
    assert_eq!(string_of(&trim(&chars(""))), "");
}

#[test]
fn prefix_test_compares_leading_characters() {
    assert!(starts_with(&chars("rectangle"), &chars("rect")));
    assert!(starts_with(&chars("rect"), &chars("rect")));
    assert!(!starts_with(&chars("rec"), &chars("rect")));
    assert!(!starts_with(&chars("erect"), &chars("rect")));
    assert!(starts_with(&chars("x"), &chars("")));
}

#[test]
fn params_read_typed_values() {
    let p = Params::from_str("rect c=(5,5) s=(2,2) col=(255,0,0) id=-7 t=a t=b fu=ease");
    let c: Point = p.get("c").unwrap();
    assert_eq!(c.x.as_str(), "5");
    assert_eq!(c.y.as_str(), "5");
    assert_eq!(p.get::<Color>("col"), Some(Color::rgb(255, 0, 0)));
    assert_eq!(p.get::<i32>("id"), Some(-7));
    assert_eq!(p.get::<Vec<String>>("t"), Some(vec!["a".to_string(), "b".to_string()]));
    assert_eq!(p.get::<String>("fu"), Some("ease".to_string()));
    assert_eq!(p.get::<i32>("missing"), None);
}

#[test]
fn params_take_the_first_value_of_a_repeated_key() {
    let p = Params::from_str("x id=1 id=2");
    assert_eq!(p.get::<i32>("id"), Some(1));
    assert_eq!(strings(p.values(&chars("id"))), vec!["1", "2"]);
}

#[test]
fn params_use_the_text_between_the_first_two_equal_signs() {
    let p = Params::from_str("t=a=b");
    assert_eq!(p.get::<String>("t"), Some("a".to_string()));
}

#[test]
fn bare_keys_set_flags() {
    let p = Params::from_str("rect c=(1,1) k");
    assert_eq!(p.get::<bool>("k"), Some(true));
    assert_eq!(p.flag(&chars("k")), Some(true));
    assert_eq!(p.get_or::<bool>(&chars("k"), false), Some(true));
    assert_eq!(p.get_opt::<bool>(&chars("k")), Some(Some(true)));
    assert_eq!(p.get::<bool>("absent"), None);
    assert_eq!(p.flag(&chars("absent")), Some(false));
}

#[test]
fn params_read_flags_by_value_or_bare_presence() {
    let p = Params::from_str("rect k f= w=2 g=0 h=1 h=0 z z=0");
    assert!(p.bare(&chars("k")));
    assert!(p.bare(&chars("f")));
    assert!(p.bare(&chars("rect")));
    assert!(!p.bare(&chars("w")));
    assert_eq!(p.get::<bool>("k"), Some(true));
    assert_eq!(p.get::<bool>("f"), Some(true));
    assert_eq!(p.get::<bool>("g"), Some(false));
    assert_eq!(p.get::<bool>("h"), Some(true));
    assert_eq!(p.get::<bool>("z"), Some(false));
    assert_eq!(p.get::<bool>("w"), None);
    assert_eq!(p.flag(&chars("k")), Some(true));
    assert_eq!(p.flag(&chars("w")), None);
    assert_eq!(p.flag(&chars("z")), Some(false));
    assert_eq!(p.flag(&chars("absent")), Some(false));
}

#[test]
fn bare_keys_denote_nothing_but_flags() {
    let p = Params::from_str("rect id fu t c col a d w");
    assert_eq!(p.get::<i32>("id"), None);
    assert_eq!(p.get::<String>("fu"), None);
    assert_eq!(p.get::<Vec<String>>("t"), None);
    assert!(p.get::<Point>("c").is_none());
    assert_eq!(p.get::<Color>("col"), None);
    assert_eq!(p.get::<(char, char)>("a"), None);
    assert_eq!(p.get::<(usize, usize)>("d"), None);
    assert!(p.get::<Scalar>("w").is_none());
    assert_eq!(p.get_or::<i32>(&chars("id"), 5), Some(5));
    assert_eq!(p.get_opt::<i32>(&chars("id")), Some(None));
    assert_eq!(<bool as Param>::from_bare(), Some(true));
    assert_eq!(<i32 as Param>::from_bare(), None);
}

#[test]
fn get_or_falls_back_only_when_the_key_is_absent() {
    let p = Params::from_str("rect id=7 d=(3,x)");
    assert_eq!(p.get_or::<i32>(&chars("id"), 1), Some(7));
    assert_eq!(p.get_or::<i32>(&chars("other"), 1), Some(1));
    assert_eq!(p.get_or::<(usize, usize)>(&chars("d"), (1, 1)), None);
    assert_eq!(p.get_opt::<i32>(&chars("id")), Some(Some(7)));
    assert_eq!(p.get_opt::<i32>(&chars("other")), Some(None));
    assert_eq!(p.get_opt::<i32>(&chars("d")), None);
}

#[test]
fn bool_param_reads_zero_one_and_empty() {
    assert_eq!(<bool as Param>::from(&[chars("0")]), Some(false));
    assert_eq!(<bool as Param>::from(&[chars("1")]), Some(true));
    assert_eq!(<bool as Param>::from(&[chars("")]), Some(true));
    assert_eq!(<bool as Param>::from(&[chars("2")]), None);
    assert_eq!(<bool as Param>::from(&[chars("01")]), None);
}

#[test]
fn char_pair_param_reads_the_first_two_characters() {
    assert_eq!(<(char, char) as Param>::from(&[chars("BE")]), Some(('B', 'E')));
    assert_eq!(<(char, char) as Param>::from(&[chars("BEC")]), Some(('B', 'E')));
    assert_eq!(<(char, char) as Param>::from(&[chars("B")]), None);
}

#[test]
fn dims_param_reads_two_counts() {
    assert_eq!(<(usize, usize) as Param>::from(&[chars("(3,2)")]), Some((3, 2)));
    assert_eq!(<(usize, usize) as Param>::from(&[chars("[3,2]")]), Some((3, 2)));
    assert_eq!(<(usize, usize) as Param>::from(&[chars("(3,2,9)")]), Some((3, 2)));
    assert_eq!(<(usize, usize) as Param>::from(&[chars("(3)")]), None);
    assert_eq!(<(usize, usize) as Param>::from(&[chars("(3,-2)")]), None);
    assert_eq!(<(usize, usize) as Param>::from(&[chars("(3, 2)")]), None);
    assert_eq!(<(usize, usize) as Param>::from(&[chars("5")]), None);
    assert_eq!(<(usize, usize) as Param>::from(&[chars("")]), None);
}

#[test]
fn color_param_defaults_to_opaque() {
    assert_eq!(color_from(&chars("(1,2,3)")), Some(Color::rgba(1, 2, 3, 255)));
    assert_eq!(color_from(&chars("(1,2,3,4)")), Some(Color::rgba(1, 2, 3, 4)));
    assert_eq!(color_from(&chars("(1,2,3,4,5)")), Some(Color::rgba(1, 2, 3, 4)));
    assert_eq!(color_from(&chars("(1,2)")), None);
    assert_eq!(color_from(&chars("(1,2,256)")), None);
    assert_eq!(color_from(&chars("(1,2,3,x)")), None);
    assert_eq!(color_from(&chars("(1,2,3,)")), None);
    assert_eq!(color_from(&chars("()")), None);
}

#[test]
fn point_param_keeps_the_literals() {
    let p = point_from(&chars("(1.5,-2e3)")).unwrap();
    assert_eq!(p.x.as_str(), "1.5");
    assert_eq!(p.y.as_str(), "-2e3");
    assert!(point_from(&chars("(1.5)")).is_none());
    assert!(point_from(&chars("(1.5,abc)")).is_none());
    assert!(point_from(&chars("(1.5, 2)")).is_none());
}

#[test]
fn points_param_needs_every_value_to_be_a_point() {
    let good = <Vec<Point> as Param>::from(&[chars("(0,0)"), chars("(1,0)"), chars("(1,1)")]).unwrap();
    assert_eq!(good.len(), 3);
    assert_eq!(good[2].x.as_str(), "1");
    assert_eq!(good[1].y.as_str(), "0");
    assert!(<Vec<Point> as Param>::from(&[chars("(0,0)"), chars("(1;0)")]).is_none());
}

#[test]
fn strings_param_keeps_every_value() {
    assert_eq!(
        <Vec<String> as Param>::from(&[chars("a"), chars("b")]),
        Some(vec!["a".to_string(), "b".to_string()])
    );
    assert_eq!(<String as Param>::from(&[chars("a"), chars("b")]), Some("a".to_string()));
}

#[test]
fn number_literals_are_those_that_denote_a_real() {
    let cases = [
        "0", "1", "10", "007", "1.5", "-1.5", "+1.5", ".5", "5.", "-.5", "+5.", "1e5", "1E5", "1e+5",
        "1e-5", "1.e5", ".5e5", "1.5e10", "inf", "INF", "Inf", "-inf", "+inf", "infinity",
        "Infinity", "-INFINITY", "nan", "NaN", "-nan", "+NAN", "", ".", "+", "-", "e5", ".e5", "1e",
        "1e+", "1e-", "1ee5", "1e5.", "1.5.2", "1_000", "0x10", " 1", "1 ", "--1", "+-1", "infinit",
        "infinityy", "in", "na", "nane", "1,5", "(1)", "1f", "\u{661}", "1e5e", "e", "-e5", "..",
        "5..", "1.-5", "i\u{131}f",
    ];
    for s in cases {
        let expected = s.parse::<f64>().is_ok();
        assert_eq!(Scalar::parse(s).is_some(), expected, "literal {:?}", s);
        if expected {
            assert_eq!(Scalar::parse(s).unwrap().as_str(), s);
        }
    }
}

#[test]
fn scalar_constants_are_zero_and_one() {
    assert_eq!(Scalar::zero().as_str(), "0");
    assert_eq!(Scalar::one().as_str(), "1");
    assert_eq!(Scalar::one().clone().as_str(), "1");
}

#[test]
fn signed_integers_parse_like_the_standard_library() {
    let cases = [
        "0", "-0", "+0", "5", "+5", "-5", "007", "2147483647", "2147483648", "-2147483648",
        "-2147483649", "99999999999999999999", "", "+", "-", "1a", "a1", "1 ", " 1", "--1", "+-1",
        "1.0", "\u{661}",
    ];
    for s in cases {
        assert_eq!(i32_from(&chars(s)), s.parse::<i32>().ok(), "integer {:?}", s);
    }
}

#[test]
fn unsigned_integers_parse_like_the_standard_library() {
    let cases = [
        "0", "+0", "-0", "255", "256", "+255", "000255", "", "+", "-1", "1a", "18446744073709551615",
        "18446744073709551616", "4294967295", "4294967296",
    ];
    for s in cases {
        assert_eq!(u8_from(&chars(s)), s.parse::<u8>().ok(), "byte {:?}", s);
        assert_eq!(usize_from(&chars(s)), s.parse::<usize>().ok(), "count {:?}", s);
    }
}

#[test]
fn space_agrees_with_the_standard_library_on_every_character() {
    for code in 0..=0x10FFFFu32 {
        if let Some(c) = char::from_u32(code) {
            assert_eq!(rviewer::text::space(c), c.is_whitespace(), "character {:x}", code);
        }
    }
}

#[test]
fn number_literals_agree_with_the_standard_library_on_short_strings() {
    let alphabet = ['0', '7', '+', '-', '.', 'e', 'E', 'i', 'n', 'f', 'a', 'N', ' ', 'x'];
    let mut strings: Vec<String> = vec![String::new()];
    let mut start = 0;
    for _ in 0..4 {
        let end = strings.len();
        for i in start..end {
            for c in alphabet {
                let mut s = strings[i].clone();
                s.push(c);
                strings.push(s);
            }
        }
        start = end;
    }
    assert_eq!(strings.len(), 1 + 14 + 196 + 2744 + 38416);
    for s in &strings {
        assert_eq!(Scalar::parse(s).is_some(), s.parse::<f64>().is_ok(), "literal {:?}", s);
    }
}

#[test]
fn special_words_are_read_in_any_case() {
    for word in ["inf", "nan", "infinity"] {
        let letters: Vec<char> = word.chars().collect();
        for mask in 0..(1u32 << letters.len()) {
            let s: String = letters
                .iter()
                .enumerate()
                .map(|(i, c)| if mask & (1 << i) != 0 { c.to_ascii_uppercase() } else { *c })
                .collect();
            for sign in ["", "+", "-"] {
                let text = format!("{}{}", sign, s);
                assert!(text.parse::<f64>().is_ok());
                assert!(Scalar::parse(&text).is_some(), "literal {:?}", text);
            }
        }
    }
    for text in ["infinit", "infinityy", "in", "na", "nanx", "\u{131}nf", "\u{130}nf", "ınF", "ｉnf"] {
        assert_eq!(Scalar::parse(text).is_some(), text.parse::<f64>().is_ok(), "literal {:?}", text);
    }
}

#[test]
fn integers_agree_with_the_standard_library_on_short_strings() {
    let alphabet = ['0', '1', '9', '+', '-', ' ', 'a'];
    let mut strings: Vec<String> = vec![String::new()];
    let mut start = 0;
    for _ in 0..5 {
        let end = strings.len();
        for i in start..end {
            for c in alphabet {
                let mut s = strings[i].clone();
                s.push(c);
                strings.push(s);
            }
        }
        start = end;
    }
    for s in &strings {
        assert_eq!(i32_from(&chars(s)), s.parse::<i32>().ok(), "integer {:?}", s);
        assert_eq!(u8_from(&chars(s)), s.parse::<u8>().ok(), "byte {:?}", s);
        assert_eq!(usize_from(&chars(s)), s.parse::<usize>().ok(), "count {:?}", s);
    }
}

#[test]
fn number_literals_agree_with_the_standard_library_on_longer_strings() {
    let alphabet: Vec<char> = "0123456789+-..eEinfatyINFATY _x".chars().collect();
    let mut state: u64 = 0x2545_f491_4f6c_dd1d;
    let mut next = move || {
        state ^= state << 13;
        state ^= state >> 7;
        state ^= state << 17;
        state
    };
    let mut accepted = 0;
    for _ in 0..200_000 {
        let length = (next() % 12) as usize;
        let digits_only = next() % 3 == 0;
        let s: String = (0..length)
            .map(|_| {
                let span = if digits_only { 16 } else { alphabet.len() as u64 };
                alphabet[(next() % span) as usize]
            })
            .collect();
        let expected = s.parse::<f64>().is_ok();
        assert_eq!(Scalar::parse(&s).is_some(), expected, "literal {:?}", s);
        if expected {
            accepted += 1;
        }
    }
    assert!(accepted > 1000);
}

#[test]
fn formatted_numbers_are_number_literals() {
    let values = [
        0.0, -0.0, 1.0, -1.5, 0.1, 1e21, 1e-7, 123456789.125, f64::MAX, f64::MIN, f64::MIN_POSITIVE,
        f64::EPSILON, f64::INFINITY, f64::NEG_INFINITY, f64::NAN, 5e-324, 2.5e300,
    ];
    for x in values {
        let text = x.to_string();
        let literal = Scalar::parse(&text).expect("a formatted number is a literal");
        assert_eq!(literal.as_str(), text);
        let back: f64 = literal.as_str().parse().unwrap();
        assert!(back == x || (back.is_nan() && x.is_nan()));
    }
}
