use rviewer::alignment::Alignment;
use rviewer::app_data::DrawProperties;
use rviewer::color::Color;
use rviewer::figure::circle::MCircle;
use rviewer::figure::common::CommonParams;
use rviewer::figure::grid::MGrid;
use rviewer::figure::line::MLine;
use rviewer::figure::message::MMessage;
use rviewer::figure::poly::MPoly;
use rviewer::figure::rect::MRect;
use rviewer::figure::text::{split_text, MText};
use rviewer::figure::{from_string, keyword, Figure, Kind};
use rviewer::number::Scalar;
use rviewer::parse::Params;

fn props() -> DrawProperties {
    DrawProperties::new()
}

fn chars(s: &str) -> Vec<char> {
    s.chars().collect()
}

fn text(v: &[char]) -> String {
    v.iter().collect()
}

#[test]
fn draw_properties_start_at_one() {
    let p = props();
    assert_eq!(p.width.as_str(), "1");
    assert_eq!(p.font.as_str(), "1");
    assert_eq!(p.was_messages, 0);
}

#[test]
fn rect_reads_every_field() {
    let mut p = props();
    let r = MRect::from_string(
        "rect c=(5,6) s=(2,3) f=1 w=0.5 a=BE col=(255,0,0,128) t=x t=y k=1 id=9 fu=ease",
        &mut p,
    )
    .unwrap();
    assert_eq!((r.center.x.as_str(), r.center.y.as_str()), ("5", "6"));
    assert_eq!((r.size.x.as_str(), r.size.y.as_str()), ("2", "3"));
    assert!(r.fill);
    assert_eq!(r.width.as_str(), "0.5");
    assert_eq!(r.alignment, (Alignment::Begin, Alignment::End));
    assert_eq!(r.common.color, Color::rgba(255, 0, 0, 128));
    assert_eq!(r.common.tags, vec!["x".to_string(), "y".to_string()]);
    assert!(r.common.keep);
    assert_eq!(r.common.id, Some(9));
    assert_eq!(r.common.func, Some("ease".to_string()));
}

#[test]
fn rect_falls_back_to_defaults() {
    let mut p = props();
    p.width = Scalar::parse("2.5").unwrap();
    let r = MRect::from_string("rect", &mut p).unwrap();
    assert_eq!((r.center.x.as_str(), r.center.y.as_str()), ("0", "0"));
    assert_eq!((r.size.x.as_str(), r.size.y.as_str()), ("0", "0"));
    assert!(!r.fill);
    assert_eq!(r.width.as_str(), "2.5");
    assert_eq!(r.alignment, (Alignment::Center, Alignment::Center));
    assert_eq!(r.common.color, Color::rgb(0, 0, 0));
    assert!(r.common.tags.is_empty());
    assert!(!r.common.keep);
    assert_eq!(r.common.id, None);
    assert_eq!(r.common.func, None);
    assert_eq!(p.width.as_str(), "2.5");
}

#[test]
fn rect_with_a_malformed_field_is_no_figure() {
    let mut p = props();
    assert!(MRect::from_string("rect c=(1,abc)", &mut p).is_none());
    assert!(MRect::from_string("rect c=5", &mut p).is_none());
    assert!(MRect::from_string("rect w=wide", &mut p).is_none());
    assert!(MRect::from_string("rect f=2", &mut p).is_none());
    assert!(MRect::from_string("rect a=XY", &mut p).is_none());
    assert!(MRect::from_string("rect a=B", &mut p).is_none());
    assert!(MRect::from_string("rect col=(1,2)", &mut p).is_none());
    assert!(MRect::from_string("rect id=1.5", &mut p).is_none());
    assert!(MRect::from_string("rect k=yes", &mut p).is_none());
}

#[test]
fn flags_are_set_by_bare_presence() {
    let mut p = props();
    let r = MRect::from_string("rect f k", &mut p).unwrap();
    assert!(r.fill);
    assert!(r.common.keep);
    let r = MRect::from_string("rect f=0 k=0", &mut p).unwrap();
    assert!(!r.fill);
    assert!(!r.common.keep);
    let r = MRect::from_string("rect f=0 f", &mut p).unwrap();
    assert!(!r.fill);
}

#[test]
fn circle_reads_radius_and_arc() {
    let mut p = props();
    let c = MCircle::from_string("circle c=(1,2) r=3 arc=(0,1.57) f=1", &mut p).unwrap();
    assert_eq!((c.center.x.as_str(), c.center.y.as_str()), ("1", "2"));
    assert_eq!(c.radius.as_str(), "3");
    let arc = c.arc.unwrap();
    assert_eq!((arc.x.as_str(), arc.y.as_str()), ("0", "1.57"));
    assert!(c.fill);
    let c = MCircle::from_string("circle", &mut p).unwrap();
    assert_eq!(c.radius.as_str(), "1");
    assert!(c.arc.is_none());
    assert_eq!(c.width.as_str(), "1");
    assert!(MCircle::from_string("circle arc=(0)", &mut p).is_none());
    assert!(MCircle::from_string("circle r=big", &mut p).is_none());
}

#[test]
fn line_reads_its_ends() {
    let mut p = props();
    let l = MLine::from_string("line s=(0,1) f=(2,3) w=4", &mut p).unwrap();
    assert_eq!((l.start.x.as_str(), l.start.y.as_str()), ("0", "1"));
    assert_eq!((l.finish.x.as_str(), l.finish.y.as_str()), ("2", "3"));
    assert_eq!(l.width.as_str(), "4");
    assert!(MLine::from_string("line f=1", &mut p).is_none());
}

#[test]
fn grid_reads_columns_and_rows() {
    let mut p = props();
    let g = MGrid::from_string("grid c=(15,15) s=(30,30) d=(3,2) a=EB", &mut p).unwrap();
    assert_eq!(g.dims, (3, 2));
    assert_eq!(g.alignment, (Alignment::End, Alignment::Begin));
    assert_eq!(g.strokes(), Some((4, 3)));
    let g = MGrid::from_string("grid", &mut p).unwrap();
    assert_eq!(g.dims, (1, 1));
    assert_eq!(g.strokes(), Some((2, 2)));
    assert!(MGrid::from_string("grid d=(3;2)", &mut p).is_none());
}

#[test]
fn poly_reads_its_points_in_order() {
    let mut p = props();
    let poly = MPoly::from_string("poly p=(0,0) p=(1,0) w=2 p=(1,1) f=1 t=hull", &mut p).unwrap();
    let points: Vec<(String, String)> =
        poly.points.iter().map(|q| (q.x.as_str().to_string(), q.y.as_str().to_string())).collect();
    assert_eq!(
        points,
        vec![
            ("0".to_string(), "0".to_string()),
            ("1".to_string(), "0".to_string()),
            ("1".to_string(), "1".to_string())
        ]
    );
    assert!(poly.fill);
    assert_eq!(poly.width.as_str(), "2");
    assert_eq!(poly.common.tags, vec!["hull".to_string()]);
    let empty = MPoly::from_string("poly", &mut p).unwrap();
    assert!(empty.points.is_empty());
    assert!(MPoly::from_string("poly p=(0,0) p=(1)", &mut p).is_none());
}

#[test]
fn text_reads_plain_and_quoted_text() {
    let mut p = props();
    p.font = Scalar::parse("3").unwrap();
    let t = MText::from_string("text c=(1,2) m=hello s=12 a=BC", &mut p).unwrap();
    assert_eq!(t.text, "hello");
    assert_eq!(t.font.as_str(), "12");
    assert_eq!((t.center.x.as_str(), t.center.y.as_str()), ("1", "2"));
    assert_eq!(t.alignment, (Alignment::Begin, Alignment::Center));
    let t = MText::from_string("text m=\"hello big world\" c=(1,2)", &mut p).unwrap();
    assert_eq!(t.text, "hello big world");
    assert_eq!(t.font.as_str(), "3");
    assert_eq!((t.center.x.as_str(), t.center.y.as_str()), ("1", "2"));
}

#[test]
fn text_turns_semicolons_into_line_breaks() {
    let mut p = props();
    let t = MText::from_string("text m=\"one;two\"", &mut p).unwrap();
    assert_eq!(t.text, "one\ntwo");
    let t = MText::from_string("text m=a;b", &mut p).unwrap();
    assert_eq!(t.text, "a\nb");
}

#[test]
fn text_without_marker_is_empty() {
    let mut p = props();
    let t = MText::from_string("text c=(1,2)", &mut p).unwrap();
    assert_eq!(t.text, "");
    let t = MText::from_string("text c=(1,2) m=", &mut p).unwrap();
    assert_eq!(t.text, "");
}

#[test]
fn text_with_an_open_quote_is_no_figure() {
    let mut p = props();
    assert!(MText::from_string("text m=\"never closed", &mut p).is_none());
    assert!(MText::from_string("m=abc", &mut p).is_none());
    assert!(MText::from_string("text m=ok s=huge", &mut p).is_none());
}

#[test]
fn split_text_separates_text_and_rest() {
    let (t, rest) = split_text(&chars("text c=(1,2) m=\"a b\" s=3")).unwrap();
    assert_eq!(text(&t), "a b");
    assert_eq!(text(&rest), "text c=(1,2) s=3");
    let (t, rest) = split_text(&chars("text m=ab s=3")).unwrap();
    assert_eq!(text(&t), "ab");
    assert_eq!(text(&rest), "text s=3");
    let (t, rest) = split_text(&chars("text s=3")).unwrap();
    assert_eq!(text(&t), "");
    assert_eq!(text(&rest), "text s=3");
}

#[test]
fn messages_stack_in_order() {
    let mut p = props();
    let a = MMessage::from_string("msg first one", &mut p);
    let b = MMessage::from_string("msg second", &mut p);
    assert_eq!(a.message_ind, 0);
    assert_eq!(a.text, "first one");
    assert_eq!(b.message_ind, 1);
    assert_eq!(b.text, "second");
    assert_eq!(p.was_messages, 2);
    assert!(a.common.tags.is_empty());
    let c = MMessage::from_string("msg", &mut p);
    assert_eq!(c.text, "");
    assert_eq!(c.message_ind, 2);
}

#[test]
fn keyword_names_the_shape() {
    assert_eq!(keyword(&chars("rect c=(1,2)")), Some(Kind::Rect));
    assert_eq!(keyword(&chars("circle")), Some(Kind::Circle));
    assert_eq!(keyword(&chars("line")), Some(Kind::Line));
    assert_eq!(keyword(&chars("grid")), Some(Kind::Grid));
    assert_eq!(keyword(&chars("polygon")), Some(Kind::Poly));
    assert_eq!(keyword(&chars("text")), Some(Kind::Text));
    assert_eq!(keyword(&chars("msg hi")), Some(Kind::Message));
    assert_eq!(keyword(&chars("Rect")), None);
    assert_eq!(keyword(&chars(" rect")), None);
    assert_eq!(keyword(&chars("")), None);
}

#[test]
fn from_string_dispatches_on_the_keyword() {
    let mut p = props();
    assert!(matches!(from_string("rect c=(1,2)", &mut p), Some(Figure::Rect(_))));
    assert!(matches!(from_string("circle r=2", &mut p), Some(Figure::Circle(_))));
    assert!(matches!(from_string("line", &mut p), Some(Figure::Line(_))));
    assert!(matches!(from_string("grid", &mut p), Some(Figure::Grid(_))));
    assert!(matches!(from_string("poly p=(1,2)", &mut p), Some(Figure::Poly(_))));
    assert!(matches!(from_string("text m=x", &mut p), Some(Figure::Text(_))));
    assert!(matches!(from_string("msg hi", &mut p), Some(Figure::Message(_))));
    assert!(from_string("triangle", &mut p).is_none());
    assert!(from_string("", &mut p).is_none());
    assert!(from_string("rect c=oops", &mut p).is_none());
    assert_eq!(p.was_messages, 1);
}

#[test]
fn figure_reports_kind_tags_and_keep() {
    let mut p = props();
    let f = from_string("circle t=a t=b k=1", &mut p).unwrap();
    assert_eq!(f.kind(), Kind::Circle);
    assert_eq!(f.tags(), &vec!["a".to_string(), "b".to_string()]);
    assert!(f.keep());
    assert_eq!(f.common().color, Color::rgb(0, 0, 0));
}

#[test]
fn untagged_figures_are_always_drawn() {
    let mut p = props();
    let f = from_string("rect", &mut p).unwrap();
    assert!(f.need_to_draw(&[]));
    assert!(f.need_to_draw(&["a".to_string()]));
}

#[test]
fn tagged_figures_need_an_enabled_tag() {
    let mut p = props();
    let f = from_string("rect t=a t=b", &mut p).unwrap();
    assert!(!f.need_to_draw(&[]));
    assert!(!f.need_to_draw(&["c".to_string()]));
    assert!(f.need_to_draw(&["b".to_string()]));
    assert!(f.need_to_draw(&["c".to_string(), "a".to_string()]));
}

#[test]
fn color_is_named_without_its_opacity() {
    let mut p = props();
    let f = from_string("rect col=(255,0,7,128)", &mut p).unwrap();
    assert_eq!(f.color_to_string(), "rgb(255, 0, 7)");
    let f = from_string("line", &mut p).unwrap();
    assert_eq!(f.color_to_string(), "rgb(0, 0, 0)");
}

#[test]
fn common_block_reads_from_params() {
    let mut p = props();
    let c = CommonParams::new(&Params::from_str("x col=(1,2,3) t=q id=4"), &mut p).unwrap();
    assert_eq!(c.color, Color::rgb(1, 2, 3));
    assert_eq!(c.tags, vec!["q".to_string()]);
    assert_eq!(c.id, Some(4));
    assert!(CommonParams::new(&Params::from_str("x id=four"), &mut p).is_none());
    let d = CommonParams::default();
    assert_eq!(d.color, Color::rgb(0, 0, 0));
    assert!(d.tags.is_empty() && !d.keep && d.id.is_none() && d.func.is_none());
    let e = c.with_color(Color::rgb(9, 9, 9));
    assert_eq!(e.color, Color::rgb(9, 9, 9));
    assert_eq!(e.tags, c.tags);
    assert_eq!(e.id, c.id);
}

#[test]
fn alignment_letters_convert_both_ways() {
    for a in [Alignment::Begin, Alignment::Center, Alignment::End] {
        assert_eq!(Alignment::from_char(a.to_char()), Some(a));
    }
    assert_eq!(Alignment::Begin.to_char(), 'B');
    assert_eq!(Alignment::Center.to_char(), 'C');
    assert_eq!(Alignment::End.to_char(), 'E');
    assert_eq!(Alignment::from_char('b'), None);
    assert_eq!(Alignment::Begin.shift(), 1);
    assert_eq!(Alignment::Center.shift(), 0);
    assert_eq!(Alignment::End.shift(), -1);
}

#[test]
fn color_builders_set_single_channels() {
    let c = Color::rgb(1, 2, 3);
    assert_eq!(c, Color { r: 1, g: 2, b: 3, a: 255 });
    assert_eq!(c.r(9), Color { r: 9, g: 2, b: 3, a: 255 });
    assert_eq!(c.g(9), Color { r: 1, g: 9, b: 3, a: 255 });
    assert_eq!(c.b(9), Color { r: 1, g: 2, b: 9, a: 255 });
    assert_eq!(c.a(9), Color { r: 1, g: 2, b: 3, a: 9 });
    assert_eq!(Color::rgba(4, 5, 6, 7), Color { r: 4, g: 5, b: 6, a: 7 });
}

#[test]
fn named_colours_are_opaque() {
    assert_eq!(Color::white(), Color::rgb(255, 255, 255));
    assert_eq!(Color::red(), Color::rgb(255, 0, 0));
    assert_eq!(Color::green(), Color::rgb(0, 255, 0));
    assert_eq!(Color::blue(), Color::rgb(0, 0, 255));
    assert_eq!(Color::yellow(), Color::rgb(255, 255, 0));
    assert_eq!(Color::cyan(), Color::rgb(0, 255, 255));
    assert_eq!(Color::magenta(), Color::rgb(255, 0, 255));
    assert_eq!(Color::orange(), Color::rgb(255, 165, 0));
    assert_eq!(Color::default(), Color::rgba(0, 0, 0, 0));
}
