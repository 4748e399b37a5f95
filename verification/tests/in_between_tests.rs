use rviewer::alignment::Alignment;
use rviewer::app_data::DrawProperties;
use rviewer::color::Color;
use rviewer::figure::circle::MCircle;
use rviewer::figure::grid::MGrid;
use rviewer::figure::line::MLine;
use rviewer::figure::poly::MPoly;
use rviewer::figure::rect::MRect;
use rviewer::figure::text::MText;
use rviewer::figure::{from_string, Figure};
use rviewer::in_between::{in_betweens, InBetweenProperties};
use rviewer::number::Scalar;
use rviewer::parse::Point;

fn num(s: &str) -> Scalar {
    Scalar::parse(s).unwrap()
}

fn pt(x: &str, y: &str) -> Point {
    Point { x: num(x), y: num(y) }
}

fn curve(values: &[&str]) -> Vec<Scalar> {
    values.iter().map(|v| num(v)).collect()
}

fn figure(line: &str) -> Figure {
    from_string(line, &mut DrawProperties::new()).unwrap()
}

fn texts(steps: &[Scalar]) -> Vec<String> {
    steps.iter().map(|s| s.as_str().to_string()).collect()
}

fn properties() -> InBetweenProperties {
    let mut p = InBetweenProperties::with_frames(4, curve(&["0.25", "0.5", "0.75"])).unwrap();
    assert!(p.set_func("late".to_string(), curve(&["0", "0.1", "0.9", "1"])));
    p
}

#[test]
fn new_properties_have_no_in_between() {
    let p = InBetweenProperties::new();
    assert_eq!(p.frames(), 1);
    assert!(in_betweens(&figure("rect"), &figure("rect"), &p).is_empty());
    assert!(p.curve(None).is_empty());
}

#[test]
fn properties_refuse_short_curves() {
    assert!(InBetweenProperties::with_frames(0, Vec::new()).is_none());
    assert!(InBetweenProperties::with_frames(4, curve(&["0.5", "1"])).is_none());
    assert!(InBetweenProperties::with_frames(1, Vec::new()).is_some());
    assert!(InBetweenProperties::with_frames(3, curve(&["0.5", "1", "1"])).is_some());
    let mut p = properties();
    assert!(!p.set_func("short".to_string(), curve(&["0.5"])));
    assert_eq!(texts(p.curve(Some(&"short".to_string()))), vec!["0.25", "0.5", "0.75"]);
}

#[test]
fn same_kind_gives_one_factor_per_in_between() {
    let p = properties();
    let steps = in_betweens(&figure("rect c=(0,0)"), &figure("rect c=(4,4)"), &p);
    assert_eq!(texts(&steps), vec!["0.25", "0.5", "0.75"]);
}

#[test]
fn the_second_keyframe_chooses_the_curve() {
    let p = properties();
    let steps = in_betweens(&figure("circle fu=other"), &figure("circle fu=late"), &p);
    assert_eq!(texts(&steps), vec!["0", "0.1", "0.9"]);
    let steps = in_betweens(&figure("circle fu=late"), &figure("circle fu=unknown"), &p);
    assert_eq!(texts(&steps), vec!["0.25", "0.5", "0.75"]);
    let steps = in_betweens(&figure("circle fu=late"), &figure("circle"), &p);
    assert_eq!(texts(&steps), vec!["0.25", "0.5", "0.75"]);
}

#[test]
fn a_curve_set_later_replaces_the_earlier_one() {
    let mut p = properties();
    assert!(p.set_func("late".to_string(), curve(&["1", "1", "1"])));
    assert_eq!(texts(p.curve(Some(&"late".to_string()))), vec!["1", "1", "1"]);
    assert_eq!(texts(&p.steps(Some(&"late".to_string()))), vec!["1", "1", "1"]);
    assert_eq!(texts(&p.steps(None)), vec!["0.25", "0.5", "0.75"]);
}

#[test]
fn different_kinds_have_no_in_between() {
    let p = properties();
    assert!(in_betweens(&figure("rect"), &figure("circle"), &p).is_empty());
    assert!(in_betweens(&figure("line"), &figure("grid"), &p).is_empty());
    assert!(in_betweens(&figure("text m=a"), &figure("poly"), &p).is_empty());
    assert!(in_betweens(&figure("msg a"), &figure("rect"), &p).is_empty());
}

#[test]
fn messages_have_no_in_between() {
    let p = properties();
    assert!(in_betweens(&figure("msg a"), &figure("msg b"), &p).is_empty());
}

#[test]
fn every_shape_has_in_betweens_with_its_own_kind() {
    let p = properties();
    for line in ["rect", "circle", "line", "grid", "poly p=(1,2)", "text m=a"] {
        assert_eq!(in_betweens(&figure(line), &figure(line), &p).len(), 3, "{}", line);
    }
    let mut props = DrawProperties::new();
    let a = MRect::from_string("rect", &mut props).unwrap();
    let b = MRect::from_string("rect fu=late", &mut props).unwrap();
    assert_eq!(texts(&MRect::in_betweens(&a, &b, &p)), vec!["0", "0.1", "0.9"]);
    let a = MCircle::from_string("circle", &mut props).unwrap();
    assert_eq!(MCircle::in_betweens(&a, &a, &p).len(), 3);
    let a = MLine::from_string("line", &mut props).unwrap();
    assert_eq!(MLine::in_betweens(&a, &a, &p).len(), 3);
    let a = MGrid::from_string("grid", &mut props).unwrap();
    assert_eq!(MGrid::in_betweens(&a, &a, &p).len(), 3);
    let a = MPoly::from_string("poly", &mut props).unwrap();
    assert_eq!(MPoly::in_betweens(&a, &a, &p).len(), 3);
    let a = MText::from_string("text", &mut props).unwrap();
    assert_eq!(MText::in_betweens(&a, &a, &p).len(), 3);
}

#[test]
fn rect_in_between_keeps_the_discrete_fields_of_the_first() {
    let mut props = DrawProperties::new();
    let a = MRect::from_string("rect f=1 a=BE t=x k=1 id=4 fu=ease col=(0,0,0)", &mut props).unwrap();
    let r = MRect::between(&a, pt("1", "2"), pt("3", "4"), num("5"), Color::rgb(10, 20, 30));
    assert_eq!((r.center.x.as_str(), r.center.y.as_str()), ("1", "2"));
    assert_eq!((r.size.x.as_str(), r.size.y.as_str()), ("3", "4"));
    assert_eq!(r.width.as_str(), "5");
    assert_eq!(r.common.color, Color::rgb(10, 20, 30));
    assert!(r.fill);
    assert_eq!(r.alignment, (Alignment::Begin, Alignment::End));
    assert_eq!(r.common.tags, vec!["x".to_string()]);
    assert!(r.common.keep);
    assert_eq!(r.common.id, Some(4));
    assert_eq!(r.common.func, Some("ease".to_string()));
}

#[test]
fn circle_in_between_is_an_arc_only_between_arcs() {
    let mut props = DrawProperties::new();
    let full = MCircle::from_string("circle f=1", &mut props).unwrap();
    let arc = MCircle::from_string("circle arc=(0,1)", &mut props).unwrap();
    let c = MCircle::between(&arc, &arc, pt("0", "0"), num("1"), num("1"), Some(pt("0", "0.5")), Color::rgb(0, 0, 0));
    let blended = c.arc.unwrap();
    assert_eq!((blended.x.as_str(), blended.y.as_str()), ("0", "0.5"));
    assert!(!c.fill);
    let c = MCircle::between(&arc, &full, pt("0", "0"), num("1"), num("1"), Some(pt("0", "0.5")), Color::rgb(0, 0, 0));
    assert!(c.arc.is_none());
    let c = MCircle::between(&full, &arc, pt("0", "0"), num("2"), num("1"), Some(pt("0", "0.5")), Color::rgb(0, 0, 0));
    assert!(c.arc.is_none());
    assert!(c.fill);
    assert_eq!(c.radius.as_str(), "2");
    let c = MCircle::between(&arc, &arc, pt("0", "0"), num("1"), num("1"), None, Color::rgb(0, 0, 0));
    assert!(c.arc.is_none());
}

#[test]
fn line_grid_and_poly_in_betweens_take_what_they_are_given() {
    let mut props = DrawProperties::new();
    let a = MLine::from_string("line t=x", &mut props).unwrap();
    let l = MLine::between(&a, pt("1", "1"), pt("2", "2"), num("3"), Color::rgb(1, 1, 1));
    assert_eq!((l.finish.x.as_str(), l.finish.y.as_str()), ("2", "2"));
    assert_eq!(l.common.tags, vec!["x".to_string()]);
    let a = MGrid::from_string("grid a=EE d=(2,2)", &mut props).unwrap();
    let g = MGrid::between(&a, pt("1", "1"), pt("2", "2"), (3, 4), num("3"), Color::rgb(1, 1, 1));
    assert_eq!(g.dims, (3, 4));
    assert_eq!(g.alignment, (Alignment::End, Alignment::End));
    let a = MPoly::from_string("poly f=1 p=(0,0)", &mut props).unwrap();
    let p = MPoly::between(&a, vec![pt("1", "1"), pt("2", "2")], num("3"), Color::rgb(1, 1, 1));
    assert_eq!(p.points.len(), 2);
    assert!(p.fill);
    assert_eq!(p.width.as_str(), "3");
}

#[test]
fn text_in_between_cuts_the_longer_text() {
    let mut props = DrawProperties::new();
    let long = MText::from_string("text m=abcdefgh a=BC", &mut props).unwrap();
    let short = MText::from_string("text m=xyz", &mut props).unwrap();
    let t = MText::between(&long, &short, pt("0", "0"), 5, num("2"), Color::rgb(0, 0, 0));
    assert_eq!(t.text, "abcde");
    assert_eq!(t.alignment, (Alignment::Begin, Alignment::Center));
    let t = MText::between(&short, &long, pt("0", "0"), 5, num("2"), Color::rgb(0, 0, 0));
    assert_eq!(t.text, "abcde");
    assert_eq!(t.alignment, (Alignment::Center, Alignment::Center));
    let t = MText::between(&short, &short, pt("0", "0"), 0, num("2"), Color::rgb(0, 0, 0));
    assert_eq!(t.text, "");
    let t = MText::between(&short, &short, pt("0", "0"), 3, num("2"), Color::rgb(0, 0, 0));
    assert_eq!(t.text, "xyz");
    let t = MText::between(&short, &long, pt("0", "0"), 100, num("2"), Color::rgb(0, 0, 0));
    assert_eq!(t.text, "abcdefgh");
    assert_eq!(t.font.as_str(), "2");
}
