use rviewer::alignment::Alignment;
use rviewer::app_data::DrawProperties;
use rviewer::client::{
    disable_tag, message, set_func, tick, Circle, Grid, Init, Line, Poly, Rect, Rviewerable, Text,
};
use rviewer::color::Color;
use rviewer::figure::{from_string, Figure};
use rviewer::number::Scalar;
use rviewer::parse::Point;
use rviewer::scene::Scene;

fn num(s: &str) -> Scalar {
    Scalar::parse(s).unwrap()
}

fn pt(x: &str, y: &str) -> Point {
    Point { x: num(x), y: num(y) }
}

fn read(line: &str) -> Figure {
    from_string(line.trim_end_matches('\n'), &mut DrawProperties::new()).unwrap()
}

#[test]
fn helper_lines() {
    assert_eq!(tick(), "tick\n");
    assert_eq!(disable_tag("foo"), "disable foo\n");
    assert_eq!(message("hello there"), "msg hello there\n");
    assert_eq!(set_func("f1", &[num("0.25"), num("0.5"), num("1")]), "setfunc f1 0.25 0.5 1\n");
    assert_eq!(set_func("f1", &[]), "setfunc f1 \n");
    assert_eq!(set_func("f2", &[num("1")]), "setfunc f2 1\n");
}

#[test]
fn blank_builders_write_only_the_keyword() {
    assert_eq!(Rect::new().draw(), "rect \n");
    assert_eq!(Circle::new().draw(), "circle \n");
    assert_eq!(Line::new().draw(), "line \n");
    assert_eq!(Grid::new().draw(), "grid \n");
    assert_eq!(Poly::new().draw(), "poly \n");
    assert_eq!(Text::new().draw(), "text \n");
    assert_eq!(Init::new().draw(), "");
}

#[test]
fn rect_writes_its_fields_in_order() {
    let line = Rect::new()
        .keep(true)
        .tag("a".to_string())
        .func("ease".to_string())
        .id(-3)
        .alignment((Alignment::Begin, Alignment::End))
        .color(Color::rgb(1, 2, 3))
        .fill(true)
        .width(num("1.5"))
        .size(pt("2", "2"))
        .center(pt("5", "5"))
        .tag("b".to_string())
        .draw();
    assert_eq!(line, "rect c=(5,5) s=(2,2) w=1.5 f=1 col=(1,2,3) a=BE id=-3 fu=ease t=a t=b k=1 \n");
}

#[test]
fn colour_writes_its_opacity_only_when_not_opaque() {
    assert_eq!(Rect::new().color(Color::rgb(255, 0, 0)).draw(), "rect col=(255,0,0) \n");
    assert_eq!(Rect::new().color(Color::rgba(255, 0, 0, 128)).draw(), "rect col=(255,0,0,128) \n");
    assert_eq!(Rect::new().color(Color::rgba(0, 0, 0, 0)).draw(), "rect col=(0,0,0,0) \n");
}

#[test]
fn unset_flags_are_not_written() {
    assert_eq!(Rect::new().fill(false).keep(false).draw(), "rect \n");
    assert_eq!(Rect::new().fill(true).fill(false).draw(), "rect \n");
}

#[test]
fn circle_line_grid_poly_and_text_write_their_fields() {
    assert_eq!(
        Circle::new().center(pt("1", "2")).radius(num("3")).arc(pt("0", "1.5")).fill(true).draw(),
        "circle c=(1,2) r=3 arc=(0,1.5) f=1 \n"
    );
    assert_eq!(
        Line::new().start(pt("0", "0")).finish(pt("1", "1")).width(num("2")).draw(),
        "line s=(0,0) f=(1,1) w=2 \n"
    );
    assert_eq!(
        Grid::new().center(pt("15", "15")).size(pt("30", "30")).dims((3, 2)).draw(),
        "grid c=(15,15) s=(30,30) d=(3,2) \n"
    );
    assert_eq!(
        Poly::new().point(pt("0", "0")).point(pt("1", "0")).point(pt("1", "1")).fill(true).draw(),
        "poly p=(0,0) p=(1,0) p=(1,1) f=1 \n"
    );
    assert_eq!(
        Text::new().text("hi".to_string()).center(pt("1", "2")).font(num("3")).draw(),
        "text m=hi c=(1,2) s=3 \n"
    );
}

#[test]
fn strings_with_blanks_are_quoted() {
    assert_eq!(Text::new().text("two words".to_string()).draw(), "text m=\"two words\" \n");
    assert_eq!(Text::new().text("one".to_string()).draw(), "text m=one \n");
    assert_eq!(Rect::new().tag("a b".to_string()).draw(), "rect t=\"a b\" \n");
}

#[test]
fn init_writes_one_directive_per_line() {
    let text = Init::new()
        .size(pt("80", "60"))
        .speed(num("30"))
        .in_betweens(60)
        .flipy(true)
        .svg_width(num("0.08"))
        .draw();
    assert_eq!(text, "size=(80,60)\nspeed=30\nsvgwidth=0.08\nin_betweens=60\nflipy=1\n");
    let text = Init::new().shift(pt("1", "2")).font(num("3")).width(num("4")).draw();
    assert_eq!(text, "shift=(1,2)\nfont=3\nwidth=4\n");
}

#[test]
fn rect_reads_back_as_written() {
    let line = Rect::new()
        .center(pt("5.5", "-5"))
        .size(pt("2e1", ".5"))
        .width(num("1.5"))
        .fill(true)
        .color(Color::rgba(1, 2, 3, 4))
        .alignment((Alignment::End, Alignment::Begin))
        .id(-2147483648)
        .func("ease".to_string())
        .tag("a".to_string())
        .tag("b".to_string())
        .keep(true)
        .draw();
    match read(&line) {
        Figure::Rect(r) => {
            assert_eq!((r.center.x.as_str(), r.center.y.as_str()), ("5.5", "-5"));
            assert_eq!((r.size.x.as_str(), r.size.y.as_str()), ("2e1", ".5"));
            assert_eq!(r.width.as_str(), "1.5");
            assert!(r.fill);
            assert_eq!(r.common.color, Color::rgba(1, 2, 3, 4));
            assert_eq!(r.alignment, (Alignment::End, Alignment::Begin));
            assert_eq!(r.common.id, Some(-2147483648));
            assert_eq!(r.common.func, Some("ease".to_string()));
            assert_eq!(r.common.tags, vec!["a".to_string(), "b".to_string()]);
            assert!(r.common.keep);
        }
        _ => panic!("a rectangle was written"),
    }
}

#[test]
fn circle_reads_back_as_written() {
    let line = Circle::new()
        .center(pt("1", "2"))
        .radius(num("0.4"))
        .arc(pt("-3.14", "3.14"))
        .width(num("2"))
        .color(Color::rgb(0, 255, 255))
        .id(100)
        .draw();
    match read(&line) {
        Figure::Circle(c) => {
            assert_eq!((c.center.x.as_str(), c.center.y.as_str()), ("1", "2"));
            assert_eq!(c.radius.as_str(), "0.4");
            let arc = c.arc.unwrap();
            assert_eq!((arc.x.as_str(), arc.y.as_str()), ("-3.14", "3.14"));
            assert_eq!(c.width.as_str(), "2");
            assert!(!c.fill);
            assert_eq!(c.common.color, Color::rgb(0, 255, 255));
            assert_eq!(c.common.id, Some(100));
        }
        _ => panic!("a circle was written"),
    }
}

#[test]
fn line_grid_and_poly_read_back_as_written() {
    match read(&Line::new().start(pt("45", "7")).finish(pt("45", "13")).tag("x".to_string()).draw()) {
        Figure::Line(l) => {
            assert_eq!((l.start.x.as_str(), l.start.y.as_str()), ("45", "7"));
            assert_eq!((l.finish.x.as_str(), l.finish.y.as_str()), ("45", "13"));
            assert_eq!(l.width.as_str(), "1");
            assert_eq!(l.common.tags, vec!["x".to_string()]);
        }
        _ => panic!("a line was written"),
    }
    match read(&Grid::new().dims((30, 20)).alignment((Alignment::Center, Alignment::End)).draw()) {
        Figure::Grid(g) => {
            assert_eq!(g.dims, (30, 20));
            assert_eq!(g.alignment, (Alignment::Center, Alignment::End));
        }
        _ => panic!("a grid was written"),
    }
    match read(&Poly::new().point(pt("1", "2")).point(pt("3", "4")).keep(true).draw()) {
        Figure::Poly(p) => {
            assert_eq!(p.points.len(), 2);
            assert_eq!((p.points[1].x.as_str(), p.points[1].y.as_str()), ("3", "4"));
            assert!(p.common.keep);
            assert!(!p.fill);
        }
        _ => panic!("a polygon was written"),
    }
}

#[test]
fn text_reads_back_as_written() {
    for content in ["plain", "two words", "", "m=tricky", "a=b c"] {
        let line = Text::new()
            .text(content.to_string())
            .center(pt("70", "5"))
            .font(num("3"))
            .color(Color::rgb(255, 255, 255))
            .id(3)
            .func("f1".to_string())
            .draw();
        match read(&line) {
            Figure::Text(t) => {
                assert_eq!(t.text, content);
                assert_eq!((t.center.x.as_str(), t.center.y.as_str()), ("70", "5"));
                assert_eq!(t.font.as_str(), "3");
                assert_eq!(t.common.color, Color::rgb(255, 255, 255));
                assert_eq!(t.common.id, Some(3));
                assert_eq!(t.common.func, Some("f1".to_string()));
            }
            _ => panic!("a text was written"),
        }
    }
}

#[test]
fn written_lines_read_back_with_their_line_end_too() {
    let line = Rect::new().center(pt("5", "5")).keep(true).draw();
    assert!(line.ends_with('\n'));
    match from_string(&line, &mut DrawProperties::new()) {
        Some(Figure::Rect(r)) => {
            assert_eq!((r.center.x.as_str(), r.center.y.as_str()), ("5", "5"));
            assert!(r.common.keep);
        }
        _ => panic!("a rectangle was written"),
    }
}

#[test]
fn a_written_scene_is_read_as_it_was_described() {
    let mut text = String::new();
    text += &Init::new().size(pt("30", "30")).speed(num("2")).draw();
    text += &disable_tag("debug");
    text += &Grid::new().center(pt("15", "15")).size(pt("30", "30")).dims((3, 3)).draw();
    text += &tick();
    text += &Rect::new().center(pt("5", "5")).tag("debug".to_string()).draw();
    text += &message("step one");
    text += &tick();
    text += &Circle::new().center(pt("5", "5")).radius(num("0.2")).fill(true).draw();
    let lines: Vec<String> = text.lines().map(|l| l.to_string()).collect();
    let scene = Scene::from_lines(&lines);
    assert_eq!(scene.unparsed(), 0);
    assert_eq!(scene.object_count(), 4);
    assert_eq!(scene.frame_count(), 2);
    assert_eq!(scene.frame(0).unwrap(), &vec![0, 1, 2]);
    assert_eq!(scene.frame(1).unwrap(), &vec![0, 3]);
    assert_eq!((scene.size().x.as_str(), scene.size().y.as_str()), ("30", "30"));
    assert_eq!(scene.speed().unwrap().as_str(), "2");
    assert_eq!(scene.tags().len(), 1);
    assert_eq!(scene.tags().label(0), "debug");
    assert!(!scene.tags().is_enabled(0));
    let enabled = scene.tags().enabled_tags();
    assert_eq!(scene.visible_objects(0, &enabled), vec![0, 2]);
    match scene.object(2) {
        Some(Figure::Message(m)) => assert_eq!(m.text, "step one"),
        _ => panic!("the third object is the message"),
    }
}
