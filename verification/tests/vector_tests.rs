use rviewer::app_data::DrawProperties;
use rviewer::figure::{from_string, Figure};
use rviewer::number::Scalar;
use rviewer::parse::Point;
use rviewer::scene::Scene;
use rviewer::vector::{
    blank_page, export_frame, fit, Canvas, CirclePlacement, GridPlacement, LinePlacement,
    Placement, PolyPlacement, RectPlacement, Segment, TextPlacement,
};

const HEAD: &str = "<svg height=\"10\" viewBox=\"0 0 10 10\" width=\"10\" xmlns=\"http://www.w3.org/2000/svg\">\n<rect fill=\"rgb(41, 41, 41)\" height=\"10\" width=\"10\" x=\"0\" y=\"0\"/>";

fn num(s: &str) -> Scalar {
    Scalar::parse(s).unwrap()
}

fn canvas() -> Canvas {
    Canvas { width: num("10"), height: num("10") }
}

fn figure(line: &str) -> Figure {
    from_string(line, &mut DrawProperties::new()).unwrap()
}

fn page(body: &str) -> String {
    format!("{}\n{}\n</svg>", HEAD, body)
}

fn rect_place() -> Placement {
    Placement::Rect(RectPlacement {
        x: num("4"),
        y: num("4"),
        width: num("2"),
        height: num("2"),
        stroke_width: num("0.3"),
        opacity: num("1"),
    })
}

fn ends(x1: &str, y1: &str, x2: &str, y2: &str) -> Segment {
    Segment { x1: num(x1), y1: num(y1), x2: num(x2), y2: num(y2) }
}

fn line_place(x1: &str, y1: &str, x2: &str, y2: &str) -> LinePlacement {
    LinePlacement { ends: ends(x1, y1, x2, y2), stroke_width: num("0.3"), opacity: num("0.5") }
}

fn grid_place(vertical: Vec<Segment>, horizontal: Vec<Segment>) -> Placement {
    Placement::Grid(GridPlacement { vertical, horizontal, stroke_width: num("0.3"), opacity: num("0.5") })
}

fn poly_place(points: &[(&str, &str)]) -> Placement {
    Placement::Poly(PolyPlacement {
        points: points.iter().map(|(x, y)| Point { x: num(x), y: num(y) }).collect(),
        stroke_width: num("0.3"),
        opacity: num("1"),
    })
}

fn circle_place(arc: Option<&str>) -> Placement {
    Placement::Circle(CirclePlacement {
        cx: num("5"),
        cy: num("6"),
        r: num("2"),
        stroke_width: num("0.3"),
        opacity: num("1"),
        arc: arc.map(|d| d.to_string()),
    })
}

#[test]
fn blank_page_has_size_and_background() {
    assert_eq!(blank_page(&canvas()).to_string(), format!("{}\n</svg>", HEAD));
    let wide = Canvas { width: num("80"), height: num("60.5") };
    assert_eq!(
        blank_page(&wide).to_string(),
        "<svg height=\"60.5\" viewBox=\"0 0 80 60.5\" width=\"80\" xmlns=\"http://www.w3.org/2000/svg\">\n<rect fill=\"rgb(41, 41, 41)\" height=\"60.5\" width=\"80\" x=\"0\" y=\"0\"/>\n</svg>"
    );
}

#[test]
fn filled_rect_is_painted_with_its_colour() {
    let doc = figure("rect f=1 col=(255,0,0)").draw_on_image(blank_page(&canvas()), &rect_place());
    assert_eq!(
        doc.to_string(),
        page("<rect fill=\"rgb(255, 0, 0)\" height=\"2\" opacity=\"1\" stroke-width=\"0.3\" width=\"2\" x=\"4\" y=\"4\"/>")
    );
}

#[test]
fn open_rect_is_stroked_and_not_filled() {
    let doc = figure("rect col=(0,0,255)").draw_on_image(blank_page(&canvas()), &rect_place());
    assert_eq!(
        doc.to_string(),
        page("<rect fill=\"none\" height=\"2\" opacity=\"1\" stroke=\"rgb(0, 0, 255)\" stroke-width=\"0.3\" width=\"2\" x=\"4\" y=\"4\"/>")
    );
}

#[test]
fn circle_is_a_circle_element() {
    let doc = figure("circle f=1").draw_on_image(blank_page(&canvas()), &circle_place(None));
    assert_eq!(
        doc.to_string(),
        page("<circle cx=\"5\" cy=\"6\" fill=\"rgb(0, 0, 0)\" opacity=\"1\" r=\"2\" stroke-width=\"0.3\"/>")
    );
    let doc = figure("circle").draw_on_image(blank_page(&canvas()), &circle_place(None));
    assert_eq!(
        doc.to_string(),
        page("<circle cx=\"5\" cy=\"6\" fill=\"none\" opacity=\"1\" r=\"2\" stroke=\"rgb(0, 0, 0)\" stroke-width=\"0.3\"/>")
    );
}

#[test]
fn arc_is_a_path_element() {
    let d = "M7,6 A2,2,0,0,1,5,8";
    let doc = figure("circle arc=(0,1.5)").draw_on_image(blank_page(&canvas()), &circle_place(Some(d)));
    assert_eq!(
        doc.to_string(),
        page("<path d=\"M7,6 A2,2,0,0,1,5,8\" fill=\"none\" opacity=\"1\" stroke=\"rgb(0, 0, 0)\" stroke-width=\"0.3\"/>")
    );
    let doc =
        figure("circle arc=(0,1.5) f=1").draw_on_image(blank_page(&canvas()), &circle_place(Some(d)));
    assert_eq!(
        doc.to_string(),
        page("<path d=\"M7,6 A2,2,0,0,1,5,8\" fill=\"rgb(0, 0, 0)\" opacity=\"1\" stroke=\"none\"/>")
    );
}

#[test]
fn line_is_stroked_with_its_colour() {
    let doc = figure("line col=(0,255,0,128)")
        .draw_on_image(blank_page(&canvas()), &Placement::Line(line_place("0", "1", "2", "3")));
    assert_eq!(
        doc.to_string(),
        page("<line opacity=\"0.5\" stroke=\"rgb(0, 255, 0)\" stroke-width=\"0.3\" x1=\"0\" x2=\"2\" y1=\"1\" y2=\"3\"/>")
    );
}

#[test]
fn grid_paints_vertical_strokes_then_horizontal_ones() {
    let grid = figure("grid d=(2,1)");
    let place = grid_place(
        vec![ends("0", "0", "0", "4"), ends("2", "0", "2", "4"), ends("4", "0", "4", "4")],
        vec![ends("0", "0", "4", "0"), ends("0", "4", "4", "4")],
    );
    assert!(grid.fits(&place));
    let doc = grid.draw_on_image(blank_page(&canvas()), &place);
    let stroke = |x1: &str, y1: &str, x2: &str, y2: &str| {
        format!(
            "<line opacity=\"0.5\" stroke=\"rgb(0, 0, 0)\" stroke-width=\"0.3\" x1=\"{}\" x2=\"{}\" y1=\"{}\" y2=\"{}\"/>",
            x1, x2, y1, y2
        )
    };
    assert_eq!(
        doc.to_string(),
        page(&format!(
            "{}\n{}\n{}\n{}\n{}",
            stroke("0", "0", "0", "4"),
            stroke("2", "0", "2", "4"),
            stroke("4", "0", "4", "4"),
            stroke("0", "0", "4", "0"),
            stroke("0", "4", "4", "4")
        ))
    );
    assert_eq!(doc.to_string().matches("<line").count(), (2 + 1) + (1 + 1));
}

#[test]
fn grid_takes_one_stroke_more_than_columns_and_rows() {
    let grid = figure("grid d=(2,1)");
    let v = || vec![ends("0", "0", "0", "4"), ends("2", "0", "2", "4"), ends("4", "0", "4", "4")];
    let h = || vec![ends("0", "0", "4", "0"), ends("0", "4", "4", "4")];
    assert!(grid.fits(&grid_place(v(), h())));
    assert!(!grid.fits(&grid_place(Vec::new(), Vec::new())));
    assert!(!grid.fits(&grid_place(h(), v())));
    assert!(!grid.fits(&grid_place(v(), v())));
    assert!(!grid.fits(&grid_place(v(), vec![ends("0", "0", "4", "0")])));
    let empty = figure("grid d=(0,0)");
    assert!(empty.fits(&grid_place(vec![ends("0", "0", "0", "4")], vec![ends("0", "0", "4", "0")])));
    assert!(!empty.fits(&grid_place(Vec::new(), Vec::new())));
    let huge = figure(&format!("grid d=({},1)", usize::MAX));
    assert!(!huge.fits(&grid_place(v(), h())));
}

#[test]
fn filled_poly_is_a_polygon_and_open_poly_a_polyline() {
    let place = || poly_place(&[("0", "10"), ("1.5", "9"), ("3", "10")]);
    let points = "p=(0,0) p=(1.5,1) p=(3,0)";
    let filled = figure(&format!("poly f=1 col=(255,255,0) {}", points));
    assert!(filled.fits(&place()));
    let doc = filled.draw_on_image(blank_page(&canvas()), &place());
    assert_eq!(
        doc.to_string(),
        page("<polygon fill=\"rgb(255, 255, 0)\" opacity=\"1\" points=\"0,10 1.5,9 3,10\" stroke-width=\"0.3\"/>")
    );
    let open = figure(&format!("poly col=(255,255,0) {}", points));
    let doc = open.draw_on_image(blank_page(&canvas()), &place());
    assert_eq!(
        doc.to_string(),
        page("<polyline fill=\"none\" opacity=\"1\" points=\"0,10 1.5,9 3,10\" stroke=\"rgb(255, 255, 0)\" stroke-width=\"0.3\"/>")
    );
    let doc = figure("poly f=1 p=(7,2)").draw_on_image(blank_page(&canvas()), &poly_place(&[("7", "8")]));
    assert_eq!(
        doc.to_string(),
        page("<polygon fill=\"rgb(0, 0, 0)\" opacity=\"1\" points=\"7,8\" stroke-width=\"0.3\"/>")
    );
    let doc = figure("poly f=1").draw_on_image(blank_page(&canvas()), &poly_place(&[]));
    assert_eq!(
        doc.to_string(),
        page("<polygon fill=\"rgb(0, 0, 0)\" opacity=\"1\" points=\"\" stroke-width=\"0.3\"/>")
    );
    assert!(!filled.fits(&poly_place(&[("0", "10")])));
    assert!(!figure("poly").fits(&poly_place(&[("0", "10")])));
}

#[test]
fn text_is_anchored_by_its_horizontal_alignment() {
    let place = || {
        Placement::Text(TextPlacement { x: num("1"), y: num("2"), font_size: num("3"), opacity: num("1") })
    };
    for (code, anchor) in [("BC", "start"), ("CC", "middle"), ("EB", "end")] {
        let doc = figure(&format!("text m=hello a={} col=(255,255,255)", code))
            .draw_on_image(blank_page(&canvas()), &place());
        assert_eq!(
            doc.to_string(),
            page(&format!(
                "<text fill=\"rgb(255, 255, 255)\" font-family=\"system-ui\" font-size=\"3\" opacity=\"1\" text-anchor=\"{}\" x=\"1\" y=\"2\">\nhello\n</text>",
                anchor
            ))
        );
    }
}

#[test]
fn messages_are_not_painted() {
    let blank = format!("{}\n</svg>", HEAD);
    let message = figure("msg hi");
    assert!(message.fits(&Placement::Nowhere));
    assert_eq!(message.draw_on_image(blank_page(&canvas()), &Placement::Nowhere).to_string(), blank);
}

#[test]
fn a_placement_fits_figures_of_its_shape_only() {
    let text = || {
        Placement::Text(TextPlacement { x: num("1"), y: num("2"), font_size: num("3"), opacity: num("1") })
    };
    assert!(figure("rect").fits(&rect_place()));
    assert!(figure("line").fits(&Placement::Line(line_place("0", "1", "2", "3"))));
    assert!(figure("text m=a").fits(&text()));
    assert!(!figure("msg hi").fits(&rect_place()));
    assert!(!figure("rect").fits(&Placement::Nowhere));
    assert!(!figure("circle").fits(&rect_place()));
    assert!(!figure("rect").fits(&circle_place(None)));
    assert!(!figure("line").fits(&text()));
    assert!(!figure("text m=a").fits(&Placement::Line(line_place("0", "1", "2", "3"))));
    assert!(!figure("grid").fits(&poly_place(&[])));
}

#[test]
fn an_arc_takes_a_path_and_a_whole_circle_takes_none() {
    let d = "M7,6 A2,2,0,0,1,5,8";
    assert!(figure("circle").fits(&circle_place(None)));
    assert!(!figure("circle").fits(&circle_place(Some(d))));
    assert!(figure("circle arc=(0,1.5)").fits(&circle_place(Some(d))));
    assert!(!figure("circle arc=(0,1.5)").fits(&circle_place(None)));
}

#[test]
fn frame_is_painted_in_drawing_order() {
    let lines: Vec<String> = ["rect f=1 col=(1,1,1)", "rect t=hidden", "tick", "line col=(2,2,2)", "msg note", "tick"]
        .iter()
        .map(|l| l.to_string())
        .collect();
    let mut scene = Scene::from_lines(&lines);
    scene.set_tag_enabled(0, false);
    let enabled = scene.tags().enabled_tags();
    assert_eq!(scene.visible_objects(0, &enabled), vec![0, 2, 3]);
    let figures = scene.visible_figures(0, &enabled);
    assert_eq!(figures.len(), 3);
    let places = vec![rect_place(), Placement::Line(line_place("0", "1", "2", "3")), Placement::Nowhere];
    assert!(fit(&figures, &places));
    let doc = export_frame(&canvas(), &figures, &places);
    assert_eq!(
        doc.to_string(),
        page("<rect fill=\"rgb(1, 1, 1)\" height=\"2\" opacity=\"1\" stroke-width=\"0.3\" width=\"2\" x=\"4\" y=\"4\"/>\n<line opacity=\"0.5\" stroke=\"rgb(2, 2, 2)\" stroke-width=\"0.3\" x1=\"0\" x2=\"2\" y1=\"1\" y2=\"3\"/>")
    );
    assert!(scene.visible_figures(5, &enabled).is_empty());
}

#[test]
fn every_figure_of_a_frame_needs_its_placement() {
    let a = figure("rect f=1 col=(1,1,1)");
    let b = figure("rect f=1 col=(2,2,2)");
    let m = figure("msg hi");
    assert!(fit(&vec![&a, &b], &vec![rect_place(), rect_place()]));
    assert!(!fit(&vec![&a, &b], &vec![rect_place()]));
    assert!(!fit(&vec![&a], &vec![rect_place(), rect_place()]));
    assert!(!fit(&vec![&a, &b], &vec![rect_place(), Placement::Nowhere]));
    assert!(!fit(&vec![&a, &m], &vec![rect_place(), rect_place()]));
    assert!(fit(&vec![&a, &m], &vec![rect_place(), Placement::Nowhere]));
    assert!(fit(&Vec::new(), &Vec::new()));
    let doc = export_frame(&canvas(), &vec![&a, &m, &b], &vec![rect_place(), Placement::Nowhere, rect_place()]);
    assert_eq!(
        doc.to_string(),
        page("<rect fill=\"rgb(1, 1, 1)\" height=\"2\" opacity=\"1\" stroke-width=\"0.3\" width=\"2\" x=\"4\" y=\"4\"/>\n<rect fill=\"rgb(2, 2, 2)\" height=\"2\" opacity=\"1\" stroke-width=\"0.3\" width=\"2\" x=\"4\" y=\"4\"/>")
    );
    let doc = export_frame(&canvas(), &Vec::new(), &Vec::new());
    assert_eq!(doc.to_string(), format!("{}\n</svg>", HEAD));
}
