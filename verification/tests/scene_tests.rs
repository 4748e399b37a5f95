use rviewer::color::Color;
use rviewer::figure::Figure;
use rviewer::scene::Scene;
use rviewer::tags::TagRegistry;

fn read(lines: &[&str]) -> Scene {
    let owned: Vec<String> = lines.iter().map(|l| l.to_string()).collect();
    Scene::from_lines(&owned)
}

fn frames(scene: &Scene) -> Vec<Vec<usize>> {
    (0..scene.frame_count()).map(|i| scene.frame(i).unwrap().clone()).collect()
}

fn registry(tags: &TagRegistry) -> Vec<(String, bool)> {
    (0..tags.len()).map(|i| (tags.label(i).clone(), tags.is_enabled(i))).collect()
}

#[test]
fn new_scene_has_the_defaults() {
    let scene = Scene::new();
    assert_eq!(scene.frame_count(), 0);
    assert_eq!(scene.object_count(), 0);
    assert_eq!(scene.unparsed(), 0);
    assert!(!scene.finished());
    assert!(scene.speed().is_none());
    assert_eq!((scene.size().x.as_str(), scene.size().y.as_str()), ("10", "10"));
    assert_eq!(scene.svg_width_scale().as_str(), "0.3");
    assert_eq!(scene.draw_properties().width.as_str(), "1");
    assert_eq!(scene.draw_properties().font.as_str(), "1");
    assert_eq!(scene.tags().len(), 0);
    assert!(scene.has_room());
}

#[test]
fn end_to_end_two_rects_two_ticks() {
    let scene = read(&[
        "size (10,10)",
        "rect c=(5,5) s=(2,2)",
        "tick",
        "rect c=(5,5) s=(2,2) col=(255,0,0)",
        "tick",
    ]);
    assert_eq!(scene.object_count(), 2);
    assert_eq!(scene.frame_count(), 2);
    assert_eq!(frames(&scene), vec![vec![0, 1], vec![0]]);
    assert_eq!((scene.size().x.as_str(), scene.size().y.as_str()), ("10", "10"));
    assert_eq!(scene.unparsed(), 0);
    assert!(scene.finished());
    match scene.object(1) {
        Some(Figure::Rect(r)) => assert_eq!(r.common.color, Color::rgb(255, 0, 0)),
        _ => panic!("the second object is a rectangle"),
    }
    match scene.object(0) {
        Some(Figure::Rect(r)) => assert_eq!(r.common.color, Color::rgb(0, 0, 0)),
        _ => panic!("the first object is a rectangle"),
    }
    assert!(scene.object(2).is_none());
}

#[test]
fn input_without_tick_gives_one_frame() {
    let scene = read(&["rect", "circle", "line"]);
    assert_eq!(frames(&scene), vec![vec![0, 1, 2]]);
}

#[test]
fn empty_input_gives_one_empty_frame() {
    let scene = read(&[]);
    assert_eq!(frames(&scene), vec![Vec::<usize>::new()]);
    assert!(scene.finished());
}

#[test]
fn every_frame_starts_with_the_baseline() {
    let scene = read(&[
        "rect", "circle", "tick", "line", "tick", "tick", "grid", "text m=x", "tick", "poly",
    ]);
    assert_eq!(
        frames(&scene),
        vec![vec![0, 1, 2], vec![0, 1], vec![0, 1, 3, 4], vec![0, 1, 5]]
    );
    assert_eq!(scene.object_count(), 6);
    assert_eq!(scene.baseline(), &vec![0, 1]);
    assert!(read(&["rect", "circle"]).baseline().is_empty());
}

#[test]
fn one_tick_gives_one_frame_of_the_baseline() {
    let scene = read(&["rect", "tick"]);
    assert_eq!(frames(&scene), vec![vec![0]]);
    let scene = read(&["tick", "rect"]);
    assert_eq!(frames(&scene), vec![vec![0]]);
    let scene = read(&["tick"]);
    assert_eq!(frames(&scene), vec![Vec::<usize>::new()]);
}

#[test]
fn frames_grow_while_lines_are_fed() {
    let mut scene = Scene::new();
    scene.feed_line("rect");
    scene.feed_line("tick");
    assert_eq!(scene.frame_count(), 0);
    scene.feed_line("circle");
    scene.feed_line("tick");
    assert_eq!(frames(&scene), vec![vec![0, 1]]);
    assert!(!scene.finished());
    scene.finish();
    assert_eq!(frames(&scene), vec![vec![0, 1], vec![0]]);
    assert!(scene.finished());
}

#[test]
fn lines_that_say_nothing_are_counted() {
    let scene = read(&[
        "",
        "hello",
        "rect c=(1,oops)",
        "text m=\"open",
        "speed",
        "speed fast",
        "width",
        "font x",
        "size (1)",
        "size",
        "svgwidth",
        "flipy=1",
        "rect",
    ]);
    assert_eq!(scene.unparsed(), 12);
    assert_eq!(scene.object_count(), 1);
    assert_eq!(frames(&scene), vec![vec![0]]);
}

#[test]
fn directives_set_scene_parameters() {
    let scene = read(&["speed 30", "width  2.5 ", "font 12", "size (80,60)", "svgwidth 0.08"]);
    assert_eq!(scene.speed().unwrap().as_str(), "30");
    assert_eq!(scene.draw_properties().width.as_str(), "2.5");
    assert_eq!(scene.draw_properties().font.as_str(), "12");
    assert_eq!((scene.size().x.as_str(), scene.size().y.as_str()), ("80", "60"));
    assert_eq!(scene.svg_width_scale().as_str(), "0.08");
    assert_eq!(scene.unparsed(), 0);
}

#[test]
fn directives_accept_the_form_with_equal_sign() {
    let scene = read(&["size=(80,60)", "speed=30", "width=1", "font=3", "svgwidth=0.08"]);
    assert_eq!((scene.size().x.as_str(), scene.size().y.as_str()), ("80", "60"));
    assert_eq!(scene.speed().unwrap().as_str(), "30");
    assert_eq!(scene.draw_properties().width.as_str(), "1");
    assert_eq!(scene.draw_properties().font.as_str(), "3");
    assert_eq!(scene.svg_width_scale().as_str(), "0.08");
    assert_eq!(scene.unparsed(), 0);
}

#[test]
fn a_failed_directive_changes_nothing_else() {
    let scene = read(&["width 4", "width wide", "rect"]);
    assert_eq!(scene.draw_properties().width.as_str(), "4");
    assert_eq!(scene.unparsed(), 1);
    match scene.object(0) {
        Some(Figure::Rect(r)) => assert_eq!(r.width.as_str(), "4"),
        _ => panic!("the object is a rectangle"),
    }
}

#[test]
fn width_and_font_apply_to_later_figures_only() {
    let scene = read(&["rect", "text m=a", "width 3", "font 9", "rect", "text m=b", "rect w=7"]);
    let widths: Vec<String> = (0..scene.object_count())
        .map(|i| match scene.object(i).unwrap() {
            Figure::Rect(r) => r.width.as_str().to_string(),
            Figure::Text(t) => t.font.as_str().to_string(),
            _ => String::new(),
        })
        .collect();
    assert_eq!(widths, vec!["1", "1", "3", "9", "7"]);
}

#[test]
fn messages_stack_within_a_tick() {
    let scene = read(&["msg a", "msg b", "tick", "msg c", "rect", "msg d", "tick", "msg e"]);
    let stack: Vec<(usize, String)> = (0..scene.object_count())
        .filter_map(|i| match scene.object(i).unwrap() {
            Figure::Message(m) => Some((m.message_ind, m.text.clone())),
            _ => None,
        })
        .collect();
    assert_eq!(
        stack,
        vec![
            (0, "a".to_string()),
            (1, "b".to_string()),
            (0, "c".to_string()),
            (1, "d".to_string()),
            (0, "e".to_string())
        ]
    );
    assert_eq!(scene.draw_properties().was_messages, 1);
}

#[test]
fn tags_are_registered_in_order_of_first_use() {
    let scene = read(&["rect t=b t=a", "circle t=a t=c", "line"]);
    assert_eq!(
        registry(scene.tags()),
        vec![("b".to_string(), true), ("a".to_string(), true), ("c".to_string(), true)]
    );
}

#[test]
fn disable_before_first_use_creates_the_tag_switched_off() {
    let scene = read(&["disable foo", "rect t=bar", "rect t=foo"]);
    assert_eq!(registry(scene.tags()), vec![("bar".to_string(), true), ("foo".to_string(), false)]);
}

#[test]
fn disable_after_first_use_switches_the_tag_off() {
    let scene = read(&["rect t=foo t=bar", "disable   foo  ", "rect t=foo"]);
    assert_eq!(registry(scene.tags()), vec![("foo".to_string(), false), ("bar".to_string(), true)]);
    assert_eq!(scene.unparsed(), 0);
}

#[test]
fn disable_needs_the_blank_after_the_keyword() {
    let scene = read(&["disable", "rect t=foo"]);
    assert_eq!(scene.unparsed(), 1);
    assert_eq!(registry(scene.tags()), vec![("foo".to_string(), true)]);
}

#[test]
fn registry_operations() {
    let mut tags = TagRegistry::new();
    tags.register(&"a".to_string());
    tags.register(&"b".to_string());
    tags.register(&"a".to_string());
    assert_eq!(registry(&tags), vec![("a".to_string(), true), ("b".to_string(), true)]);
    assert!(tags.knows(&"a".to_string()));
    assert!(!tags.knows(&"c".to_string()));
    tags.disable(&"b".to_string());
    tags.disable(&"c".to_string());
    tags.register_all(&vec!["c".to_string(), "d".to_string()]);
    assert_eq!(
        registry(&tags),
        vec![
            ("a".to_string(), true),
            ("b".to_string(), false),
            ("c".to_string(), false),
            ("d".to_string(), true)
        ]
    );
    assert_eq!(tags.enabled_tags(), vec!["a".to_string(), "d".to_string()]);
    tags.set_enabled(1, true);
    tags.set_enabled(0, false);
    assert_eq!(tags.enabled_tags(), vec!["b".to_string(), "d".to_string()]);
}

#[test]
fn visible_objects_follow_the_enabled_tags() {
    let mut scene = read(&["rect", "rect t=a", "tick", "circle t=b", "circle t=a t=b", "tick", "line t=c"]);
    assert_eq!(frames(&scene), vec![vec![0, 1, 2, 3], vec![0, 1, 4]]);
    let all = scene.tags().enabled_tags();
    assert_eq!(all, vec!["a".to_string(), "b".to_string(), "c".to_string()]);
    assert_eq!(scene.visible_objects(0, &all), vec![0, 1, 2, 3]);
    assert_eq!(scene.visible_objects(0, &[]), vec![0]);
    assert_eq!(scene.visible_objects(0, &["b".to_string()]), vec![0, 2, 3]);
    assert_eq!(scene.visible_objects(1, &["a".to_string()]), vec![0, 1]);
    assert_eq!(scene.visible_objects(2, &all), Vec::<usize>::new());
    scene.set_tag_enabled(0, false);
    let enabled = scene.tags().enabled_tags();
    assert_eq!(scene.visible_objects(0, &enabled), vec![0, 2, 3]);
    assert_eq!(scene.visible_objects(1, &enabled), vec![0, 4]);
}

#[test]
fn tick_is_recognised_by_its_prefix() {
    let scene = read(&["rect", "ticket", "rect", "tick 2"]);
    assert_eq!(frames(&scene), vec![vec![0, 1], vec![0]]);
    assert_eq!(scene.unparsed(), 0);
}

#[test]
fn keyframes_are_paired_by_identity() {
    let scene = read(&[
        "tick",
        "rect id=1",
        "circle id=2",
        "line",
        "rect id=3",
        "tick",
        "circle id=2",
        "rect id=9",
        "rect id=1",
        "line",
        "rect id=1",
        "tick",
    ]);
    assert_eq!(frames(&scene), vec![vec![0, 1, 2, 3], vec![4, 5, 6, 7, 8], vec![]]);
    assert_eq!(scene.keyframe_pairs(0, 1), vec![(0, 6), (1, 4)]);
    assert_eq!(scene.keyframe_pairs(1, 0), vec![(4, 1), (6, 0), (8, 0)]);
    assert_eq!(scene.keyframe_pairs(0, 2), Vec::<(usize, usize)>::new());
    assert_eq!(scene.keyframe_pairs(0, 3), Vec::<(usize, usize)>::new());
    assert_eq!(scene.keyframe_pairs(7, 0), Vec::<(usize, usize)>::new());
    assert_eq!(scene.keyframe_pairs(0, 0), vec![(0, 0), (1, 1), (3, 3)]);
}
