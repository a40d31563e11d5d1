use rex::font::FontUnit;
use rex::layout::{
    Alignment, ColorChange, HorizontalBox, Layout, LayoutGlyph, LayoutNode, LayoutVariant, VerticalBox,
};
use rex::parser::color::RGBA;
use rex::scene::{Color, DebugBoxKind, LayoutSceneBuilder, Point, SceneBuilder, SceneNode, SceneSettings};

fn glyph_node(unicode: u32, width: i32, height: i32, depth: i32) -> LayoutNode {
    LayoutNode {
        node: LayoutVariant::Glyph(LayoutGlyph {
            unicode,
            scale: FontUnit::from(1),
            offset: FontUnit::from(0),
            attachment: FontUnit::from(0),
            italics: FontUnit::from(0),
        }),
        width: FontUnit::from(width),
        height: FontUnit::from(height),
        depth: FontUnit::from(depth),
    }
}

#[test]
fn builds_absolute_glyph_geometry_with_padding() {
    let mut layout = Layout::new();
    layout.add_node(LayoutNode {
        node: LayoutVariant::Glyph(LayoutGlyph {
            unicode: 'x' as u32,
            scale: FontUnit::from(1),
            offset: FontUnit::from(0),
            attachment: FontUnit::from(0),
            italics: FontUnit::from(0),
        }),
        width: FontUnit::from(100),
        height: FontUnit::from(80),
        depth: FontUnit::from(-20),
    });

    let builder = LayoutSceneBuilder::new(SceneSettings {
        horizontal_padding: FontUnit::from(10),
        vertical_padding: FontUnit::from(5),
        debug: false,
    });
    let scene = builder.build(&layout);

    assert_eq!(scene.width, FontUnit::from(120));
    assert_eq!(scene.height, FontUnit::from(110));
    assert_eq!(scene.nodes.len(), 1);

    match scene.nodes[0] {
        SceneNode::Glyph(ref glyph) => {
            assert_eq!(glyph.position.x, FontUnit::from(10));
            assert_eq!(glyph.position.y, FontUnit::from(85));
            assert_eq!(glyph.unicode, 'x' as u32);
            assert_eq!(f64::from(glyph.scale), 1.0);
        }
        _ => panic!("expected glyph scene node"),
    }
}

#[test]
fn debug_geometry_is_scene_data_not_backend_behavior() {
    let layout = Layout {
        width: FontUnit::from(20),
        height: FontUnit::from(10),
        ..Layout::default()
    };
    let builder = LayoutSceneBuilder::new(SceneSettings {
        debug: true,
        ..SceneSettings::default()
    });
    let scene = builder.build(&layout);

    assert_eq!(scene.nodes.len(), 1);
    match scene.nodes[0] {
        SceneNode::DebugBox(ref debug) => {
            assert_eq!(debug.kind, DebugBoxKind::HorizontalBox);
        }
        _ => panic!("expected debug box scene node"),
    }
}

#[test]
fn add_node_grows_width_and_keeps_extremes() {
    let mut layout = Layout::new();
    layout.add_node(glyph_node('a' as u32, 30, 50, -10));
    layout.add_node(glyph_node('b' as u32, 40, 70, -5));
    layout.add_node(glyph_node('c' as u32, 5, 20, -30));
    assert_eq!(layout.width, 75);
    assert_eq!(layout.height, 70);
    assert_eq!(layout.depth, -30);
    assert_eq!(layout.contents.len(), 3);
}

#[test]
fn glyphs_advance_along_the_baseline() {
    let mut layout = Layout::new();
    layout.add_node(glyph_node('a' as u32, 30, 50, 0));
    layout.add_node(LayoutNode { node: LayoutVariant::Kern, width: 7, height: 0, depth: 0 });
    layout.add_node(glyph_node('b' as u32, 40, 50, 0));
    let scene = LayoutSceneBuilder::new(SceneSettings::default()).build(&layout);
    assert_eq!(scene.nodes.len(), 2);
    match (&scene.nodes[0], &scene.nodes[1]) {
        (SceneNode::Glyph(a), SceneNode::Glyph(b)) => {
            assert_eq!(a.position, Point { x: 0, y: 50 });
            assert_eq!(b.position, Point { x: 37, y: 50 });
        }
        _ => panic!("expected two glyphs"),
    }
}

#[test]
fn rules_hang_from_the_top_of_their_box() {
    let mut layout = Layout::new();
    layout.add_node(LayoutNode { node: LayoutVariant::Rule, width: 100, height: 40, depth: 0 });
    let scene = LayoutSceneBuilder::new(SceneSettings::default()).build(&layout);
    match &scene.nodes[0] {
        SceneNode::Rule(rule) => {
            assert_eq!(rule.position, Point { x: 0, y: 0 });
            assert_eq!(rule.width, 100);
            assert_eq!(rule.height, 40);
        }
        _ => panic!("expected a rule"),
    }
}

#[test]
fn vertical_boxes_stack_downwards() {
    let vbox = LayoutNode {
        node: LayoutVariant::VerticalBox(VerticalBox {
            contents: vec![
                glyph_node('a' as u32, 10, 20, 0),
                LayoutNode { node: LayoutVariant::Rule, width: 10, height: 3, depth: 0 },
                glyph_node('b' as u32, 10, 30, 0),
            ],
        }),
        width: 10,
        height: 60,
        depth: 0,
    };
    let mut layout = Layout::new();
    layout.add_node(vbox);
    let scene = LayoutSceneBuilder::new(SceneSettings::default()).build(&layout);
    assert_eq!(scene.nodes.len(), 3);
    match (&scene.nodes[0], &scene.nodes[1], &scene.nodes[2]) {
        (SceneNode::Glyph(a), SceneNode::Rule(r), SceneNode::Glyph(b)) => {
            assert_eq!(a.position, Point { x: 0, y: 20 });
            assert_eq!(r.position, Point { x: 0, y: 20 });
            assert_eq!(b.position, Point { x: 0, y: 53 });
        }
        _ => panic!("expected glyph, rule, glyph"),
    }
}

#[test]
fn centered_boxes_shift_their_contents_by_half_the_slack() {
    let hbox = LayoutNode {
        node: LayoutVariant::HorizontalBox(HorizontalBox {
            contents: vec![glyph_node('a' as u32, 10, 10, 0)],
            alignment: Alignment::Centered(15),
        }),
        width: 30,
        height: 10,
        depth: 0,
    };
    let mut layout = Layout::new();
    layout.add_node(hbox);
    let scene = LayoutSceneBuilder::new(SceneSettings::default()).build(&layout);
    match &scene.nodes[0] {
        SceneNode::Glyph(a) => assert_eq!(a.position, Point { x: 7, y: 10 }),
        _ => panic!("expected a glyph"),
    }
}

#[test]
fn centered_boxes_round_a_negative_slack_toward_zero() {
    let hbox = LayoutNode {
        node: LayoutVariant::HorizontalBox(HorizontalBox {
            contents: vec![glyph_node('a' as u32, 10, 10, 0)],
            alignment: Alignment::Centered(33),
        }),
        width: 30,
        height: 10,
        depth: 0,
    };
    let mut layout = Layout::new();
    layout.add_node(hbox);
    let scene = LayoutSceneBuilder::new(SceneSettings::default()).build(&layout);
    match &scene.nodes[0] {
        SceneNode::Glyph(a) => assert_eq!(a.position, Point { x: -1, y: 10 }),
        _ => panic!("expected a glyph"),
    }
}

#[test]
fn color_groups_keep_their_contents_nested() {
    let colored = LayoutNode {
        node: LayoutVariant::Color(ColorChange {
            color: RGBA(1, 2, 3, 4),
            inner: vec![glyph_node('a' as u32, 10, 10, 0)],
        }),
        width: 10,
        height: 10,
        depth: 0,
    };
    let mut layout = Layout::new();
    layout.add_node(colored);
    let scene = LayoutSceneBuilder::new(SceneSettings::default()).build(&layout);
    assert_eq!(scene.nodes.len(), 1);
    match &scene.nodes[0] {
        SceneNode::Color(group) => {
            assert_eq!(group.color, Color { red: 1, green: 2, blue: 3, alpha: 4 });
            assert_eq!(group.contents.len(), 1);
        }
        _ => panic!("expected a color group"),
    }
}

#[test]
fn debug_boxes_are_the_only_difference_debug_makes() {
    let build = |debug: bool| {
        let mut layout = Layout::new();
        layout.add_node(glyph_node('a' as u32, 10, 10, -2));
        layout.add_node(LayoutNode { node: LayoutVariant::Rule, width: 5, height: 1, depth: 0 });
        let settings = SceneSettings { horizontal_padding: 3, vertical_padding: 4, debug };
        LayoutSceneBuilder::new(settings).build(&layout)
    };
    let plain = build(false);
    let debug = build(true);
    let stripped: Vec<&SceneNode> =
        debug.nodes.iter().filter(|n| !matches!(n, SceneNode::DebugBox(_))).collect();
    assert_eq!(stripped.len(), plain.nodes.len());
    assert!(plain.nodes.iter().all(|n| !matches!(n, SceneNode::DebugBox(_))));
    assert_eq!(debug.nodes.len(), plain.nodes.len() + 2);
    assert_eq!(debug.width, plain.width);
    assert_eq!(debug.height, plain.height);
}

#[test]
fn padding_only_moves_the_drawing() {
    let build = |h: i32, v: i32| {
        let mut layout = Layout::new();
        layout.add_node(glyph_node('a' as u32, 10, 8, -2));
        let settings = SceneSettings { horizontal_padding: h, vertical_padding: v, debug: false };
        LayoutSceneBuilder::new(settings).build(&layout)
    };
    let bare = build(0, 0);
    let padded = build(6, 9);
    assert_eq!(padded.width, bare.width + 12);
    assert_eq!(padded.height, bare.height + 18);
    match (&bare.nodes[0], &padded.nodes[0]) {
        (SceneNode::Glyph(a), SceneNode::Glyph(b)) => {
            assert_eq!(b.position.x, a.position.x + 6);
            assert_eq!(b.position.y, a.position.y + 9);
        }
        _ => panic!("expected glyphs"),
    }
}

#[test]
fn points_move_in_each_direction() {
    let p = Point { x: 10, y: 20 };
    assert_eq!(p.translate(3, -4), Point { x: 13, y: 16 });
    assert_eq!(p.left(3), Point { x: 7, y: 20 });
    assert_eq!(p.right(3), Point { x: 13, y: 20 });
    assert_eq!(p.up(3), Point { x: 10, y: 17 });
    assert_eq!(p.down(3), Point { x: 10, y: 23 });
    assert_eq!(p.up(5).down(5), p);
    assert_eq!(Point::default(), Point { x: 0, y: 0 });
}

#[test]
fn colors_report_translucency() {
    assert!(!Color { red: 0, green: 0, blue: 0, alpha: 255 }.has_alpha());
    assert!(Color { red: 0, green: 0, blue: 0, alpha: 254 }.has_alpha());
    assert_eq!(Color::from(RGBA(9, 8, 7, 6)), Color { red: 9, green: 8, blue: 7, alpha: 6 });
}

#[test]
fn builders_report_whether_coordinates_fit() {
    let mut layout = Layout::new();
    layout.add_node(glyph_node('a' as u32, 10, 10, -2));
    let builder = LayoutSceneBuilder::new(SceneSettings { horizontal_padding: 3, vertical_padding: 4, debug: true });
    assert!(builder.fits_font_units(&layout));

    let wide = Layout { width: i32::MAX, ..Layout::default() };
    assert!(!builder.fits_font_units(&wide));
    let plain = LayoutSceneBuilder::new(SceneSettings::default());
    assert!(plain.fits_font_units(&wide));

    let deep = Layout { height: i32::MAX, depth: -1, ..Layout::default() };
    assert!(!plain.fits_font_units(&deep));
}
