use rex::render::webgpu::plan::{plan_primitives, PlanItem};
use rex::render::webgpu::{align_to, pack_atlas, unpad_rows, AtlasGlyph, WebGpuError};
use rex::scene::{Color, DebugBoxKind, Point, SceneColor, SceneDebugBox, SceneGlyph, SceneNode, SceneRule};

#[test]
fn aligns_readback_rows_to_webgpu_requirement() {
    assert_eq!(align_to(4, 256), 256);
    assert_eq!(align_to(256, 256), 256);
    assert_eq!(align_to(260, 256), 512);
}

#[test]
fn align_to_keeps_zero_and_multiples() {
    assert_eq!(align_to(0, 256), 0);
    assert_eq!(align_to(512, 256), 512);
    assert_eq!(align_to(7, 1), 7);
}

fn glyph(width: u32, height: u32, fill: u8) -> AtlasGlyph {
    AtlasGlyph { width, height, bitmap: vec![fill; (width * height) as usize], atlas_x: 0, atlas_y: 0 }
}

#[test]
fn packs_glyphs_side_by_side_with_padding() {
    let mut glyphs = vec![glyph(2, 3, 7), glyph(0, 5, 0), glyph(1, 1, 9)];
    let (width, height, atlas) = pack_atlas(&mut glyphs).unwrap();
    assert_eq!((glyphs[0].atlas_x, glyphs[0].atlas_y), (1, 1));
    assert_eq!((glyphs[1].atlas_x, glyphs[1].atlas_y), (0, 0));
    assert_eq!((glyphs[2].atlas_x, glyphs[2].atlas_y), (4, 1));
    assert_eq!(width, 6);
    assert_eq!(height, 5);
    assert_eq!(atlas.len(), 30);
    let at = |x: u32, y: u32| atlas[(y * width + x) as usize];
    assert_eq!(at(1, 1), 7);
    assert_eq!(at(2, 3), 7);
    assert_eq!(at(4, 1), 9);
    assert_eq!(at(0, 0), 0);
    assert_eq!(at(3, 1), 0);
    assert_eq!(at(4, 2), 0);
}

#[test]
fn wraps_to_a_new_shelf_when_a_row_is_full() {
    let mut glyphs = vec![glyph(2000, 10, 1), glyph(100, 4, 2)];
    let (width, height, _) = pack_atlas(&mut glyphs).unwrap();
    assert_eq!((glyphs[0].atlas_x, glyphs[0].atlas_y), (1, 1));
    assert_eq!((glyphs[1].atlas_x, glyphs[1].atlas_y), (1, 12));
    assert_eq!(width, 2002);
    assert_eq!(height, 17);
}

#[test]
fn empty_atlas_is_one_pixel() {
    let mut glyphs: Vec<AtlasGlyph> = Vec::new();
    let (width, height, atlas) = pack_atlas(&mut glyphs).unwrap();
    assert_eq!((width, height), (1, 1));
    assert_eq!(atlas, vec![0]);
}

#[test]
fn oversized_glyphs_are_refused() {
    let mut glyphs = vec![glyph(2047, 1, 0)];
    assert_eq!(pack_atlas(&mut glyphs), Err(WebGpuError::AtlasTooLarge));
    let mut tall = vec![glyph(1, 2000, 0), glyph(2046, 1, 0), glyph(1, 100, 0)];
    assert_eq!(pack_atlas(&mut tall), Err(WebGpuError::AtlasTooLarge));
}

#[test]
fn errors_describe_themselves() {
    assert_eq!(WebGpuError::InvalidGlyph(55296).message(), "invalid Unicode code point: 55296");
    assert_eq!(
        WebGpuError::AtlasTooLarge.message(),
        "glyph atlas exceeds the supported renderer size"
    );
    assert_eq!(WebGpuError::Font("bad".into()).message(), "font rasterization failed: bad");
    assert_eq!(WebGpuError::DeviceUnavailable("d".into()).message(), "WebGPU device unavailable: d");
    assert_eq!(WebGpuError::BufferMap("m".into()).message(), "WebGPU readback buffer mapping failed: m");
    assert_eq!(WebGpuError::DevicePoll("p".into()).message(), "WebGPU device polling failed: p");
}

#[test]
fn packed_glyphs_never_overlap() {
    let mut glyphs: Vec<AtlasGlyph> = (0..40u32).map(|i| glyph(100 + (i * 37) % 300, 5 + (i * 13) % 40, i as u8)).collect();
    let (width, height, atlas) = pack_atlas(&mut glyphs).unwrap();
    for (i, a) in glyphs.iter().enumerate() {
        assert!(a.atlas_x >= 1 && a.atlas_x + a.width < width);
        assert!(a.atlas_y >= 1 && a.atlas_y + a.height < height);
        for b in glyphs.iter().skip(i + 1) {
            let apart_x = a.atlas_x + a.width <= b.atlas_x || b.atlas_x + b.width <= a.atlas_x;
            let apart_y = a.atlas_y + a.height <= b.atlas_y || b.atlas_y + b.height <= a.atlas_y;
            assert!(apart_x || apart_y);
        }
        assert_eq!(atlas[(a.atlas_y * width + a.atlas_x) as usize], i as u8);
    }
}

#[test]
fn align_to_reaches_the_last_representable_multiple() {
    assert_eq!(align_to(u32::MAX - 255, 256), u32::MAX - 255);
    assert_eq!(align_to(u32::MAX - 300, 256), u32::MAX - 255);
}

#[test]
fn readback_rows_lose_their_padding() {
    // Two rows of 3 bytes, each padded to 8 bytes.
    let mapped: Vec<u8> = (0u8..16).collect();
    assert_eq!(unpad_rows(&mapped, 2, 3, 8), vec![0, 1, 2, 8, 9, 10]);
    assert_eq!(unpad_rows(&mapped, 2, 8, 8), mapped);
    assert_eq!(unpad_rows(&mapped, 0, 3, 8), Vec::<u8>::new());
    assert_eq!(unpad_rows(&mapped[..11], 2, 3, 8), vec![0, 1, 2, 8, 9, 10]);
}

fn at(x: i32, y: i32) -> Point {
    Point { x, y }
}

#[test]
fn plan_colors_glyphs_by_their_innermost_group() {
    let red = Color { red: 255, green: 0, blue: 0, alpha: 255 };
    let blue = Color { red: 0, green: 0, blue: 255, alpha: 128 };
    let nodes = vec![
        SceneNode::Glyph(SceneGlyph { position: at(1, 2), unicode: 'a' as u32, scale: 1 }),
        SceneNode::Color(SceneColor {
            color: red,
            contents: vec![
                SceneNode::Glyph(SceneGlyph { position: at(3, 4), unicode: 'b' as u32, scale: 1 }),
                SceneNode::Rule(SceneRule { position: at(0, 0), width: 5, height: 6 }),
                SceneNode::Color(SceneColor {
                    color: blue,
                    contents: vec![SceneNode::Glyph(SceneGlyph { position: at(7, 8), unicode: 'c' as u32, scale: 2 })],
                }),
            ],
        }),
        SceneNode::DebugBox(SceneDebugBox { position: at(0, 0), width: 9, height: 9, kind: DebugBoxKind::Glyph }),
    ];
    let plan = plan_primitives(&nodes).unwrap();
    assert_eq!(plan.len(), 5);
    let black = Color { red: 0, green: 0, blue: 0, alpha: 255 };
    assert!(matches!(plan[0], PlanItem::Glyph { character: 'a', color, .. } if color == black));
    assert!(matches!(plan[1], PlanItem::Glyph { character: 'b', color, .. } if color == red));
    assert!(matches!(plan[2], PlanItem::Rule(SceneRule { width: 5, height: 6, .. })));
    assert!(matches!(plan[3], PlanItem::Glyph { character: 'c', color, glyph } if color == blue && glyph.scale == 2));
    assert!(matches!(plan[4], PlanItem::Outline(SceneDebugBox { kind: DebugBoxKind::Glyph, .. })));
}

#[test]
fn plan_refuses_the_first_invalid_code_point() {
    let nodes = vec![
        SceneNode::Rule(SceneRule { position: at(0, 0), width: 1, height: 1 }),
        SceneNode::Color(SceneColor {
            color: Color { red: 1, green: 2, blue: 3, alpha: 255 },
            contents: vec![SceneNode::Glyph(SceneGlyph { position: at(0, 0), unicode: 0xD800, scale: 1 })],
        }),
        SceneNode::Glyph(SceneGlyph { position: at(0, 0), unicode: 0x110000, scale: 1 }),
    ];
    assert_eq!(plan_primitives(&nodes).unwrap_err(), WebGpuError::InvalidGlyph(0xD800));
    assert_eq!(plan_primitives(&nodes[2..]).unwrap_err(), WebGpuError::InvalidGlyph(0x110000));
    assert_eq!(plan_primitives(&[]).unwrap().len(), 0);
}
