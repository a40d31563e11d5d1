use rex::font::FontUnit;
use rex::layout::{Layout, LayoutGlyph, LayoutNode, LayoutVariant, Style};
use rex::render::auto::{AutoRenderer, FallbackReason, RenderBackend, RenderedMath};
use rex::render::svg::{render_scene_to_string, PixelSize, SVGRenderer};
use rex::render::webgpu::{WebGpuError, WebGpuImage};
use rex::render::{RenderSettings, Typesetter};
use rex::scene::{Color, MathScene, Point, SceneColor, SceneDebugBox, SceneGlyph, SceneNode, SceneRule};
use rex::scene::DebugBoxKind;

fn pixel_size(settings: &RenderSettings, scene: &MathScene) -> PixelSize {
    let per_unit = settings.font_size as f64 / 1000.0;
    PixelSize {
        width: format!("{:2}", f64::from(scene.width) * per_unit),
        height: format!("{:2}", f64::from(scene.height) * per_unit),
    }
}

#[test]
fn svg_fallback_reuses_an_existing_scene() {
    let settings = RenderSettings::default().font_src("rex-xits.otf");
    let renderer = AutoRenderer::new(&settings);
    let scene = MathScene {
        width: FontUnit::from(1000),
        height: FontUnit::from(1000),
        nodes: Vec::new(),
    };
    let size = pixel_size(&settings, &scene);

    let result = renderer
        .svg_fallback(&scene, FallbackReason::WebGpuFeatureDisabled, &size)
        .unwrap();

    assert_eq!(result.backend, RenderBackend::Svg);
    assert_eq!(
        result.fallback_reason,
        Some(FallbackReason::WebGpuFeatureDisabled)
    );
    match result.output {
        RenderedMath::Svg(svg) => assert!(svg.contains("<svg")),
        RenderedMath::WebGpu(_) => panic!("expected SVG fallback"),
    }
}

#[test]
fn default_settings_match_the_documented_values() {
    let s = RenderSettings::default();
    assert_eq!(s.font_size, 48);
    assert_eq!(s.font_src, "http://rex.breeden.cc/rex-xits.otf");
    assert_eq!(s.horz_padding, 250);
    assert_eq!(s.vert_padding, 100);
    assert!(s.strict);
    assert_eq!(s.style, Style::Display);
    assert!(!s.debug);
}

#[test]
fn builders_change_one_setting_each() {
    let s = RenderSettings::default()
        .font_size(12)
        .font_src("font.otf")
        .horz_padding(1)
        .vert_padding(2)
        .style(Style::Text)
        .debug(true);
    assert_eq!(s.font_size, 12);
    assert_eq!(s.font_src, "font.otf");
    assert_eq!(s.horz_padding, 1);
    assert_eq!(s.vert_padding, 2);
    assert_eq!(s.style, Style::Text);
    assert!(s.debug);
    let layout = s.layout_settings();
    assert_eq!(layout.font_size, 12);
    assert_eq!(layout.style, Style::Text);
    let scene = s.scene_settings();
    assert_eq!(scene.horizontal_padding, 1);
    assert_eq!(scene.vertical_padding, 2);
    assert!(scene.debug);
}

#[test]
fn typesetter_uses_the_padding_of_its_settings() {
    let settings = RenderSettings::default().horz_padding(10).vert_padding(5);
    let mut layout = Layout::new();
    layout.add_node(LayoutNode {
        node: LayoutVariant::Glyph(LayoutGlyph { unicode: 'x' as u32, scale: 1, offset: 0, attachment: 0, italics: 0 }),
        width: 100,
        height: 80,
        depth: -20,
    });
    let scene = Typesetter::new(&settings).typeset(&layout);
    assert_eq!(scene.width, 120);
    assert_eq!(scene.height, 110);
    match &scene.nodes[0] {
        SceneNode::Glyph(g) => assert_eq!(g.position, Point { x: 10, y: 85 }),
        _ => panic!("expected a glyph"),
    }
}

#[test]
fn svg_document_is_exact() {
    let settings = RenderSettings::default().font_src("f.otf");
    let scene = MathScene {
        width: 1000,
        height: 500,
        nodes: vec![
            SceneNode::Glyph(SceneGlyph { position: Point { x: 1, y: -2 }, unicode: 'x' as u32, scale: 1 }),
            SceneNode::Glyph(SceneGlyph { position: Point { x: 3, y: 4 }, unicode: 'y' as u32, scale: 2 }),
            SceneNode::Rule(SceneRule { position: Point { x: 5, y: 6 }, width: 7, height: 8 }),
            SceneNode::DebugBox(SceneDebugBox {
                position: Point { x: 9, y: 10 },
                width: 11,
                height: 12,
                kind: DebugBoxKind::VerticalBox,
            }),
            SceneNode::Color(SceneColor {
                color: Color { red: 1, green: 2, blue: 3, alpha: 255 },
                contents: vec![SceneNode::Glyph(SceneGlyph {
                    position: Point { x: 0, y: 0 },
                    unicode: 'z' as u32,
                    scale: 1,
                })],
            }),
            SceneNode::Color(SceneColor {
                color: Color { red: 10, green: 20, blue: 30, alpha: 40 },
                contents: vec![],
            }),
        ],
    };
    let size = pixel_size(&settings, &scene);
    let svg = render_scene_to_string(&settings, &scene, &size).unwrap();
    let expected = [
        "<?xml version=\"1.0\" encoding=\"UTF-8\" standalone=\"no\"?>\n",
        "<!DOCTYPE svg PUBLIC \"-//W3C//DTD SVG 1.1//EN\" \"http://www.w3.org/Graphics/SVG/1.1/DTD/svg11.dtd\">\n",
        "<svg width=\"48\" height=\"24\" viewBox=\"0 0 1000 500\" xmlns=\"http://www.w3.org/2000/svg\">\n",
        "    <defs>\n",
        "    <style type=\"text/css\">@font-face{font-family:rex;src:url('f.otf');}</style>\n",
        "    </defs>\n",
        "    <g font-family=\"rex\" font-size=\"1000\">\n",
        "<text transform=\"translate(1, -2)\">x</text>\n",
        "<text transform=\"translate(3, 4) scale(2.00)\">y</text>\n",
        "<rect x=\"5\" y =\"6\" width=\"7\" height=\"8\" fill=\"#000\"/>\n",
        "<rect x=\"9\" y=\"10\" width=\"11\" height=\"12\" fill=\"none\" stroke=\"red\" stroke-width=\"8\"/>\n",
        "<g fill=\"rgba(1,2,3,255)\">\n",
        "<text transform=\"translate(0, 0)\">z</text>\n",
        "</g>\n",
        "<g fill=\"#102030\">\n",
        "</g>\n",
        "</g>\n</svg>\n\n",
    ]
    .join("");
    assert_eq!(svg, expected);
}

#[test]
fn svg_renderer_appends_to_its_output() {
    let settings = RenderSettings::default();
    let scene = MathScene { width: 10, height: 10, nodes: Vec::new() };
    let size = PixelSize { width: "1".to_string(), height: "2".to_string() };
    let mut out = String::from("prefix");
    SVGRenderer::new(&settings).render_scene_to(&mut out, &scene, &size).unwrap();
    assert!(out.starts_with("prefix<?xml"));
    assert!(out.contains("<svg width=\"1\" height=\"2\" viewBox=\"0 0 10 10\""));
    assert!(out.ends_with("</g>\n</svg>\n\n"));
}

#[test]
fn auto_renderer_keeps_a_gpu_image() {
    let settings = RenderSettings::default();
    let scene = MathScene { width: 10, height: 10, nodes: Vec::new() };
    let size = pixel_size(&settings, &scene);
    let image = WebGpuImage { width: 1, height: 1, rgba: vec![1, 2, 3, 4] };
    let result = AutoRenderer::new(&settings).render_scene(&scene, Some(Ok(image.clone())), &size).unwrap();
    assert_eq!(result.backend, RenderBackend::WebGpu);
    assert_eq!(result.fallback_reason, None);
    assert_eq!(result.output, RenderedMath::WebGpu(image));
}

#[test]
fn auto_renderer_falls_back_with_the_gpu_error_text() {
    let settings = RenderSettings::default();
    let scene = MathScene { width: 10, height: 10, nodes: Vec::new() };
    let size = pixel_size(&settings, &scene);
    let result = AutoRenderer::new(&settings)
        .render_scene(&scene, Some(Err(WebGpuError::AdapterUnavailable("none".to_string()))), &size)
        .unwrap();
    assert_eq!(result.backend, RenderBackend::Svg);
    assert_eq!(
        result.fallback_reason,
        Some(FallbackReason::WebGpuUnavailable("WebGPU adapter unavailable: none".to_string()))
    );
    let disabled = AutoRenderer::new(&settings).render_scene(&scene, None, &size).unwrap();
    assert_eq!(disabled.fallback_reason, Some(FallbackReason::WebGpuFeatureDisabled));
    match disabled.output {
        RenderedMath::Svg(svg) => assert!(svg.contains("<svg")),
        RenderedMath::WebGpu(_) => panic!("expected SVG"),
    }
}
