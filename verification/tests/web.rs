use rex::render::auto::{AutoRenderResult, FallbackReason, RenderBackend as AutoBackend, RenderedMath};
use rex::render::webgpu::{WebGpuError, WebGpuImage};
use rex::error::Error;
use rex::web::application::{RenderBackend, RenderMath, RenderMode, RenderPayload, RenderResult};
use rex::web::infrastructure::{auto_render_result, fallback_reason_text, RexRenderError, RexRenderer};
use rex::web::WasmRenderResult;
use std::convert::TryFrom;

#[test]
fn render_modes_are_explicit_at_the_application_boundary() {
    assert_eq!(RenderMode::try_from("auto").unwrap(), RenderMode::Auto);
    assert_eq!(RenderMode::try_from("webgpu").unwrap(), RenderMode::WebGpu);
    assert_eq!(RenderMode::try_from("svg").unwrap(), RenderMode::Svg);
    assert!(RenderMode::try_from("canvas").is_err());
}

#[test]
fn result_constructors_preserve_backend_semantics() {
    let svg = RenderResult::svg("<svg/>".into(), Some("fallback".into()));
    assert_eq!(svg.backend, RenderBackend::Svg);
    assert_eq!(svg.fallback_reason.as_deref(), Some("fallback"));

    let webgpu = RenderResult::webgpu(2, 3, vec![0; 24]);
    assert_eq!(webgpu.backend, RenderBackend::WebGpu);
    assert!(webgpu.fallback_reason.is_none());
}

#[test]
fn unknown_modes_name_themselves_in_the_error() {
    let error = RenderMode::parse("Auto").unwrap_err();
    assert_eq!(error.message(), "unsupported render mode: Auto");
    assert!(RenderMode::parse("").is_err());
    assert!(RenderMode::parse("svg ").is_err());
}

#[test]
fn browser_results_flatten_payloads() {
    let svg = WasmRenderResult::from_result(RenderResult::svg("<svg/>".into(), Some("why".into())));
    assert_eq!(svg.backend(), "svg");
    assert_eq!(svg.kind(), "svg");
    assert_eq!(svg.svg(), Some("<svg/>".to_string()));
    assert_eq!(svg.fallback_reason(), Some("why".to_string()));
    assert_eq!((svg.width(), svg.height()), (0, 0));
    assert!(svg.rgba().is_empty());

    let image = WasmRenderResult::from_result(RenderResult::webgpu(1, 2, vec![1, 2, 3, 4, 5, 6, 7, 8]));
    assert_eq!(image.backend(), "webgpu");
    assert_eq!(image.kind(), "rgba");
    assert_eq!(image.svg(), None);
    assert_eq!(image.fallback_reason(), None);
    assert_eq!((image.width(), image.height()), (1, 2));
    assert_eq!(image.rgba(), vec![1, 2, 3, 4, 5, 6, 7, 8]);
}

#[test]
fn rex_renderer_uses_the_page_font() {
    let renderer = RexRenderer::new("./rex-xits.woff2");
    assert_eq!(renderer.settings().font_src, "./rex-xits.woff2");
    assert!(!renderer.settings().debug);
    assert_eq!(renderer.settings().font_size, 48);
}

#[test]
fn fallback_reasons_become_text() {
    assert_eq!(fallback_reason_text(FallbackReason::WebGpuFeatureDisabled), "WebGPU feature disabled");
    assert_eq!(fallback_reason_text(FallbackReason::WebGpuUnavailable("gone".into())), "gone");
}

#[test]
fn render_errors_describe_what_they_wrap() {
    let core = RexRenderError::from(Error { message: "bad tex".into() });
    assert_eq!(core.message(), "bad tex");
    let gpu = RexRenderError::from(WebGpuError::AdapterUnavailable("x".into()));
    assert_eq!(gpu.message(), "WebGPU adapter unavailable: x");
}

#[test]
fn use_case_holds_its_renderer() {
    let use_case = RenderMath::new(5u8);
    assert_eq!(*use_case.renderer(), 5);
}

#[test]
fn payloads_compare_by_value() {
    assert_eq!(RenderPayload::Svg("a".into()), RenderPayload::Svg("a".into()));
}

#[test]
fn automatic_results_reach_the_browser_with_their_fallback_text() {
    let svg = AutoRenderResult {
        backend: AutoBackend::Svg,
        output: RenderedMath::Svg("<svg/>".into()),
        fallback_reason: Some(FallbackReason::WebGpuFeatureDisabled),
    };
    let r = auto_render_result(svg);
    assert_eq!(r.backend, RenderBackend::Svg);
    assert_eq!(r.payload, RenderPayload::Svg("<svg/>".into()));
    assert_eq!(r.fallback_reason.as_deref(), Some("WebGPU feature disabled"));

    let unavailable = AutoRenderResult {
        backend: AutoBackend::Svg,
        output: RenderedMath::Svg("<svg></svg>".into()),
        fallback_reason: Some(FallbackReason::WebGpuUnavailable("no adapter".into())),
    };
    assert_eq!(auto_render_result(unavailable).fallback_reason.as_deref(), Some("no adapter"));

    let plain = AutoRenderResult {
        backend: AutoBackend::Svg,
        output: RenderedMath::Svg("<svg/>".into()),
        fallback_reason: None,
    };
    assert_eq!(auto_render_result(plain).fallback_reason, None);

    let gpu = AutoRenderResult {
        backend: AutoBackend::WebGpu,
        output: RenderedMath::WebGpu(WebGpuImage { width: 1, height: 2, rgba: vec![9; 8] }),
        fallback_reason: None,
    };
    let r = auto_render_result(gpu);
    assert_eq!(r.backend, RenderBackend::WebGpu);
    assert_eq!(r.payload, RenderPayload::Rgba { width: 1, height: 2, pixels: vec![9; 8] });
    assert_eq!(r.fallback_reason, None);
}
