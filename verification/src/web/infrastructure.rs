//! The ReX side of the browser adapter.
use vstd::prelude::*;
use vstd::string::*;
use crate::error::Error;
use crate::render::RenderSettings;
use crate::render::auto::{AutoRenderResult, FallbackReason, RenderedMath};
use crate::web::application::{RenderBackend, RenderPayload, RenderResult};
use crate::render::webgpu::{WebGpuError, webgpu_error_text};

verus! {

/// Renders for the browser with ReX, using the font the page supplies.
pub struct RexRenderer {
    settings: RenderSettings,
}

impl RexRenderer {
    /// The render settings this renderer uses.
    pub closed spec fn render_settings(self) -> RenderSettings {
        self.settings
    }

    /// A renderer with the default settings, the given font source and no
    /// debug boxes.
    pub fn new(font_source: &str) -> (r: RexRenderer)
        ensures
            r.render_settings().font_src@ == font_source@,
            r.render_settings().font_size == 48,
            r.render_settings().horz_padding == 250,
            r.render_settings().vert_padding == 100,
            r.render_settings().strict,
            r.render_settings().style == crate::layout::Style::Display,
            !r.render_settings().debug,
    {
        RexRenderer { settings: RenderSettings::default().font_src(font_source).debug(false) }
    }

    /// The render settings this renderer uses.
    pub fn settings(&self) -> (s: &RenderSettings)
        ensures
            *s == self.render_settings(),
    {
        &self.settings
    }
}

/// The text of a fallback reason for the browser.
pub open spec fn fallback_text(reason: FallbackReason) -> Seq<char> {
    match reason {
        FallbackReason::WebGpuFeatureDisabled => "WebGPU feature disabled"@,
        FallbackReason::WebGpuUnavailable(message) => message@,
    }
}

/// The text of a fallback reason for the browser.
pub fn fallback_reason_text(reason: FallbackReason) -> (s: String)
    ensures
        s@ == fallback_text(reason),
{
    match reason {
        FallbackReason::WebGpuFeatureDisabled => String::from_str("WebGPU feature disabled"),
        FallbackReason::WebGpuUnavailable(message) => message,
    }
}

/// What the browser gets of an automatic render: the WebGPU image as RGBA
/// pixels, with no fallback reason; or the SVG document, with the text of
/// why rendering fell back to SVG, if it did.
pub fn auto_render_result(result: AutoRenderResult) -> (r: RenderResult)
    ensures
        match result.output {
            RenderedMath::WebGpu(image) => r == (RenderResult {
                backend: RenderBackend::WebGpu,
                payload: RenderPayload::Rgba { width: image.width, height: image.height, pixels: image.rgba },
                fallback_reason: None,
            }),
            RenderedMath::Svg(svg) => {
                &&& r.backend == RenderBackend::Svg
                &&& r.payload == RenderPayload::Svg(svg)
                &&& match result.fallback_reason {
                    None => r.fallback_reason is None,
                    Some(reason) => r.fallback_reason matches Some(t) && t@ == fallback_text(reason),
                }
            },
        },
{
    let fallback_reason = match result.fallback_reason {
        Some(reason) => Some(fallback_reason_text(reason)),
        None => None,
    };
    match result.output {
        RenderedMath::WebGpu(image) => RenderResult::webgpu(image.width, image.height, image.rgba),
        RenderedMath::Svg(svg) => RenderResult::svg(svg, fallback_reason),
    }
}

/// Why the ReX renderer failed.
#[derive(Debug)]
pub enum RexRenderError {
    Core(Error),
    WebGpu(WebGpuError),
}

impl RexRenderError {
    /// The text that describes the failure: that of the error it wraps.
    pub fn message(&self) -> (m: String)
        ensures
            m@ == match *self {
                RexRenderError::Core(e) => e.message@,
                RexRenderError::WebGpu(e) => webgpu_error_text(e),
            },
    {
        match self {
            RexRenderError::Core(error) => error.message(),
            RexRenderError::WebGpu(error) => error.message(),
        }
    }
}

impl From<Error> for RexRenderError {
    fn from(error: Error) -> (r: RexRenderError) {
        RexRenderError::Core(error)
    }
}

impl vstd::std_specs::convert::FromSpecImpl<Error> for RexRenderError {
    open spec fn obeys_from_spec() -> bool {
        true
    }

    open spec fn from_spec(error: Error) -> RexRenderError {
        RexRenderError::Core(error)
    }
}

impl From<WebGpuError> for RexRenderError {
    fn from(error: WebGpuError) -> (r: RexRenderError) {
        RexRenderError::WebGpu(error)
    }
}

impl vstd::std_specs::convert::FromSpecImpl<WebGpuError> for RexRenderError {
    open spec fn obeys_from_spec() -> bool {
        true
    }

    open spec fn from_spec(error: WebGpuError) -> RexRenderError {
        RexRenderError::WebGpu(error)
    }
}

} // verus!
