//! Automatic choice of backend: the WebGPU image when the GPU drew the
//! scene, else the SVG document with the reason for the fallback.
use vstd::prelude::*;
use crate::error::Error;
use crate::render::RenderSettings;
use crate::render::svg::{PixelSize, drawable, render_scene_to_string, svg_document};
use crate::render::webgpu::{WebGpuError, WebGpuImage, webgpu_error_text};
use crate::scene::MathScene;

verus! {

/// The backend that produced an output.
#[derive(Copy, Clone, Debug, PartialEq, Eq, Structural)]
pub enum RenderBackend {
    WebGpu,
    Svg,
}

/// Why the SVG backend was used instead of WebGPU.
#[derive(Clone, Debug, PartialEq, Eq)]
pub enum FallbackReason {
    /// This build has no WebGPU backend.
    WebGpuFeatureDisabled,
    /// The WebGPU backend failed; the text says why.
    WebGpuUnavailable(String),
}

/// Rendered mathematics.
#[derive(Clone, Debug, PartialEq)]
pub enum RenderedMath {
    WebGpu(WebGpuImage),
    Svg(String),
}

/// What automatic rendering produced, with which backend, and why it fell back.
#[derive(Clone, Debug, PartialEq)]
pub struct AutoRenderResult {
    pub backend: RenderBackend,
    pub output: RenderedMath,
    pub fallback_reason: Option<FallbackReason>,
}

/// Whether `r` is the SVG fallback for `scene`, drawn with `settings` at
/// pixel size `size`, with fallback reason `reason`.
pub open spec fn is_svg_fallback(
    r: AutoRenderResult,
    settings: RenderSettings,
    scene: MathScene,
    size: PixelSize,
    reason: FallbackReason,
) -> bool {
    &&& r.backend == RenderBackend::Svg
    &&& r.fallback_reason == Some(reason)
    &&& r.output matches RenderedMath::Svg(svg) && svg@ == svg_document(settings.font_src@, scene, size)
}

/// Renders with WebGPU when available, else with SVG.
#[derive(Copy, Clone)]
pub struct AutoRenderer<'a> {
    settings: &'a RenderSettings,
}

impl<'a> AutoRenderer<'a> {
    /// The render settings this renderer draws with.
    pub closed spec fn config(self) -> RenderSettings {
        *self.settings
    }

    /// The render settings this renderer uses.
    pub fn settings(&self) -> (s: &RenderSettings)
        ensures
            *s == self.config(),
    {
        self.settings
    }

    pub fn new(settings: &'a RenderSettings) -> (r: AutoRenderer<'a>)
        ensures
            r.config() == *settings,
    {
        AutoRenderer { settings }
    }

    /// The result of drawing `scene` when the GPU attempt ended with
    /// `gpu`: `None` when this build has no WebGPU backend, else what the
    /// WebGPU renderer returned. A GPU image is returned as is; otherwise
    /// the scene is drawn as SVG, with the reason for the fallback.
    pub fn render_scene(
        &self,
        scene: &MathScene,
        gpu: Option<Result<WebGpuImage, WebGpuError>>,
        size: &PixelSize,
    ) -> (r: Result<AutoRenderResult, Error>)
        requires
            drawable(scene@.shapes),
        ensures
            r is Ok,
            r matches Ok(res) ==> (res.fallback_reason is None <==> res.backend == RenderBackend::WebGpu),
            r matches Ok(res) ==> match gpu {
                None => is_svg_fallback(
                    res,
                    self.config(),
                    *scene,
                    *size,
                    FallbackReason::WebGpuFeatureDisabled,
                ),
                Some(Ok(image)) => res == (AutoRenderResult {
                    backend: RenderBackend::WebGpu,
                    output: RenderedMath::WebGpu(image),
                    fallback_reason: None,
                }),
                Some(Err(e)) => res.fallback_reason matches Some(FallbackReason::WebGpuUnavailable(m)) && m@
                    == webgpu_error_text(e) && is_svg_fallback(
                    res,
                    self.config(),
                    *scene,
                    *size,
                    FallbackReason::WebGpuUnavailable(m),
                ),
            },
    {
        match gpu {
            None => self.svg_fallback(scene, FallbackReason::WebGpuFeatureDisabled, size),
            Some(Ok(image)) => Ok(
                AutoRenderResult {
                    backend: RenderBackend::WebGpu,
                    output: RenderedMath::WebGpu(image),
                    fallback_reason: None,
                },
            ),
            Some(Err(error)) => self.svg_fallback(scene, FallbackReason::WebGpuUnavailable(error.message()), size),
        }
    }

    /// The SVG drawing of `scene`, marked as a fallback for `reason`.
    pub fn svg_fallback(&self, scene: &MathScene, reason: FallbackReason, size: &PixelSize) -> (r: Result<
        AutoRenderResult,
        Error,
    >)
        requires
            drawable(scene@.shapes),
        ensures
            r matches Ok(res) && is_svg_fallback(res, self.config(), *scene, *size, reason),
    {
        let output = render_scene_to_string(self.settings, scene, size)?;
        Ok(
            AutoRenderResult {
                backend: RenderBackend::Svg,
                output: RenderedMath::Svg(output),
                fallback_reason: Some(reason),
            },
        )
    }
}

} // verus!
