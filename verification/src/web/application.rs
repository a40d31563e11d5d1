//! The use case of the browser adapter: render a formula in a mode.
use vstd::prelude::*;
use vstd::string::*;
use crate::text::same_text;

verus! {

/// How the browser asks for a formula to be rendered.
#[derive(Copy, Clone, Debug, PartialEq, Eq, Structural)]
pub enum RenderMode {
    /// WebGPU first, SVG when WebGPU cannot render.
    Auto,
    /// WebGPU only.
    WebGpu,
    /// SVG only.
    Svg,
}

/// A render mode name that is none of the known ones.
#[derive(Clone, Debug, PartialEq, Eq)]
pub struct RenderModeError(String);

impl RenderModeError {
    /// The name that was given.
    pub closed spec fn name(self) -> Seq<char> {
        self.0@
    }

    /// The text that describes the error.
    pub fn message(&self) -> (m: String)
        ensures
            m@ == "unsupported render mode: "@ + self.name(),
    {
        let mut m = String::from_str("unsupported render mode: ");
        m.append(self.0.as_str());
        m
    }
}

/// The render mode that a name selects: `auto`, `webgpu` or `svg`.
pub open spec fn mode_named(name: Seq<char>) -> Option<RenderMode> {
    if name == "auto"@ {
        Some(RenderMode::Auto)
    } else if name == "webgpu"@ {
        Some(RenderMode::WebGpu)
    } else if name == "svg"@ {
        Some(RenderMode::Svg)
    } else {
        None
    }
}

impl RenderMode {
    /// The render mode that `value` names, or an error holding `value`.
    pub fn parse(value: &str) -> (r: Result<RenderMode, RenderModeError>)
        ensures
            r matches Ok(m) ==> mode_named(value@) == Some(m),
            r matches Err(e) ==> mode_named(value@) is None && e.name() == value@,
            r is Ok <==> mode_named(value@) is Some,
    {
        if same_text(value, "auto") {
            Ok(RenderMode::Auto)
        } else if same_text(value, "webgpu") {
            Ok(RenderMode::WebGpu)
        } else if same_text(value, "svg") {
            Ok(RenderMode::Svg)
        } else {
            Err(RenderModeError(String::from_str(value)))
        }
    }
}

impl<'a> TryFrom<&'a str> for RenderMode {
    type Error = RenderModeError;

    /// The render mode that `value` names, or an error holding `value`.
    fn try_from(value: &'a str) -> (r: Result<RenderMode, RenderModeError>)
        ensures
            r matches Ok(m) ==> mode_named(value@) == Some(m),
            r matches Err(e) ==> mode_named(value@) is None && e.name() == value@,
            r is Ok <==> mode_named(value@) is Some,
    {
        RenderMode::parse(value)
    }
}

impl<'a> vstd::std_specs::convert::TryFromSpecImpl<&'a str> for RenderMode {
    open spec fn obeys_try_from_spec() -> bool {
        false
    }

    open spec fn try_from_spec(value: &'a str) -> Result<RenderMode, RenderModeError> {
        match mode_named(value@) {
            Some(m) => Ok(m),
            None => Err(arbitrary()),
        }
    }
}

/// The backend that produced a render result.
#[derive(Copy, Clone, Debug, PartialEq, Eq, Structural)]
pub enum RenderBackend {
    WebGpu,
    Svg,
}

/// What a render produced: SVG text, or an RGBA image.
#[derive(Clone, Debug, PartialEq)]
pub enum RenderPayload {
    Svg(String),
    Rgba { width: u32, height: u32, pixels: Vec<u8> },
}

/// A render result with the backend that made it and, for a fallback, why.
#[derive(Clone, Debug, PartialEq)]
pub struct RenderResult {
    pub backend: RenderBackend,
    pub payload: RenderPayload,
    pub fallback_reason: Option<String>,
}

impl RenderResult {
    /// An SVG result.
    pub fn svg(svg: String, fallback_reason: Option<String>) -> (r: RenderResult)
        ensures
            r == (RenderResult { backend: RenderBackend::Svg, payload: RenderPayload::Svg(svg), fallback_reason }),
    {
        RenderResult { backend: RenderBackend::Svg, payload: RenderPayload::Svg(svg), fallback_reason }
    }

    /// A WebGPU result; it never carries a fallback reason.
    pub fn webgpu(width: u32, height: u32, pixels: Vec<u8>) -> (r: RenderResult)
        ensures
            r == (RenderResult {
                backend: RenderBackend::WebGpu,
                payload: RenderPayload::Rgba { width, height, pixels },
                fallback_reason: None,
            }),
    {
        RenderResult {
            backend: RenderBackend::WebGpu,
            payload: RenderPayload::Rgba { width, height, pixels },
            fallback_reason: None,
        }
    }
}

/// The render use case over a renderer.
pub struct RenderMath<R> {
    renderer: R,
}

impl<R> RenderMath<R> {
    /// The renderer this use case delegates to.
    pub closed spec fn port(self) -> R {
        self.renderer
    }

    pub fn new(renderer: R) -> (u: RenderMath<R>)
        ensures
            u.port() == renderer,
    {
        RenderMath { renderer }
    }

    /// The renderer this use case delegates to.
    pub fn renderer(&self) -> (r: &R)
        ensures
            *r == self.port(),
    {
        &self.renderer
    }
}

} // verus!
