//! The browser adapter: render modes, render results, and their shape at
//! the WebAssembly boundary.
pub mod application;
pub mod infrastructure;

use vstd::prelude::*;
use self::application::{RenderBackend, RenderPayload, RenderResult};

verus! {

/// A render result flattened into the values the browser reads: backend
/// and payload kind as text, the SVG text when there is one, and the RGBA
/// image otherwise (zero size and no pixels for SVG).
#[derive(Clone, Debug)]
pub struct WasmRenderResult {
    pub backend: String,
    pub fallback_reason: Option<String>,
    pub kind: String,
    pub svg: Option<String>,
    pub width: u32,
    pub height: u32,
    pub rgba: Vec<u8>,
}

/// The text that names a backend.
pub open spec fn backend_name(b: RenderBackend) -> Seq<char> {
    match b {
        RenderBackend::WebGpu => "webgpu"@,
        RenderBackend::Svg => "svg"@,
    }
}

/// Whether `w` is the browser form of `r`.
pub open spec fn flattens(r: RenderResult, w: WasmRenderResult) -> bool {
    &&& w.backend@ == backend_name(r.backend)
    &&& w.fallback_reason == r.fallback_reason
    &&& match r.payload {
        RenderPayload::Svg(svg) => {
            &&& w.kind@ == "svg"@
            &&& w.svg == Some(svg)
            &&& w.width == 0
            &&& w.height == 0
            &&& w.rgba@.len() == 0
        },
        RenderPayload::Rgba { width, height, pixels } => {
            &&& w.kind@ == "rgba"@
            &&& w.svg is None
            &&& w.width == width
            &&& w.height == height
            &&& w.rgba@ == pixels@
        },
    }
}

impl WasmRenderResult {
    /// The browser form of a render result.
    pub fn from_result(result: RenderResult) -> (w: WasmRenderResult)
        ensures
            flattens(result, w),
    {
        let backend = match result.backend {
            RenderBackend::WebGpu => String::from_str("webgpu"),
            RenderBackend::Svg => String::from_str("svg"),
        };
        match result.payload {
            RenderPayload::Svg(svg) => WasmRenderResult {
                backend,
                fallback_reason: result.fallback_reason,
                kind: String::from_str("svg"),
                svg: Some(svg),
                width: 0,
                height: 0,
                rgba: Vec::new(),
            },
            RenderPayload::Rgba { width, height, pixels } => WasmRenderResult {
                backend,
                fallback_reason: result.fallback_reason,
                kind: String::from_str("rgba"),
                svg: None,
                width,
                height,
                rgba: pixels,
            },
        }
    }

    pub fn backend(&self) -> (s: String)
        ensures
            s@ == self.backend@,
    {
        self.backend.clone()
    }

    pub fn fallback_reason(&self) -> (s: Option<String>)
        ensures
            s is Some <==> self.fallback_reason is Some,
            s matches Some(t) ==> t@ == self.fallback_reason->0@,
    {
        match &self.fallback_reason {
            Some(reason) => Some(reason.clone()),
            None => None,
        }
    }

    pub fn kind(&self) -> (s: String)
        ensures
            s@ == self.kind@,
    {
        self.kind.clone()
    }

    pub fn svg(&self) -> (s: Option<String>)
        ensures
            s is Some <==> self.svg is Some,
            s matches Some(t) ==> t@ == self.svg->0@,
    {
        match &self.svg {
            Some(svg) => Some(svg.clone()),
            None => None,
        }
    }

    pub fn width(&self) -> (w: u32)
        ensures
            w == self.width,
    {
        self.width
    }

    pub fn height(&self) -> (h: u32)
        ensures
            h == self.height,
    {
        self.height
    }

    pub fn rgba(&self) -> (v: Vec<u8>)
        ensures
            v@ == self.rgba@,
    {
        self.rgba.clone()
    }
}

} // verus!
