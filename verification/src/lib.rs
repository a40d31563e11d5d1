//! ReX: typesetting of mathematics into renderer-independent scenes, and
//! the backends that turn such scenes into output.
//!
//! Layout boxes (`layout`) become scenes of absolute geometry in font
//! units (`scene`); renderers (`render`) consume scenes only. The browser
//! adapter (`web`) wraps the renderers for WebAssembly, and `static_map`
//! holds the key rules of the generated font tables.
pub mod font;
pub mod text;
pub mod parser;
pub mod layout;
pub mod scene;
pub mod error;
pub mod render;
pub mod web;
pub mod static_map;

pub use render::auto::{AutoRenderResult, AutoRenderer, FallbackReason, RenderBackend, RenderedMath};
pub use render::svg;
pub use render::svg::SVGRenderer;
pub use render::webgpu::{WebGpuError, WebGpuImage, WebGpuRenderer};
pub use render::{RenderSettings, Renderer, SceneRenderer, Typesetter};
