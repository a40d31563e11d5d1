//! Values produced by the TeX parser that later stages consume.
pub mod color;
