//! Colors named in TeX source.
use vstd::prelude::*;

verus! {

/// A color given as red, green, blue and alpha channels.
#[derive(Copy, Clone, Debug, PartialEq, Eq, Structural)]
pub struct RGBA(pub u8, pub u8, pub u8, pub u8);

} // verus!
