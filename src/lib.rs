//! A retained-mode UI toolkit core: component descriptions elaborate into
//! backend-neutral geometry, and text runs are drawn from a lazily updated
//! alpha atlas.

use vstd::prelude::*;

pub mod geometry;
pub mod texture;
pub mod text;
pub mod elements;

verus! {

} // verus!
