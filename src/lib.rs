//! A static site compiler for a wiki of algorithms: page descriptors,
//! implementation listings, a title-to-url link table and the rendering of
//! each page variant to an HTML document.

use vstd::prelude::*;

pub mod aggregate;
pub mod classifier;
pub mod descriptor;
pub mod highlight;
pub mod links;
pub mod page;
pub mod sorting;
pub mod text;

verus! {

} // verus!
