//! Rules of the rich-text view that hold apart from drawing: image states,
//! the element budget, and the text and names that the view shows.
use vstd::prelude::*;

pub mod budget;
pub mod image;
pub mod inline;
pub mod keyed;
pub mod names;
pub mod state;

verus! {
} // verus!
