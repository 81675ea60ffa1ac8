//! The frame of a rendered canvas on the host page.
use vstd::prelude::*;

verus! {

/// A titled block of the host page that frames one canvas. It holds
/// nothing of its own: the host hands it a title, a subtitle and the canvas
/// whenever it is shown.
#[derive(Clone, Copy, Debug, PartialEq, Eq, Structural)]
pub struct Section;

} // verus!
