//! The capability by which anything takes part in proximity and collision
//! queries: it has a bounding box.

use vstd::prelude::*;
use crate::geometry::Rect;

verus! {

/// Anything with a bounding box.
pub trait Collidable {
    /// Whether the value is in a state in which its box can be computed.
    spec fn has_bounds(&self) -> bool;

    /// The bounding box of the value.
    spec fn bounds(&self) -> Rect;

    fn bounding_box(&self) -> (r: Rect)
        requires
            self.has_bounds(),
        ensures
            r == self.bounds(),
    ;
}

/// The boxes of a sequence of collidable values, in order.
pub open spec fn boxes_of<T: Collidable + ?Sized>(items: Seq<&T>) -> Seq<Rect> {
    Seq::new(items.len(), |k: int| items[k].bounds())
}

/// Every value of the sequence has a box.
pub open spec fn all_have_bounds<T: Collidable + ?Sized>(items: Seq<&T>) -> bool {
    forall|k: int| 0 <= k < items.len() ==> (#[trigger] items[k]).has_bounds()
}

} // verus!
