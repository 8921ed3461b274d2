//! What an input handler is told about an input method in one tick.

use crate::entity::EntityId;
use vstd::prelude::*;

verus! {

/// One input method as one input handler sees it in this tick. `data` is what
/// the method reports (its pose in the handler's space, its buttons, its
/// distance to the handler's field); the library carries it and never reads
/// it.
#[derive(Debug)]
pub struct InputData<P> {
    pub input_method: EntityId,
    pub data: P,
    pub captured: bool,
}

impl<P: Copy> Clone for InputData<P> {
    fn clone(&self) -> (copy: Self)
        ensures
            copy == *self,
    {
        *self
    }
}

impl<P: Copy> Copy for InputData<P> {

}

} // verus!
