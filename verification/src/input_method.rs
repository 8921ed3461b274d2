//! Input methods: who holds them and whom they would go to.

use crate::entity::EntityId;
use vstd::prelude::*;

verus! {

/// The test that every handler passes but `handler`.
pub open spec fn other_than(handler: EntityId) -> spec_fn(EntityId) -> bool {
    |other: EntityId| other != handler
}

/// `order` with `handler` moved to the front, or put there if it was missing.
pub open spec fn prioritized(order: Seq<EntityId>, handler: EntityId) -> Seq<EntityId> {
    seq![handler] + order.filter(other_than(handler))
}

/// The capture state of one input method: the handler that holds it, the
/// handler that held it when the last tick began, and the handlers it may go
/// to, nearest first.
#[derive(Debug)]
pub struct InputMethod {
    captured_by: Option<EntityId>,
    last_captured_by: Option<EntityId>,
    handler_order: Vec<EntityId>,
}

impl InputMethod {
    /// The handler that holds the method.
    pub closed spec fn owner(&self) -> Option<EntityId> {
        self.captured_by
    }

    /// The handler that held the method when its capture was last cleared.
    pub closed spec fn last_owner(&self) -> Option<EntityId> {
        self.last_captured_by
    }

    /// The candidate handlers, first choice first.
    pub closed spec fn order(&self) -> Seq<EntityId> {
        self.handler_order@
    }

    pub fn new() -> (method: InputMethod)
        ensures
            method.owner() is None,
            method.last_owner() is None,
            method.order() == Seq::<EntityId>::empty(),
    {
        InputMethod { captured_by: None, last_captured_by: None, handler_order: Vec::new() }
    }

    pub fn set_handler_order(&mut self, order: Vec<EntityId>)
        ensures
            final(self).order() == order@,
            final(self).owner() == old(self).owner(),
            final(self).last_owner() == old(self).last_owner(),
    {
        self.handler_order = order;
    }

    pub fn set_captured(&mut self, handler: EntityId)
        ensures
            final(self).owner() == Some(handler),
            final(self).last_owner() == old(self).last_owner(),
            final(self).order() == old(self).order(),
    {
        self.captured_by = Some(handler);
    }

    pub fn captured_by(&self) -> (owner: Option<EntityId>)
        ensures
            owner == self.owner(),
    {
        self.captured_by
    }

    /// The handler that the last clearing took the method from.
    pub fn last_captured_by(&self) -> (owner: Option<EntityId>)
        ensures
            owner == self.last_owner(),
    {
        self.last_captured_by
    }

    pub fn release(&mut self)
        ensures
            final(self).owner() is None,
            final(self).last_owner() == old(self).last_owner(),
            final(self).order() == old(self).order(),
    {
        self.captured_by = None;
    }

    /// Begins a tick: nobody holds the method any more, and who held it is
    /// kept as a hint for the ordering of this tick.
    pub fn clear_capture(&mut self)
        ensures
            final(self).owner() is None,
            final(self).last_owner() == old(self).owner(),
            final(self).order() == old(self).order(),
    {
        self.last_captured_by = self.captured_by;
        self.captured_by = None;
    }

    pub fn get_handler_order(&self) -> (order: &Vec<EntityId>)
        ensures
            order@ == self.order(),
    {
        &self.handler_order
    }

    /// Makes `handler` the first candidate. The others keep their order.
    pub fn prioritize(&mut self, handler: EntityId)
        ensures
            final(self).order() == prioritized(old(self).order(), handler),
            final(self).owner() == old(self).owner(),
            final(self).last_owner() == old(self).last_owner(),
    {
        let ghost others = other_than(handler);
        let mut order: Vec<EntityId> = Vec::new();
        order.push(handler);
        let mut i: usize = 0;
        while i < self.handler_order.len()
            invariant
                i <= self.handler_order.len(),
                self.handler_order@ == old(self).handler_order@,
                self.captured_by == old(self).captured_by,
                self.last_captured_by == old(self).last_captured_by,
                others == other_than(handler),
                order@ == seq![handler] + self.handler_order@.take(i as int).filter(others),
            decreases self.handler_order.len() - i,
        {
            let candidate = self.handler_order[i];
            proof {
                let shorter = self.handler_order@.take(i as int);
                let longer = self.handler_order@.take(i + 1);
                assert(longer == shorter.push(candidate));
                Seq::lemma_filter_push(shorter, candidate, others);
            }
            if candidate != handler {
                order.push(candidate);
            }
            i += 1;
        }
        assert(self.handler_order@.take(self.handler_order.len() as int) == self.handler_order@);
        self.handler_order = order;
    }
}

impl Default for InputMethod {
    fn default() -> (method: InputMethod)
        ensures
            method.owner() is None,
            method.last_owner() is None,
            method.order() == Seq::<EntityId>::empty(),
    {
        InputMethod::new()
    }
}

} // verus!
