//! The action with hovering: a handler acts only with input methods that
//! hover over it.

use super::simple::SimpleHandlerAction;
use super::{events_about, events_in, marked_methods, methods_marked, DeltaEntitySet};
use crate::entity::{entity_set_contains, EntityId};
use crate::input_handler::{evaluate, InputHandler};
use crate::input_method_capturing::InputMethodMessage;
use crate::input_method_data::InputData;
use vstd::prelude::*;

verus! {

/// For each event, whether its input method is among `hovering` and the
/// event is marked to interact. An event without a mark counts as not
/// marked.
pub open spec fn hovering_and_marked<P>(
    events: Seq<InputData<P>>,
    hovering: Set<u64>,
    interacts: Seq<bool>,
) -> Seq<bool> {
    Seq::new(
        events.len(),
        |i: int| i < interacts.len() && interacts[i] && hovering.contains(events[i].input_method@),
    )
}

/// An action with any number of actors that have to hover. An input
/// method hovers if an event of it meets the hover condition; the handler
/// wants it if it hovers and an event of it meets the interact condition.
#[derive(Debug)]
pub struct MultiHandlerAction {
    simple: SimpleHandlerAction,
    hovering: DeltaEntitySet,
}

impl MultiHandlerAction {
    /// The action that the hovering methods take part in.
    pub closed spec fn acting(&self) -> SimpleHandlerAction {
        self.simple
    }

    /// The input methods that hover, with those that began and ended.
    pub closed spec fn hovers(&self) -> DeltaEntitySet {
        self.hovering
    }

    /// Whether `after` and `queue` are what an update makes of this action
    /// and of the handler `handler`, where `hovers[i]` and `interacts[i]`
    /// say whether the event at `i` meets the two conditions.
    pub open spec fn is_updated<P>(
        &self,
        handler: InputHandler<P>,
        hovers: Seq<bool>,
        interacts: Seq<bool>,
        after: MultiHandlerAction,
        queue: Seq<(EntityId, InputMethodMessage)>,
    ) -> bool {
        let hovering = marked_methods(handler.events(), hovers);
        &&& after.hovers().is_update_of(self.hovers(), hovering)
        &&& self.acting().is_updated(
            handler,
            hovering_and_marked(handler.events(), hovering, interacts),
            after.acting(),
            queue,
        )
    }

    pub fn new() -> (action: MultiHandlerAction)
        ensures
            action.hovers().is_empty(),
            action.acting().actors().is_empty(),
            action.acting().wanted().is_empty(),
    {
        MultiHandlerAction { simple: SimpleHandlerAction::new(), hovering: DeltaEntitySet::new() }
    }

    /// One tick of the action, from what the two conditions say of each
    /// event of the handler. The marked hovers become the hovering
    /// methods; those of them that are marked to interact go through the
    /// plain action.
    pub fn update_with<P>(
        &mut self,
        handler: &mut InputHandler<P>,
        hovers: &Vec<bool>,
        interacts: &Vec<bool>,
    )
        ensures
            old(self).is_updated(
                *old(handler),
                hovers@,
                interacts@,
                *final(self),
                final(handler).queued(),
            ),
            final(handler).events() == old(handler).events(),
            final(handler).field() == old(handler).field(),
    {
        let hovered = methods_marked(handler, hovers);
        self.hovering.update(&hovered);
        let events = handler.input_events();
        let mut wants: Vec<bool> = Vec::new();
        let mut i: usize = 0;
        while i < events.len()
            invariant
                i <= events.len(),
                events@ == old(handler).events(),
                self.hovering.current_ids() == marked_methods(old(handler).events(), hovers@),
                wants.len() == i,
                forall|k: int|
                    0 <= k < i ==> #[trigger] wants[k] == hovering_and_marked(
                        events@,
                        self.hovering.current_ids(),
                        interacts@,
                    )[k],
            decreases events.len() - i,
        {
            let event = &events[i];
            proof {
                use_type_invariant(&event.input_method);
            }
            let want = i < interacts.len() && interacts[i] && entity_set_contains(
                self.hovering.current(),
                event.input_method,
            );
            wants.push(want);
            i += 1;
        }
        assert(wants@ =~= hovering_and_marked(
            events@,
            self.hovering.current_ids(),
            interacts@,
        ));
        self.simple.update_with(handler, &wants);
    }

    /// One tick of the action. `hover_condition` says of each event of the
    /// handler whether its input method hovers, `interact_condition`
    /// whether it is to interact.
    pub fn update<P>(
        &mut self,
        handler: &mut InputHandler<P>,
        hover_condition: impl Fn(&InputData<P>) -> bool,
        interact_condition: impl Fn(&InputData<P>) -> bool,
    )
        requires
            forall|i: int|
                0 <= i < old(handler).events().len() ==> call_requires(
                    hover_condition,
                    (&#[trigger] old(handler).events()[i],),
                ),
            forall|i: int|
                0 <= i < old(handler).events().len() ==> call_requires(
                    interact_condition,
                    (&#[trigger] old(handler).events()[i],),
                ),
        ensures
            exists|hovers: Seq<bool>, interacts: Seq<bool>|
                {
                    &&& hovers.len() == old(handler).events().len()
                    &&& interacts.len() == old(handler).events().len()
                    &&& forall|i: int|
                        0 <= i < hovers.len() ==> call_ensures(
                            hover_condition,
                            (&old(handler).events()[i],),
                            #[trigger] hovers[i],
                        )
                    &&& forall|i: int|
                        0 <= i < interacts.len() ==> call_ensures(
                            interact_condition,
                            (&old(handler).events()[i],),
                            #[trigger] interacts[i],
                        )
                    &&& #[trigger] old(self).is_updated(
                        *old(handler),
                        hovers,
                        interacts,
                        *final(self),
                        final(handler).queued(),
                    )
                },
            final(handler).events() == old(handler).events(),
            final(handler).field() == old(handler).field(),
    {
        let hovers = evaluate(handler, hover_condition);
        let interacts = evaluate(handler, interact_condition);
        self.update_with(handler, &hovers, &interacts);
    }

    pub fn actor_set(&self) -> (set: &DeltaEntitySet)
        ensures
            *set == self.acting().actors(),
    {
        self.simple.actor_set()
    }

    pub fn hover_set(&self) -> (set: &DeltaEntitySet)
        ensures
            *set == self.hovers(),
    {
        &self.hovering
    }

    /// The events of the input methods that began to act in this tick.
    pub fn started_acting<P: Copy>(&self, handler: &InputHandler<P>) -> (events: Vec<InputData<P>>)
        ensures
            events@ == events_about(handler.events(), self.acting().actors().added_ids()),
    {
        self.simple.started_acting(handler)
    }

    /// The events of the input methods that act.
    pub fn currently_acting<P: Copy>(&self, handler: &InputHandler<P>) -> (events: Vec<
        InputData<P>,
    >)
        ensures
            events@ == events_about(handler.events(), self.acting().actors().current_ids()),
    {
        self.simple.currently_acting(handler)
    }

    /// The events of the input methods that acted in the last tick and do
    /// so no more.
    pub fn stopped_acting<P: Copy>(&self, handler: &InputHandler<P>) -> (events: Vec<InputData<P>>)
        ensures
            events@ == events_about(handler.events(), self.acting().actors().removed_ids()),
    {
        self.simple.stopped_acting(handler)
    }

    /// The events of the input methods that began to hover in this tick.
    pub fn started_hovering<P: Copy>(&self, handler: &InputHandler<P>) -> (events: Vec<
        InputData<P>,
    >)
        ensures
            events@ == events_about(handler.events(), self.hovers().added_ids()),
    {
        events_in(handler, self.hovering.added())
    }

    /// The events of the input methods that hover.
    pub fn currently_hovering<P: Copy>(&self, handler: &InputHandler<P>) -> (events: Vec<
        InputData<P>,
    >)
        ensures
            events@ == events_about(handler.events(), self.hovers().current_ids()),
    {
        events_in(handler, self.hovering.current())
    }

    /// The events of the input methods that hovered in the last tick and
    /// do so no more.
    pub fn stopped_hovering<P: Copy>(&self, handler: &InputHandler<P>) -> (events: Vec<
        InputData<P>,
    >)
        ensures
            events@ == events_about(handler.events(), self.hovers().removed_ids()),
    {
        events_in(handler, self.hovering.removed())
    }
}

impl Default for MultiHandlerAction {
    fn default() -> (action: MultiHandlerAction)
        ensures
            action.hovers().is_empty(),
            action.acting().actors().is_empty(),
            action.acting().wanted().is_empty(),
    {
        MultiHandlerAction::new()
    }
}

/// Interaction needs hover: after an update, every wanted method, and so
/// every actor, is among the methods that hover.
pub proof fn lemma_interaction_needs_hover<P>(
    before: MultiHandlerAction,
    handler: InputHandler<P>,
    hovers: Seq<bool>,
    interacts: Seq<bool>,
    after: MultiHandlerAction,
    queue: Seq<(EntityId, InputMethodMessage)>,
)
    requires
        before.is_updated(handler, hovers, interacts, after, queue),
    ensures
        after.acting().wanted().current_ids().subset_of(after.hovers().current_ids()),
        after.acting().actors().current_ids().subset_of(after.hovers().current_ids()),
{
    let hovering = marked_methods(handler.events(), hovers);
    let marks = hovering_and_marked(handler.events(), hovering, interacts);
    assert(marked_methods(handler.events(), marks).subset_of(hovering));
}

} // verus!
