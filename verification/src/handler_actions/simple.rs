//! The plain action: a handler asks for the input methods that meet its
//! condition, and acts with those that it was given.

use super::{events_about, events_in, marked_methods, methods_marked, DeltaEntitySet};
use crate::entity::{entity_set_contains, entity_set_listing, is_listing_of, EntityId};
use crate::input_handler::{evaluate, InputHandler};
use crate::input_method_capturing::InputMethodMessage;
use crate::input_method_data::InputData;
use vstd::prelude::*;

verus! {

/// For each event, whether it says that the handler holds its input
/// method, and the method is among `wanted`.
pub open spec fn held_and_wanted<P>(events: Seq<InputData<P>>, wanted: Set<u64>) -> Seq<bool> {
    Seq::new(
        events.len(),
        |i: int| events[i].captured && wanted.contains(events[i].input_method@),
    )
}

/// The input methods that the handler holds among those it wants.
pub open spec fn acting_methods<P>(events: Seq<InputData<P>>, wanted: Set<u64>) -> Set<u64> {
    marked_methods(events, held_and_wanted(events, wanted))
}

/// One message for each of `methods`, in their order.
pub open spec fn messages_about(methods: Seq<EntityId>, message: InputMethodMessage) -> Seq<
    (EntityId, InputMethodMessage),
> {
    Seq::new(methods.len(), |i: int| (methods[i], message))
}

/// Whether the queue `after` is the queue `before` with a request for each
/// method of `requested` and then a release for each of `released`, each
/// group with the smallest identity first.
pub open spec fn queued_after(
    before: Seq<(EntityId, InputMethodMessage)>,
    after: Seq<(EntityId, InputMethodMessage)>,
    requested: Set<u64>,
    released: Set<u64>,
) -> bool {
    exists|asked: Seq<EntityId>, freed: Seq<EntityId>|
        {
            &&& is_listing_of(asked, requested)
            &&& is_listing_of(freed, released)
            &&& after == before + #[trigger] messages_about(
                asked,
                InputMethodMessage::RequestCapture,
            ) + #[trigger] messages_about(freed, InputMethodMessage::Release)
        }
}

/// An action with any number of actors. The handler wants every input
/// method with an event that meets its condition; the actors are those of
/// them that it holds.
#[derive(Debug)]
pub struct SimpleHandlerAction {
    actors: DeltaEntitySet,
    wanted_actors: DeltaEntitySet,
}

impl SimpleHandlerAction {
    /// The input methods that act, with those that began and ended.
    pub closed spec fn actors(&self) -> DeltaEntitySet {
        self.actors
    }

    /// The input methods that the handler wants, with those that it began
    /// and ended to want.
    pub closed spec fn wanted(&self) -> DeltaEntitySet {
        self.wanted_actors
    }

    /// Whether `after` and `queue` are what an update makes of this action
    /// and of the handler `handler`, where `wants[i]` says whether the event
    /// at `i` meets the condition.
    pub open spec fn is_updated<P>(
        &self,
        handler: InputHandler<P>,
        wants: Seq<bool>,
        after: SimpleHandlerAction,
        queue: Seq<(EntityId, InputMethodMessage)>,
    ) -> bool {
        let wanted = marked_methods(handler.events(), wants);
        &&& after.wanted().is_update_of(self.wanted(), wanted)
        &&& after.actors().is_update_of(self.actors(), acting_methods(handler.events(), wanted))
        &&& queued_after(
            handler.queued(),
            queue,
            after.wanted().added_ids(),
            after.wanted().removed_ids(),
        )
    }

    pub fn new() -> (action: SimpleHandlerAction)
        ensures
            action.actors().is_empty(),
            action.wanted().is_empty(),
    {
        SimpleHandlerAction { actors: DeltaEntitySet::new(), wanted_actors: DeltaEntitySet::new() }
    }

    /// One tick of the action, from what the condition says of each event
    /// of the handler. The handler asks for each input method that it
    /// newly wants and releases each that it wants no more; it acts with the
    /// methods that it wants and holds.
    pub fn update_with<P>(&mut self, handler: &mut InputHandler<P>, wants_capture: &Vec<bool>)
        ensures
            old(self).is_updated(
                *old(handler),
                wants_capture@,
                *final(self),
                final(handler).queued(),
            ),
            final(handler).events() == old(handler).events(),
            final(handler).field() == old(handler).field(),
    {
        let wanted = methods_marked(handler, wants_capture);
        self.wanted_actors.update(&wanted);
        let asked = entity_set_listing(self.wanted_actors.added());
        let mut i: usize = 0;
        while i < asked.len()
            invariant
                i <= asked.len(),
                handler.events() == old(handler).events(),
                handler.field() == old(handler).field(),
                handler.queued() == old(handler).queued() + messages_about(
                    asked@.take(i as int),
                    InputMethodMessage::RequestCapture,
                ),
            decreases asked.len() - i,
        {
            handler.request_capture(asked[i]);
            assert(handler.queued() =~= old(handler).queued() + messages_about(
                asked@.take(i + 1),
                InputMethodMessage::RequestCapture,
            ));
            i += 1;
        }
        let freed = entity_set_listing(self.wanted_actors.removed());
        let mut i: usize = 0;
        while i < freed.len()
            invariant
                i <= freed.len(),
                handler.events() == old(handler).events(),
                handler.field() == old(handler).field(),
                handler.queued() == old(handler).queued() + messages_about(
                    asked@,
                    InputMethodMessage::RequestCapture,
                ) + messages_about(freed@.take(i as int), InputMethodMessage::Release),
            decreases freed.len() - i,
        {
            handler.release(freed[i]);
            assert(handler.queued() =~= old(handler).queued() + messages_about(
                asked@,
                InputMethodMessage::RequestCapture,
            ) + messages_about(freed@.take(i + 1), InputMethodMessage::Release));
            i += 1;
        }
        assert(freed@.take(freed.len() as int) == freed@);
        let events = handler.input_events();
        let mut held: Vec<bool> = Vec::new();
        let mut i: usize = 0;
        while i < events.len()
            invariant
                i <= events.len(),
                events@ == old(handler).events(),
                held.len() == i,
                forall|k: int|
                    0 <= k < i ==> #[trigger] held[k] == held_and_wanted(
                        events@,
                        self.wanted_actors.current_ids(),
                    )[k],
            decreases events.len() - i,
        {
            let event = &events[i];
            proof {
                use_type_invariant(&event.input_method);
            }
            held.push(
                event.captured && entity_set_contains(
                    self.wanted_actors.current(),
                    event.input_method,
                ),
            );
            i += 1;
        }
        assert(held@ =~= held_and_wanted(events@, self.wanted_actors.current_ids()));
        let acting = methods_marked(handler, &held);
        self.actors.update(&acting);
    }

    /// One tick of the action. `capture_condition` says of each event of the
    /// handler whether the handler wants its input method.
    pub fn update<P>(
        &mut self,
        handler: &mut InputHandler<P>,
        capture_condition: impl Fn(&InputData<P>) -> bool,
    )
        requires
            forall|i: int|
                0 <= i < old(handler).events().len() ==> call_requires(
                    capture_condition,
                    (&#[trigger] old(handler).events()[i],),
                ),
        ensures
            exists|wants: Seq<bool>|
                {
                    &&& wants.len() == old(handler).events().len()
                    &&& forall|i: int|
                        0 <= i < wants.len() ==> call_ensures(
                            capture_condition,
                            (&old(handler).events()[i],),
                            #[trigger] wants[i],
                        )
                    &&& #[trigger] old(self).is_updated(
                        *old(handler),
                        wants,
                        *final(self),
                        final(handler).queued(),
                    )
                },
            final(handler).events() == old(handler).events(),
            final(handler).field() == old(handler).field(),
    {
        let wants = evaluate(handler, capture_condition);
        self.update_with(handler, &wants);
    }

    pub fn actor_set(&self) -> (set: &DeltaEntitySet)
        ensures
            *set == self.actors(),
    {
        &self.actors
    }

    /// The events of the input methods that began to act in this tick.
    pub fn started_acting<P: Copy>(&self, handler: &InputHandler<P>) -> (events: Vec<InputData<P>>)
        ensures
            events@ == events_about(handler.events(), self.actors().added_ids()),
    {
        events_in(handler, self.actors.added())
    }

    /// The events of the input methods that act.
    pub fn currently_acting<P: Copy>(&self, handler: &InputHandler<P>) -> (events: Vec<
        InputData<P>,
    >)
        ensures
            events@ == events_about(handler.events(), self.actors().current_ids()),
    {
        events_in(handler, self.actors.current())
    }

    /// The events of the input methods that acted in the last tick and do
    /// so no more.
    pub fn stopped_acting<P: Copy>(&self, handler: &InputHandler<P>) -> (events: Vec<InputData<P>>)
        ensures
            events@ == events_about(handler.events(), self.actors().removed_ids()),
    {
        events_in(handler, self.actors.removed())
    }
}

impl Default for SimpleHandlerAction {
    fn default() -> (action: SimpleHandlerAction)
        ensures
            action.actors().is_empty(),
            action.wanted().is_empty(),
    {
        SimpleHandlerAction::new()
    }
}

/// A handler acts only with input methods that it wants: after an update,
/// every actor is among the wanted methods, and an event of it says that the
/// handler holds it.
pub proof fn lemma_actors_are_wanted<P>(
    before: SimpleHandlerAction,
    handler: InputHandler<P>,
    wants: Seq<bool>,
    after: SimpleHandlerAction,
    queue: Seq<(EntityId, InputMethodMessage)>,
)
    requires
        before.is_updated(handler, wants, after, queue),
    ensures
        after.actors().current_ids().subset_of(after.wanted().current_ids()),
        forall|bits: u64|
            after.actors().current_ids().contains(bits) ==> exists|i: int|
                0 <= i < handler.events().len() && handler.events()[i].captured && (
                #[trigger] handler.events()[i]).input_method@ == bits,
{
}

} // verus!
