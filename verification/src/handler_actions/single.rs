//! The action with one actor: of the input methods that a handler holds,
//! one at a time acts.

use super::multi::MultiHandlerAction;
use super::{events_about, DeltaEntitySet};
use crate::entity::{
    entity_set_contains, entity_set_ids, entity_set_members, ids_of, lemma_entity_id_by_bits,
    EntityId,
};
use crate::input_handler::{evaluate, InputHandler};
use crate::input_method_capturing::InputMethodMessage;
use crate::input_method_data::InputData;
use bevy::ecs::entity::EntityHashSet;
use vstd::prelude::*;

verus! {

/// Whether `bits` is the smallest identity of `ids`.
pub open spec fn is_lowest(ids: Set<u64>, bits: u64) -> bool {
    ids.contains(bits) && forall|other: u64| ids.contains(other) ==> bits <= other
}

/// The smallest identity of `ids`, where it has any.
pub open spec fn lowest(ids: Set<u64>) -> Option<u64> {
    if exists|bits: u64| is_lowest(ids, bits) {
        Some(choose|bits: u64| is_lowest(ids, bits))
    } else {
        None
    }
}

/// The bits of an identity that may be missing.
pub open spec fn bits_of(id: Option<EntityId>) -> Option<u64> {
    match id {
        Some(id) => Some(id@),
        None => None,
    }
}

/// Whether the event at `k` is the first of the input method `method`.
pub open spec fn is_first_event_of<P>(events: Seq<InputData<P>>, method: u64, k: int) -> bool {
    &&& 0 <= k < events.len()
    &&& events[k].input_method@ == method
    &&& forall|j: int| 0 <= j < k ==> (#[trigger] events[j]).input_method@ != method
}

/// The entity of the set with the smallest identity.
pub fn lowest_member(set: &EntityHashSet) -> (found: Option<EntityId>)
    ensures
        bits_of(found) == lowest(entity_set_ids(*set)),
        found is None ==> entity_set_ids(*set) == Set::<u64>::empty(),
{
    let members = entity_set_members(set);
    if members.len() == 0 {
        return None;
    }
    let mut least = members[0];
    let mut i: usize = 1;
    while i < members.len()
        invariant
            1 <= i <= members.len(),
            exists|k: int| 0 <= k < i && #[trigger] members[k] == least,
            forall|k: int| 0 <= k < i ==> least@ <= (#[trigger] members[k])@,
        decreases members.len() - i,
    {
        if members[i].to_bits() < least.to_bits() {
            least = members[i];
        }
        i += 1;
    }
    assert(is_lowest(entity_set_ids(*set), least@));
    Some(least)
}

/// An action with at most one actor. The first input method that begins to
/// act becomes the actor and stays it until it stops; where the actor may
/// change, a later one takes its place.
#[derive(Debug)]
pub struct SingleHandlerAction {
    multi: MultiHandlerAction,
    actor_started: bool,
    actor_changed: bool,
    actor_stopped: bool,
    actor: Option<EntityId>,
}

impl SingleHandlerAction {
    /// The action with many actors that this one picks its actor from.
    pub closed spec fn layers(&self) -> MultiHandlerAction {
        self.multi
    }

    /// The actor.
    pub closed spec fn actor_id(&self) -> Option<EntityId> {
        self.actor
    }

    /// Whether the last update found an actor where there was none.
    pub closed spec fn started(&self) -> bool {
        self.actor_started
    }

    /// Whether the last update replaced the actor by another.
    pub closed spec fn changed(&self) -> bool {
        self.actor_changed
    }

    /// Whether the last update lost the actor.
    pub closed spec fn stopped(&self) -> bool {
        self.actor_stopped
    }

    /// Whether `after` and `queue` are what an update makes of this action
    /// and of the handler `handler`, where `hovers[i]` and `interacts[i]`
    /// say whether the event at `i` meets the two conditions. Of the input
    /// methods that began to act, the one with the smallest identity is the
    /// contender. It becomes the actor where there is none, or where
    /// `allow_changing_actor` lets it replace the one there is. An actor that
    /// stopped to act is no actor any more.
    pub open spec fn is_updated<P>(
        &self,
        handler: InputHandler<P>,
        allow_changing_actor: bool,
        hovers: Seq<bool>,
        interacts: Seq<bool>,
        after: SingleHandlerAction,
        queue: Seq<(EntityId, InputMethodMessage)>,
    ) -> bool {
        let actors = after.layers().acting().actors();
        let contender = lowest(actors.added_ids());
        let before = bits_of(self.actor_id());
        let adopted = if contender is Some && (before is None || allow_changing_actor) {
            contender
        } else {
            before
        };
        &&& self.layers().is_updated(handler, hovers, interacts, after.layers(), queue)
        &&& after.started() == (contender is Some && before is None)
        &&& after.changed() == (contender is Some && before is Some && allow_changing_actor)
        &&& after.stopped() == (adopted is Some && actors.removed_ids().contains(adopted->0))
        &&& bits_of(after.actor_id()) == if after.stopped() {
            None
        } else {
            adopted
        }
    }

    pub fn new() -> (action: SingleHandlerAction)
        ensures
            action.actor_id() is None,
            !action.started(),
            !action.changed(),
            !action.stopped(),
            action.layers().hovers().is_empty(),
            action.layers().acting().actors().is_empty(),
            action.layers().acting().wanted().is_empty(),
    {
        SingleHandlerAction {
            multi: MultiHandlerAction::new(),
            actor_started: false,
            actor_changed: false,
            actor_stopped: false,
            actor: None,
        }
    }

    /// One tick of the action, from what the two conditions say of each
    /// event of the handler.
    pub fn update_with<P>(
        &mut self,
        handler: &mut InputHandler<P>,
        allow_changing_actor: bool,
        hovers: &Vec<bool>,
        interacts: &Vec<bool>,
    )
        ensures
            old(self).is_updated(
                *old(handler),
                allow_changing_actor,
                hovers@,
                interacts@,
                *final(self),
                final(handler).queued(),
            ),
            final(handler).events() == old(handler).events(),
            final(handler).field() == old(handler).field(),
    {
        self.multi.update_with(handler, hovers, interacts);
        self.actor_started = false;
        self.actor_changed = false;
        self.actor_stopped = false;
        match lowest_member(self.multi.actor_set().added()) {
            Some(contender) => {
                if self.actor.is_none() {
                    self.actor_started = true;
                    self.actor = Some(contender);
                } else if allow_changing_actor {
                    self.actor_changed = true;
                    self.actor = Some(contender);
                }
            },
            None => {},
        }
        match self.actor {
            Some(actor) => {
                proof {
                    use_type_invariant(&actor);
                }
                if entity_set_contains(self.multi.actor_set().removed(), actor) {
                    self.actor_stopped = true;
                    self.actor = None;
                }
            },
            None => {},
        }
    }

    /// One tick of the action. `hover_condition` says of each event of the
    /// handler whether its input method hovers, `interact_condition`
    /// whether it is to interact.
    pub fn update<P>(
        &mut self,
        handler: &mut InputHandler<P>,
        allow_changing_actor: bool,
        hover_condition: impl Fn(&InputData<P>) -> bool,
        interact_condition: impl Fn(&InputData<P>) -> bool,
    )
        requires
            forall|i: int|
                0 <= i < old(handler).events().len() ==> call_requires(
                    hover_condition,
                    (&#[trigger] old(handler).events()[i],),
                ),
            forall|i: int|
                0 <= i < old(handler).events().len() ==> call_requires(
                    interact_condition,
                    (&#[trigger] old(handler).events()[i],),
                ),
        ensures
            exists|hovers: Seq<bool>, interacts: Seq<bool>|
                {
                    &&& hovers.len() == old(handler).events().len()
                    &&& interacts.len() == old(handler).events().len()
                    &&& forall|i: int|
                        0 <= i < hovers.len() ==> call_ensures(
                            hover_condition,
                            (&old(handler).events()[i],),
                            #[trigger] hovers[i],
                        )
                    &&& forall|i: int|
                        0 <= i < interacts.len() ==> call_ensures(
                            interact_condition,
                            (&old(handler).events()[i],),
                            #[trigger] interacts[i],
                        )
                    &&& #[trigger] old(self).is_updated(
                        *old(handler),
                        allow_changing_actor,
                        hovers,
                        interacts,
                        *final(self),
                        final(handler).queued(),
                    )
                },
            final(handler).events() == old(handler).events(),
            final(handler).field() == old(handler).field(),
    {
        let hovers = evaluate(handler, hover_condition);
        let interacts = evaluate(handler, interact_condition);
        self.update_with(handler, allow_changing_actor, &hovers, &interacts);
    }

    pub fn started_acting(&self) -> (started: bool)
        ensures
            started == self.started(),
    {
        self.actor_started
    }

    pub fn stopped_acting(&self) -> (stopped: bool)
        ensures
            stopped == self.stopped(),
    {
        self.actor_stopped
    }

    pub fn actor_changed(&self) -> (changed: bool)
        ensures
            changed == self.changed(),
    {
        self.actor_changed
    }

    /// The first event of the actor among the events of the handler.
    pub fn actor<P: Copy>(&self, handler: &InputHandler<P>) -> (event: Option<InputData<P>>)
        ensures
            match event {
                Some(event) => self.actor_id() is Some && exists|k: int| #[trigger]
                    is_first_event_of(handler.events(), self.actor_id()->0@, k)
                        && handler.events()[k] == event,
                None => self.actor_id() is None || forall|k: int|
                    0 <= k < handler.events().len() ==> (
                    #[trigger] handler.events()[k]).input_method@ != self.actor_id()->0@,
            },
    {
        match self.actor {
            Some(actor) => {
                let events = handler.input_events();
                let mut k: usize = 0;
                while k < events.len()
                    invariant
                        k <= events.len(),
                        events@ == handler.events(),
                        self.actor_id() == Some(actor),
                        forall|j: int|
                            0 <= j < k ==> (#[trigger] events[j]).input_method@ != actor@,
                    decreases events.len() - k,
                {
                    if events[k].input_method.to_bits() == actor.to_bits() {
                        assert(is_first_event_of(
                            handler.events(),
                            self.actor_id()->0@,
                            k as int,
                        ));
                        return Some(events[k]);
                    }
                    k += 1;
                }
                None
            },
            None => None,
        }
    }

    pub fn actor_entity(&self) -> (actor: Option<EntityId>)
        ensures
            actor == self.actor_id(),
    {
        self.actor
    }

    pub fn hover_set(&self) -> (set: &DeltaEntitySet)
        ensures
            *set == self.layers().hovers(),
    {
        self.multi.hover_set()
    }

    /// The events of the input methods that began to hover in this tick.
    pub fn started_hovering<P: Copy>(&self, handler: &InputHandler<P>) -> (events: Vec<
        InputData<P>,
    >)
        ensures
            events@ == events_about(handler.events(), self.layers().hovers().added_ids()),
    {
        self.multi.started_hovering(handler)
    }

    /// The events of the input methods that hover.
    pub fn currently_hovering<P: Copy>(&self, handler: &InputHandler<P>) -> (events: Vec<
        InputData<P>,
    >)
        ensures
            events@ == events_about(handler.events(), self.layers().hovers().current_ids()),
    {
        self.multi.currently_hovering(handler)
    }

    /// The events of the input methods that hovered in the last tick and
    /// do so no more.
    pub fn stopped_hovering<P: Copy>(&self, handler: &InputHandler<P>) -> (events: Vec<
        InputData<P>,
    >)
        ensures
            events@ == events_about(handler.events(), self.layers().hovers().removed_ids()),
    {
        self.multi.stopped_hovering(handler)
    }
}

impl Default for SingleHandlerAction {
    fn default() -> (action: SingleHandlerAction)
        ensures
            action.actor_id() is None,
            !action.started(),
            !action.changed(),
            !action.stopped(),
            action.layers().hovers().is_empty(),
            action.layers().acting().actors().is_empty(),
            action.layers().acting().wanted().is_empty(),
    {
        SingleHandlerAction::new()
    }
}

/// A set of identities that holds `member` has a smallest one.
pub proof fn lemma_lowest_exists(ids: Set<u64>, member: u64)
    requires
        ids.contains(member),
    ensures
        lowest(ids) is Some,
        is_lowest(ids, lowest(ids)->0),
        lowest(ids)->0 <= member,
    decreases member,
{
    if exists|smaller: u64| ids.contains(smaller) && smaller < member {
        let smaller = choose|smaller: u64| ids.contains(smaller) && smaller < member;
        lemma_lowest_exists(ids, smaller);
    } else {
        assert(is_lowest(ids, member));
    }
}

/// Where the actor may not change, it stays the actor for as long as it
/// does not stop to act, whoever else begins to act.
pub proof fn lemma_actor_is_kept<P>(
    before: SingleHandlerAction,
    handler: InputHandler<P>,
    hovers: Seq<bool>,
    interacts: Seq<bool>,
    after: SingleHandlerAction,
    queue: Seq<(EntityId, InputMethodMessage)>,
)
    requires
        before.is_updated(handler, false, hovers, interacts, after, queue),
        before.actor_id() is Some,
        !after.layers().acting().actors().removed_ids().contains(before.actor_id()->0@),
    ensures
        after.actor_id() == before.actor_id(),
        !after.started(),
        !after.changed(),
        !after.stopped(),
{
    lemma_entity_id_by_bits(after.actor_id()->0, before.actor_id()->0);
}

/// Where there is no actor and several input methods begin to act in one
/// tick, one of them becomes the actor: the one with the smallest identity.
pub proof fn lemma_lowest_contender_is_adopted<P>(
    before: SingleHandlerAction,
    handler: InputHandler<P>,
    allow_changing_actor: bool,
    hovers: Seq<bool>,
    interacts: Seq<bool>,
    after: SingleHandlerAction,
    queue: Seq<(EntityId, InputMethodMessage)>,
    contender: u64,
)
    requires
        before.is_updated(handler, allow_changing_actor, hovers, interacts, after, queue),
        before.actor_id() is None,
        after.layers().acting().actors().added_ids().contains(contender),
    ensures
        after.started(),
        !after.changed(),
        !after.stopped(),
        after.actor_id() is Some,
        is_lowest(after.layers().acting().actors().added_ids(), after.actor_id()->0@),
        after.actor_id()->0@ <= contender,
{
    let actors = after.layers().acting().actors();
    lemma_lowest_exists(actors.added_ids(), contender);
    let wanted = super::marked_methods(
        handler.events(),
        super::multi::hovering_and_marked(
            handler.events(),
            super::marked_methods(handler.events(), hovers),
            interacts,
        ),
    );
    super::lemma_delta_edges(
        actors,
        before.layers().acting().actors(),
        super::simple::acting_methods(handler.events(), wanted),
    );
}

/// The actor acts: if the actor was among the acting input methods before
/// an update, or there was none, then so it is afterwards.
pub proof fn lemma_actor_acts<P>(
    before: SingleHandlerAction,
    handler: InputHandler<P>,
    allow_changing_actor: bool,
    hovers: Seq<bool>,
    interacts: Seq<bool>,
    after: SingleHandlerAction,
    queue: Seq<(EntityId, InputMethodMessage)>,
)
    requires
        before.is_updated(handler, allow_changing_actor, hovers, interacts, after, queue),
        before.actor_id() is Some ==> before.layers().acting().actors().current_ids().contains(
            before.actor_id()->0@,
        ),
    ensures
        after.actor_id() is Some ==> after.layers().acting().actors().current_ids().contains(
            after.actor_id()->0@,
        ),
{
    let actors = after.layers().acting().actors();
    let wanted = super::marked_methods(
        handler.events(),
        super::multi::hovering_and_marked(
            handler.events(),
            super::marked_methods(handler.events(), hovers),
            interacts,
        ),
    );
    super::lemma_delta_edges(
        actors,
        before.layers().acting().actors(),
        super::simple::acting_methods(handler.events(), wanted),
    );
}

} // verus!
