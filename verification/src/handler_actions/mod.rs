//! Building blocks for input handlers: which input methods came, stayed and
//! went between two ticks, and the actions that are made of that.

pub mod multi;
pub mod simple;
pub mod single;

use crate::entity::{
    entity_set_clone, entity_set_contains, entity_set_difference, entity_set_ids,
    entity_set_insert, entity_set_new, ids_of, lemma_ids_of_push, EntityId,
};
use crate::input_handler::InputHandler;
use crate::input_method_data::InputData;
use bevy::ecs::entity::EntityHashSet;
use vstd::prelude::*;

verus! {

/// The input methods of the events that are marked. An event without a
/// mark counts as not marked.
pub open spec fn marked_methods<P>(events: Seq<InputData<P>>, marks: Seq<bool>) -> Set<u64> {
    Set::new(
        |bits: u64|
            exists|i: int|
                0 <= i < events.len() && i < marks.len() && marks[i] && (
                #[trigger] events[i]).input_method@ == bits,
    )
}

/// The test that an event passes if its input method is among `ids`.
pub open spec fn is_about<P>(ids: Set<u64>) -> spec_fn(InputData<P>) -> bool {
    |event: InputData<P>| ids.contains(event.input_method@)
}

/// The events whose input method is among `ids`, in the events' order.
pub open spec fn events_about<P>(events: Seq<InputData<P>>, ids: Set<u64>) -> Seq<
    InputData<P>,
> {
    events.filter(is_about(ids))
}

/// The events of the handler whose input method is in `set`.
pub fn events_in<P: Copy>(handler: &InputHandler<P>, set: &EntityHashSet) -> (found: Vec<
    InputData<P>,
>)
    ensures
        found@ == events_about(handler.events(), entity_set_ids(*set)),
{
    let ghost test = is_about::<P>(entity_set_ids(*set));
    let events = handler.input_events();
    let mut found: Vec<InputData<P>> = Vec::new();
    let mut i: usize = 0;
    while i < events.len()
        invariant
            i <= events.len(),
            events@ == handler.events(),
            test == is_about::<P>(entity_set_ids(*set)),
            found@ == events@.take(i as int).filter(test),
        decreases events.len() - i,
    {
        let event = events[i];
        proof {
            use_type_invariant(&event.input_method);
            assert(events@.take(i + 1) == events@.take(i as int).push(event));
            Seq::lemma_filter_push(events@.take(i as int), event, test);
        }
        if entity_set_contains(set, event.input_method) {
            found.push(event);
        }
        i += 1;
    }
    assert(events@.take(events.len() as int) == events@);
    found
}

/// What one more event adds to the marked methods: its input method if it
/// is marked, and nothing if it is not.
proof fn lemma_marked_methods_step<P>(events: Seq<InputData<P>>, marks: Seq<bool>, i: int)
    requires
        0 <= i < events.len(),
    ensures
        marked_methods(events.take(i + 1), marks) == if i < marks.len() && marks[i] {
            marked_methods(events.take(i), marks).insert(events[i].input_method@)
        } else {
            marked_methods(events.take(i), marks)
        },
{
    let shorter = events.take(i);
    let longer = events.take(i + 1);
    let goal = if i < marks.len() && marks[i] {
        marked_methods(shorter, marks).insert(events[i].input_method@)
    } else {
        marked_methods(shorter, marks)
    };
    assert forall|bits: u64| goal.contains(bits) implies marked_methods(longer, marks).contains(
        bits,
    ) by {
        if marked_methods(shorter, marks).contains(bits) {
            let e = choose|e: int|
                0 <= e < shorter.len() && e < marks.len() && marks[e] && (
                #[trigger] shorter[e]).input_method@ == bits;
            assert(longer[e].input_method@ == bits);
        } else {
            assert(longer[i].input_method@ == bits);
        }
    }
    assert forall|bits: u64| marked_methods(longer, marks).contains(bits) implies goal.contains(
        bits,
    ) by {
        let e = choose|e: int|
            0 <= e < longer.len() && e < marks.len() && marks[e] && (
            #[trigger] longer[e]).input_method@ == bits;
        if e < i {
            assert(shorter[e].input_method@ == bits);
        }
    }
    assert(marked_methods(longer, marks) =~= goal);
}

/// The input methods of the marked events of the handler, one for each
/// such event.
pub(crate) fn methods_marked<P>(handler: &InputHandler<P>, marks: &Vec<bool>) -> (methods: Vec<
    EntityId,
>)
    ensures
        ids_of(methods@) == marked_methods(handler.events(), marks@),
{
    let events = handler.input_events();
    let mut methods: Vec<EntityId> = Vec::new();
    let mut i: usize = 0;
    assert(ids_of(methods@) =~= marked_methods(events@.take(0), marks@));
    while i < events.len()
        invariant
            i <= events.len(),
            events@ == handler.events(),
            ids_of(methods@) == marked_methods(events@.take(i as int), marks@),
        decreases events.len() - i,
    {
        proof {
            lemma_marked_methods_step(events@, marks@, i as int);
        }
        if i < marks.len() && marks[i] {
            proof {
                lemma_ids_of_push(methods@, events[i as int].input_method);
            }
            methods.push(events[i].input_method);
        }
        i += 1;
    }
    assert(events@.take(events.len() as int) == events@);
    methods
}

/// A set of entities together with what the last update added to it and
/// removed from it.
#[derive(Debug)]
pub struct DeltaEntitySet {
    added: EntityHashSet,
    current: EntityHashSet,
    removed: EntityHashSet,
}

impl DeltaEntitySet {
    /// The entities that the last update brought in.
    pub closed spec fn added_ids(&self) -> Set<u64> {
        entity_set_ids(self.added)
    }

    /// The entities of the last update.
    pub closed spec fn current_ids(&self) -> Set<u64> {
        entity_set_ids(self.current)
    }

    /// The entities that the last update dropped.
    pub closed spec fn removed_ids(&self) -> Set<u64> {
        entity_set_ids(self.removed)
    }

    /// Whether nothing is current, added or removed.
    pub open spec fn is_empty(&self) -> bool {
        &&& self.current_ids() == Set::<u64>::empty()
        &&& self.added_ids() == Set::<u64>::empty()
        &&& self.removed_ids() == Set::<u64>::empty()
    }

    /// What holds of the set after every update: what was added is current,
    /// and what was removed is not.
    pub open spec fn is_consistent(&self) -> bool {
        &&& self.added_ids().subset_of(self.current_ids())
        &&& self.removed_ids().disjoint(self.current_ids())
    }

    /// Whether this is what an update with the entities `new_ids` makes of
    /// `before`: they are the current ones, those that were not current
    /// before are added, and those that were and are no more are removed.
    pub open spec fn is_update_of(&self, before: DeltaEntitySet, new_ids: Set<u64>) -> bool {
        &&& self.current_ids() == new_ids
        &&& self.added_ids() == new_ids.difference(before.current_ids())
        &&& self.removed_ids() == before.current_ids().difference(new_ids)
    }

    pub fn new() -> (set: DeltaEntitySet)
        ensures
            set.is_empty(),
            set.is_consistent(),
    {
        DeltaEntitySet {
            added: entity_set_new(),
            current: entity_set_new(),
            removed: entity_set_new(),
        }
    }

    /// Takes the entities of `new_data` as the current ones and works out
    /// what came and what went since the last update.
    pub fn update(&mut self, new_data: &Vec<EntityId>)
        ensures
            final(self).is_update_of(*old(self), ids_of(new_data@)),
            final(self).is_consistent(),
    {
        let mut new_set = entity_set_new();
        let mut i: usize = 0;
        assert(entity_set_ids(new_set) =~= ids_of(new_data@.take(0)));
        while i < new_data.len()
            invariant
                i <= new_data.len(),
                entity_set_ids(new_set) == ids_of(new_data@.take(i as int)),
            decreases new_data.len() - i,
        {
            let id = new_data[i];
            proof {
                use_type_invariant(&id);
                lemma_ids_of_push(new_data@.take(i as int), id);
                assert(new_data@.take(i + 1) == new_data@.take(i as int).push(id));
            }
            entity_set_insert(&mut new_set, id);
            i += 1;
        }
        assert(new_data@.take(new_data.len() as int) == new_data@);
        self.added = entity_set_difference(&new_set, &self.current);
        self.removed = entity_set_difference(&self.current, &new_set);
        self.current = new_set;
    }

    pub fn added(&self) -> (set: &EntityHashSet)
        ensures
            entity_set_ids(*set) == self.added_ids(),
    {
        &self.added
    }

    pub fn current(&self) -> (set: &EntityHashSet)
        ensures
            entity_set_ids(*set) == self.current_ids(),
    {
        &self.current
    }

    pub fn removed(&self) -> (set: &EntityHashSet)
        ensures
            entity_set_ids(*set) == self.removed_ids(),
    {
        &self.removed
    }
}

impl Clone for DeltaEntitySet {
    fn clone(&self) -> (copy: DeltaEntitySet)
        ensures
            copy.added_ids() == self.added_ids(),
            copy.current_ids() == self.current_ids(),
            copy.removed_ids() == self.removed_ids(),
            copy.is_consistent() == self.is_consistent(),
    {
        DeltaEntitySet {
            added: entity_set_clone(&self.added),
            current: entity_set_clone(&self.current),
            removed: entity_set_clone(&self.removed),
        }
    }
}

impl Default for DeltaEntitySet {
    fn default() -> (set: DeltaEntitySet)
        ensures
            set.is_empty(),
            set.is_consistent(),
    {
        DeltaEntitySet::new()
    }
}

/// What stays of an update to the next: what is added was not there before,
/// is there now, and nothing is both added and removed.
pub proof fn lemma_delta_edges(after: DeltaEntitySet, before: DeltaEntitySet, new_ids: Set<u64>)
    requires
        after.is_update_of(before, new_ids),
    ensures
        after.is_consistent(),
        after.added_ids().disjoint(after.removed_ids()),
        after.added_ids().disjoint(before.current_ids()),
        after.removed_ids().subset_of(before.current_ids()),
        before.current_ids().union(after.added_ids()).difference(after.removed_ids())
            == after.current_ids(),
{
    assert(before.current_ids().union(after.added_ids()).difference(after.removed_ids())
        =~= after.current_ids());
}

} // verus!
