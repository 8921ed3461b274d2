//! Input handlers: the events they receive and the messages they queue.

use crate::entity::EntityId;
use crate::input_method_capturing::InputMethodMessage;
use crate::input_method_data::InputData;
use vstd::prelude::*;

verus! {

/// Where the field of an input handler lives.
#[derive(Clone, Copy, Debug, PartialEq, Eq, Structural)]
pub enum FieldRef {
    /// On the handler's own entity.
    This,
    /// On another entity.
    Entity(EntityId),
}

impl FieldRef {
    /// The entity that carries the field of the handler `handler`.
    pub fn resolve(&self, handler: EntityId) -> (field: EntityId)
        ensures
            field == match *self {
                FieldRef::This => handler,
                FieldRef::Entity(entity) => entity,
            },
    {
        match self {
            FieldRef::This => handler,
            FieldRef::Entity(entity) => *entity,
        }
    }
}

/// An input handler: the events that it got in this tick, the messages that
/// it has queued since, and where its field is.
#[derive(Debug)]
pub struct InputHandler<P> {
    input_events: Vec<InputData<P>>,
    messages: Vec<(EntityId, InputMethodMessage)>,
    field_ref: FieldRef,
}

impl<P> InputHandler<P> {
    /// The events of this tick, in the order in which they were handed over.
    pub closed spec fn events(&self) -> Seq<InputData<P>> {
        self.input_events@
    }

    /// The queued messages, oldest first, each with the input method it is about.
    pub closed spec fn queued(&self) -> Seq<(EntityId, InputMethodMessage)> {
        self.messages@
    }

    /// The handler's reference to its field.
    pub closed spec fn field(&self) -> FieldRef {
        self.field_ref
    }

    pub fn new(field_ref: FieldRef) -> (handler: InputHandler<P>)
        ensures
            handler.events() == Seq::<InputData<P>>::empty(),
            handler.queued() == Seq::<(EntityId, InputMethodMessage)>::empty(),
            handler.field() == field_ref,
    {
        InputHandler { input_events: Vec::new(), messages: Vec::new(), field_ref }
    }

    pub fn input_events(&self) -> (events: &[InputData<P>])
        ensures
            events@ == self.events(),
    {
        self.input_events.as_slice()
    }

    /// Queues a request to capture `method`.
    pub fn request_capture(&mut self, method: EntityId)
        ensures
            final(self).queued() == old(self).queued().push(
                (method, InputMethodMessage::RequestCapture),
            ),
            final(self).events() == old(self).events(),
            final(self).field() == old(self).field(),
    {
        self.messages.push((method, InputMethodMessage::RequestCapture));
    }

    /// Queues the release of `method`.
    pub fn release(&mut self, method: EntityId)
        ensures
            final(self).queued() == old(self).queued().push((method, InputMethodMessage::Release)),
            final(self).events() == old(self).events(),
            final(self).field() == old(self).field(),
    {
        self.messages.push((method, InputMethodMessage::Release));
    }

    pub fn get_field_ref(&self) -> (field_ref: FieldRef)
        ensures
            field_ref == self.field(),
    {
        self.field_ref
    }

    pub fn set_field_ref(&mut self, field_ref: FieldRef)
        ensures
            final(self).field() == field_ref,
            final(self).events() == old(self).events(),
            final(self).queued() == old(self).queued(),
    {
        self.field_ref = field_ref;
    }

    /// Empties the message queue and hands out what it held.
    pub fn take_messages(&mut self) -> (messages: Vec<(EntityId, InputMethodMessage)>)
        ensures
            messages@ == old(self).queued(),
            final(self).queued() == Seq::<(EntityId, InputMethodMessage)>::empty(),
            final(self).events() == old(self).events(),
            final(self).field() == old(self).field(),
    {
        let mut taken: Vec<(EntityId, InputMethodMessage)> = Vec::new();
        std::mem::swap(&mut self.messages, &mut taken);
        taken
    }

    /// Replaces the events of the last tick by those of this one.
    pub fn set_events(&mut self, events: Vec<InputData<P>>)
        ensures
            final(self).events() == events@,
            final(self).queued() == old(self).queued(),
            final(self).field() == old(self).field(),
    {
        self.input_events = events;
    }
}

/// What a condition says of each event of a handler, in the events' order.
pub fn evaluate<P>(
    handler: &InputHandler<P>,
    condition: impl Fn(&InputData<P>) -> bool,
) -> (holds: Vec<bool>)
    requires
        forall|i: int|
            0 <= i < handler.events().len() ==> call_requires(
                condition,
                (&#[trigger] handler.events()[i],),
            ),
    ensures
        holds.len() == handler.events().len(),
        forall|i: int|
            0 <= i < holds.len() ==> call_ensures(
                condition,
                (&handler.events()[i],),
                #[trigger] holds[i],
            ),
{
    let events = handler.input_events();
    let mut holds: Vec<bool> = Vec::new();
    let mut i: usize = 0;
    while i < events.len()
        invariant
            events@ == handler.events(),
            i <= events.len(),
            holds.len() == i,
            forall|k: int|
                0 <= k < events.len() ==> call_requires(condition, (&#[trigger] events@[k],)),
            forall|k: int|
                0 <= k < i ==> call_ensures(condition, (&events@[k],), #[trigger] holds[k]),
        decreases events.len() - i,
    {
        let b = condition(&events[i]);
        holds.push(b);
        i += 1;
    }
    holds
}

} // verus!
