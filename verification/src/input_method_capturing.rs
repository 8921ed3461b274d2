//! The capture protocol between input methods and input handlers: who gets
//! which method in a tick, who is told of it, and what the handlers' messages
//! do to it.

use crate::entity::{
    entity_set_contains, entity_set_ids, entity_set_insert, entity_set_new,
    lemma_entity_id_by_bits, EntityId,
};
use crate::input_handler::InputHandler;
use crate::input_method::{prioritized, InputMethod};
use crate::input_method_data::InputData;
use bevy::ecs::entity::EntityHashSet;
use vstd::prelude::*;

verus! {

/// What an input handler can ask of an input method.
#[derive(Debug, Clone, Copy, Hash, PartialEq, Eq, Structural, PartialOrd, Ord)]
pub enum InputMethodMessage {
    RequestCapture,
    Release,
}

/// The handlers that asked for an input method in the last tick.
#[derive(Debug)]
pub struct InputMethodCaptureRequests(EntityHashSet);

impl InputMethodCaptureRequests {
    /// The handlers that ask for the method, each by its bits.
    pub closed spec fn ids(&self) -> Set<u64> {
        entity_set_ids(self.0)
    }

    pub fn new() -> (requests: InputMethodCaptureRequests)
        ensures
            requests.ids() == Set::<u64>::empty(),
    {
        InputMethodCaptureRequests(entity_set_new())
    }

    pub fn contains(&self, handler: EntityId) -> (asked: bool)
        ensures
            asked == self.ids().contains(handler@),
    {
        proof {
            use_type_invariant(&handler);
        }
        entity_set_contains(&self.0, handler)
    }

    /// Notes that `handler` asks for the method.
    pub fn insert(&mut self, handler: EntityId)
        ensures
            final(self).ids() == old(self).ids().insert(handler@),
    {
        proof {
            use_type_invariant(&handler);
        }
        entity_set_insert(&mut self.0, handler);
    }

    /// The set of the handlers that ask for the method.
    pub fn handlers(&self) -> (set: &EntityHashSet)
        ensures
            entity_set_ids(*set) == self.ids(),
    {
        &self.0
    }
}

impl Default for InputMethodCaptureRequests {
    fn default() -> (requests: InputMethodCaptureRequests)
        ensures
            requests.ids() == Set::<u64>::empty(),
    {
        InputMethodCaptureRequests::new()
    }
}

/// An input method in the registry of a tick. An inactive method has lost
/// tracking: no step of the protocol looks at it or changes it.
#[derive(Debug)]
pub struct MethodEntry {
    pub id: EntityId,
    pub method: InputMethod,
    pub requests: InputMethodCaptureRequests,
    pub active: bool,
}

/// An input handler in the registry of a tick.
#[derive(Debug)]
pub struct HandlerEntry<P> {
    pub id: EntityId,
    pub handler: InputHandler<P>,
}

/// The identities of the handlers of the registry.
pub open spec fn handler_ids<P>(handlers: Seq<HandlerEntry<P>>) -> Set<u64> {
    Set::new(
        |bits: u64| exists|j: int| 0 <= j < handlers.len() && (#[trigger] handlers[j]).id@ == bits,
    )
}

/// Whether `handler` may take a method: it asks for it and it is one of the
/// handlers that there are.
pub open spec fn may_capture(handler: EntityId, requests: Set<u64>, live: Set<u64>) -> bool {
    requests.contains(handler@) && live.contains(handler@)
}

/// Whether the candidate at `k` is the first that may take the method.
pub open spec fn is_first_choice(
    order: Seq<EntityId>,
    requests: Set<u64>,
    live: Set<u64>,
    k: int,
) -> bool {
    &&& 0 <= k < order.len()
    &&& may_capture(order[k], requests, live)
    &&& forall|j: int| 0 <= j < k ==> !may_capture(#[trigger] order[j], requests, live)
}

/// Whether `owner` is who a free method goes to: the first candidate that
/// may take it, and nobody where no candidate may.
pub open spec fn grants(
    order: Seq<EntityId>,
    requests: Set<u64>,
    live: Set<u64>,
    owner: Option<EntityId>,
) -> bool {
    match owner {
        Some(handler) => exists|k: int| #[trigger]
            is_first_choice(order, requests, live, k) && order[k] == handler,
        None => forall|k: int|
            0 <= k < order.len() ==> !may_capture(#[trigger] order[k], requests, live),
    }
}

/// The order in which a method is offered in a tick: with hysteresis, the
/// handler that held it last comes first.
pub open spec fn offered_order(method: InputMethod, hysteresis: bool) -> Seq<EntityId> {
    if hysteresis && method.last_owner() is Some {
        prioritized(method.order(), method.last_owner()->0)
    } else {
        method.order()
    }
}

/// What `clear_captures` does to one method.
pub open spec fn cleared(before: MethodEntry, after: MethodEntry) -> bool {
    if before.active {
        &&& after.id == before.id
        &&& after.active
        &&& after.requests == before.requests
        &&& after.method.owner() is None
        &&& after.method.last_owner() == before.method.owner()
        &&& after.method.order() == before.method.order()
    } else {
        after == before
    }
}

/// What `capture_input_methods` does to one method.
pub open spec fn captured(
    before: MethodEntry,
    after: MethodEntry,
    live: Set<u64>,
    hysteresis: bool,
) -> bool {
    if before.active && before.method.owner() is None {
        &&& after.id == before.id
        &&& after.active
        &&& after.requests == before.requests
        &&& after.method.last_owner() == before.method.last_owner()
        &&& after.method.order() == offered_order(before.method, hysteresis)
        &&& grants(after.method.order(), before.requests.ids(), live, after.method.owner())
    } else {
        after == before
    }
}

/// Begins a tick: every active method is taken from its handler, which is
/// remembered as the handler that held it last.
pub fn clear_captures(methods: &mut Vec<MethodEntry>)
    ensures
        final(methods).len() == old(methods).len(),
        forall|i: int|
            0 <= i < old(methods).len() ==> cleared(old(methods)[i], #[trigger] final(methods)[i]),
{
    let mut i: usize = 0;
    while i < methods.len()
        invariant
            methods.len() == old(methods).len(),
            i <= methods.len(),
            forall|k: int| 0 <= k < i ==> cleared(old(methods)[k], #[trigger] methods[k]),
            forall|k: int| i <= k < methods.len() ==> #[trigger] methods[k] == old(methods)[k],
        decreases methods.len() - i,
    {
        let entry = &mut methods[i];
        if entry.active {
            entry.method.clear_capture();
        }
        i += 1;
    }
}

/// Gives a free method to the first of its candidates that asks for it and
/// is among `handlers`, the handlers that there are. A method that is held
/// stays where it is.
pub fn capture_input_method(
    method: &mut InputMethod,
    capture_requests: &InputMethodCaptureRequests,
    handlers: &EntityHashSet,
)
    ensures
        final(method).order() == old(method).order(),
        final(method).last_owner() == old(method).last_owner(),
        old(method).owner() is Some ==> final(method).owner() == old(method).owner(),
        old(method).owner() is None ==> grants(
            old(method).order(),
            capture_requests.ids(),
            entity_set_ids(*handlers),
            final(method).owner(),
        ),
{
    if method.captured_by().is_some() {
        return ;
    }
    let mut k: usize = 0;
    while k < method.get_handler_order().len()
        invariant
            k <= method.order().len(),
            method.order() == old(method).order(),
            method.last_owner() == old(method).last_owner(),
            method.owner() is None,
            old(method).owner() is None,
            forall|j: int|
                0 <= j < k ==> !may_capture(
                    #[trigger] method.order()[j],
                    capture_requests.ids(),
                    entity_set_ids(*handlers),
                ),
        decreases method.order().len() - k,
    {
        let handler = method.get_handler_order()[k];
        proof {
            use_type_invariant(&handler);
        }
        if capture_requests.contains(handler) && entity_set_contains(handlers, handler) {
            method.set_captured(handler);
            assert(is_first_choice(
                method.order(),
                capture_requests.ids(),
                entity_set_ids(*handlers),
                k as int,
            ));
            return ;
        }
        k += 1;
    }
}

/// The capture step of a tick. Every active method that nobody holds goes
/// to the first of its candidates that asks for it and is among `handlers`,
/// the handlers that there are; with `hysteresis`, the handler that held the
/// method last is made its first candidate before that. A method that is
/// held when the step begins stays with its owner, whether or not that owner
/// is still there: `arbitrate` clears the captures first.
pub fn capture_input_methods(
    methods: &mut Vec<MethodEntry>,
    handlers: &EntityHashSet,
    hysteresis: bool,
)
    ensures
        final(methods).len() == old(methods).len(),
        forall|i: int|
            0 <= i < old(methods).len() ==> captured(
                old(methods)[i],
                #[trigger] final(methods)[i],
                entity_set_ids(*handlers),
                hysteresis,
            ),
{
    let mut i: usize = 0;
    while i < methods.len()
        invariant
            methods.len() == old(methods).len(),
            i <= methods.len(),
            forall|k: int|
                0 <= k < i ==> captured(
                    old(methods)[k],
                    #[trigger] methods[k],
                    entity_set_ids(*handlers),
                    hysteresis,
                ),
            forall|k: int| i <= k < methods.len() ==> #[trigger] methods[k] == old(methods)[k],
        decreases methods.len() - i,
    {
        let entry = &mut methods[i];
        if entry.active && entry.method.captured_by().is_none() {
            if hysteresis {
                match entry.method.last_captured_by() {
                    Some(last) => {
                        entry.method.prioritize(last);
                    },
                    None => {},
                }
            }
            capture_input_method(&mut entry.method, &entry.requests, handlers);
        }
        i += 1;
    }
}

/// What the arbitration of a tick does to one method: its capture is
/// cleared, and then it is captured anew.
pub open spec fn arbitrated(
    before: MethodEntry,
    after: MethodEntry,
    live: Set<u64>,
    hysteresis: bool,
) -> bool {
    exists|between: MethodEntry| #[trigger]
        cleared(before, between) && captured(between, after, live, hysteresis)
}

/// The arbitration of a tick: `clear_captures`, then `capture_input_methods`.
/// Whoever held a method before does not hold it for that reason; with
/// `hysteresis` it is only offered the method first.
pub fn arbitrate(methods: &mut Vec<MethodEntry>, handlers: &EntityHashSet, hysteresis: bool)
    ensures
        final(methods).len() == old(methods).len(),
        forall|i: int|
            0 <= i < old(methods).len() ==> arbitrated(
                old(methods)[i],
                #[trigger] final(methods)[i],
                entity_set_ids(*handlers),
                hysteresis,
            ),
{
    clear_captures(methods);
    capture_input_methods(methods, handlers, hysteresis);
}

/// What the data table holds for the method at `i` and the handler at `j`:
/// nothing where it has no such cell.
pub open spec fn data_at<P>(data: Seq<Vec<Option<P>>>, i: int, j: int) -> Option<P> {
    if 0 <= i < data.len() && 0 <= j < data[i].len() {
        data[i]@[j]
    } else {
        None
    }
}

/// Whether a handler is told of a method in this tick: the method is
/// active, there is data of it for this handler, and the handler holds the
/// method or nobody does.
pub open spec fn is_sent<P>(entry: MethodEntry, handler: EntityId, data: Option<P>) -> bool {
    &&& entry.active
    &&& data is Some
    &&& match entry.method.owner() {
        Some(owner) => owner == handler,
        None => true,
    }
}

/// The events that the handler at `j` gets of the first `n` methods, in the
/// methods' order.
pub open spec fn events_for<P>(
    methods: Seq<MethodEntry>,
    handler: EntityId,
    data: Seq<Vec<Option<P>>>,
    j: int,
    n: nat,
) -> Seq<InputData<P>>
    decreases n,
{
    if n == 0 {
        Seq::empty()
    } else {
        let i = n - 1;
        let earlier = events_for(methods, handler, data, j, i as nat);
        if is_sent(methods[i], handler, data_at(data, i, j)) {
            earlier.push(
                InputData {
                    input_method: methods[i].id,
                    data: data_at(data, i, j)->0,
                    captured: methods[i].method.owner() is Some,
                },
            )
        } else {
            earlier
        }
    }
}

/// The cell of the data table for the method at `i` and the handler at `j`.
fn data_cell<P: Copy>(data: &Vec<Vec<Option<P>>>, i: usize, j: usize) -> (cell: Option<P>)
    ensures
        cell == data_at(data@, i as int, j as int),
{
    if i < data.len() {
        let row = &data[i];
        if j < row.len() {
            row[j]
        } else {
            None
        }
    } else {
        None
    }
}

/// The fan-out step of a tick. Every handler gets new events, one for each
/// active method that it holds or that nobody holds, in the methods' order.
/// `data[i][j]` is what the method at `i` reports to the handler at `j`;
/// where it is missing, the handler's field could not be found and the
/// handler gets no event of that method.
pub fn send_input_data<P: Copy>(
    methods: &Vec<MethodEntry>,
    handlers: &mut Vec<HandlerEntry<P>>,
    data: &Vec<Vec<Option<P>>>,
)
    ensures
        final(handlers).len() == old(handlers).len(),
        forall|j: int|
            0 <= j < old(handlers).len() ==> {
                &&& (#[trigger] final(handlers)[j]).id == old(handlers)[j].id
                &&& final(handlers)[j].handler.queued() == old(handlers)[j].handler.queued()
                &&& final(handlers)[j].handler.field() == old(handlers)[j].handler.field()
                &&& final(handlers)[j].handler.events() == events_for(
                    methods@,
                    old(handlers)[j].id,
                    data@,
                    j,
                    methods.len() as nat,
                )
            },
{
    let mut j: usize = 0;
    while j < handlers.len()
        invariant
            handlers.len() == old(handlers).len(),
            j <= handlers.len(),
            forall|k: int|
                0 <= k < j ==> {
                    &&& (#[trigger] handlers[k]).id == old(handlers)[k].id
                    &&& handlers[k].handler.queued() == old(handlers)[k].handler.queued()
                    &&& handlers[k].handler.field() == old(handlers)[k].handler.field()
                    &&& handlers[k].handler.events() == events_for(
                        methods@,
                        old(handlers)[k].id,
                        data@,
                        k,
                        methods.len() as nat,
                    )
                },
            forall|k: int| j <= k < handlers.len() ==> #[trigger] handlers[k] == old(handlers)[k],
        decreases handlers.len() - j,
    {
        let handler_id = handlers[j].id;
        let mut events: Vec<InputData<P>> = Vec::new();
        let mut i: usize = 0;
        while i < methods.len()
            invariant
                i <= methods.len(),
                events@ == events_for(methods@, handler_id, data@, j as int, i as nat),
            decreases methods.len() - i,
        {
            let entry = &methods[i];
            let cell = data_cell(data, i, j);
            if entry.active {
                let owner = entry.method.captured_by();
                let to_this = match owner {
                    Some(owner) => owner == handler_id,
                    None => true,
                };
                match cell {
                    Some(data) => {
                        if to_this {
                            events.push(
                                InputData {
                                    input_method: entry.id,
                                    data,
                                    captured: owner.is_some(),
                                },
                            );
                        }
                    },
                    None => {},
                }
            }
            i += 1;
        }
        let entry = &mut handlers[j];
        entry.handler.set_events(events);
        j += 1;
    }
}

/// Whether a handler of the identity `handler` has the message `message`
/// about `method` in its queue.
pub open spec fn has_queued<P>(
    handlers: Seq<HandlerEntry<P>>,
    handler: u64,
    method: EntityId,
    message: InputMethodMessage,
) -> bool {
    exists|j: int, k: int|
        0 <= j < handlers.len() && 0 <= k < handlers[j].handler.queued().len()
            && handlers[j].id@ == handler && #[trigger] handlers[j].handler.queued()[k] == (
            method,
            message,
        )
}

/// The handlers that ask for `method`: those with a request for it in their
/// queue.
pub open spec fn requesters<P>(handlers: Seq<HandlerEntry<P>>, method: EntityId) -> Set<u64> {
    Set::new(
        |handler: u64| has_queued(handlers, handler, method, InputMethodMessage::RequestCapture),
    )
}

/// Who holds `method` after the messages of the handlers: nobody, where the
/// handler that held it has a release of it in its queue, and else whoever
/// held it.
pub open spec fn owner_after<P>(
    owner: Option<EntityId>,
    handlers: Seq<HandlerEntry<P>>,
    method: EntityId,
) -> Option<EntityId> {
    if owner is Some && has_queued(handlers, owner->0@, method, InputMethodMessage::Release) {
        None
    } else {
        owner
    }
}

/// What `transfer_input_method_events` does to one method. Those that ask
/// for it are the handlers that queued a request for it since the last
/// message step, and no others: a request of an earlier tick is gone.
pub open spec fn transferred<P>(
    before: MethodEntry,
    after: MethodEntry,
    handlers: Seq<HandlerEntry<P>>,
) -> bool {
    if before.active {
        &&& after.id == before.id
        &&& after.active
        &&& after.method.order() == before.method.order()
        &&& after.method.last_owner() == before.method.last_owner()
        &&& after.method.owner() == owner_after(before.method.owner(), handlers, before.id)
        &&& after.requests.ids() == requesters(handlers, before.id)
    } else {
        after == before
    }
}

/// `has_queued`, of the messages that come before the message at `k_end` of
/// the handler at `j_end`.
spec fn queued_so_far<P>(
    handlers: Seq<HandlerEntry<P>>,
    j_end: int,
    k_end: int,
    handler: u64,
    method: EntityId,
    message: InputMethodMessage,
) -> bool {
    exists|j: int, k: int|
        0 <= j < handlers.len() && 0 <= k < handlers[j].handler.queued().len() && (j < j_end || (j
            == j_end && k < k_end)) && handlers[j].id@ == handler
            && #[trigger] handlers[j].handler.queued()[k] == (method, message)
}

/// `requesters`, of the messages that come before the message at `k_end` of
/// the handler at `j_end`.
spec fn requesters_so_far<P>(
    handlers: Seq<HandlerEntry<P>>,
    j_end: int,
    k_end: int,
    method: EntityId,
) -> Set<u64> {
    Set::new(
        |handler: u64|
            queued_so_far(
                handlers,
                j_end,
                k_end,
                handler,
                method,
                InputMethodMessage::RequestCapture,
            ),
    )
}

/// `owner_after`, of the messages that come before the message at `k_end`
/// of the handler at `j_end`.
spec fn owner_so_far<P>(
    owner: Option<EntityId>,
    handlers: Seq<HandlerEntry<P>>,
    j_end: int,
    k_end: int,
    method: EntityId,
) -> Option<EntityId> {
    if owner is Some && queued_so_far(
        handlers,
        j_end,
        k_end,
        owner->0@,
        method,
        InputMethodMessage::Release,
    ) {
        None
    } else {
        owner
    }
}

/// Whether the method at `i` is where the messages before the message at
/// `k_end` of the handler at `j_end` leave it.
spec fn transferred_so_far<P>(
    before: MethodEntry,
    after: MethodEntry,
    handlers: Seq<HandlerEntry<P>>,
    j_end: int,
    k_end: int,
) -> bool {
    if before.active {
        &&& after.id == before.id
        &&& after.active
        &&& after.method.order() == before.method.order()
        &&& after.method.last_owner() == before.method.last_owner()
        &&& after.method.owner() == owner_so_far(
            before.method.owner(),
            handlers,
            j_end,
            k_end,
            before.id,
        )
        &&& after.requests.ids() == requesters_so_far(handlers, j_end, k_end, before.id)
    } else {
        after == before
    }
}

/// Before the first message nothing is queued.
proof fn lemma_nothing_so_far<P>(
    owner: Option<EntityId>,
    handlers: Seq<HandlerEntry<P>>,
    method: EntityId,
)
    ensures
        requesters_so_far(handlers, 0, 0, method) == Set::<u64>::empty(),
        owner_so_far(owner, handlers, 0, 0, method) == owner,
{
    assert(requesters_so_far(handlers, 0, 0, method) =~= Set::<u64>::empty());
}

/// After the last message of a handler comes the first of the next.
proof fn lemma_next_handler<P>(
    owner: Option<EntityId>,
    handlers: Seq<HandlerEntry<P>>,
    j: int,
    method: EntityId,
)
    requires
        0 <= j < handlers.len(),
    ensures
        requesters_so_far(handlers, j + 1, 0, method) == requesters_so_far(
            handlers,
            j,
            handlers[j].handler.queued().len() as int,
            method,
        ),
        owner_so_far(owner, handlers, j + 1, 0, method) == owner_so_far(
            owner,
            handlers,
            j,
            handlers[j].handler.queued().len() as int,
            method,
        ),
{
    let n = handlers[j].handler.queued().len() as int;
    assert forall|handler: u64, message: InputMethodMessage|
        queued_so_far(handlers, j + 1, 0, handler, method, message) == queued_so_far(
            handlers,
            j,
            n,
            handler,
            method,
            message,
        ) by {
        if queued_so_far(handlers, j + 1, 0, handler, method, message) {
            let (a, b) = choose|a: int, b: int|
                0 <= a < handlers.len() && 0 <= b < handlers[a].handler.queued().len() && (a < j
                    + 1 || (a == j + 1 && b < 0)) && handlers[a].id@ == handler
                    && #[trigger] handlers[a].handler.queued()[b] == (method, message);
            assert(a < j || (a == j && b < n));
        }
        if queued_so_far(handlers, j, n, handler, method, message) {
            let (a, b) = choose|a: int, b: int|
                0 <= a < handlers.len() && 0 <= b < handlers[a].handler.queued().len() && (a < j
                    || (a == j && b < n)) && handlers[a].id@ == handler
                    && #[trigger] handlers[a].handler.queued()[b] == (method, message);
            assert(a < j + 1 || (a == j + 1 && b < 0));
        }
    }
    assert(requesters_so_far(handlers, j + 1, 0, method) =~= requesters_so_far(
        handlers,
        j,
        n,
        method,
    ));
}

/// After the last message of the last handler all is queued that is queued.
proof fn lemma_all_so_far<P>(
    owner: Option<EntityId>,
    handlers: Seq<HandlerEntry<P>>,
    method: EntityId,
)
    ensures
        requesters_so_far(handlers, handlers.len() as int, 0, method) == requesters(
            handlers,
            method,
        ),
        owner_so_far(owner, handlers, handlers.len() as int, 0, method) == owner_after(
            owner,
            handlers,
            method,
        ),
{
    let n = handlers.len() as int;
    assert forall|handler: u64, message: InputMethodMessage|
        queued_so_far(handlers, n, 0, handler, method, message) == has_queued(
            handlers,
            handler,
            method,
            message,
        ) by {
        if has_queued(handlers, handler, method, message) {
            let (a, b) = choose|a: int, b: int|
                0 <= a < handlers.len() && 0 <= b < handlers[a].handler.queued().len()
                    && handlers[a].id@ == handler && #[trigger] handlers[a].handler.queued()[b]
                    == (method, message);
            assert(a < n || (a == n && b < 0));
        }
    }
    assert(requesters_so_far(handlers, n, 0, method) =~= requesters(handlers, method));
}

/// What the message at `k` of the handler at `j` adds to what was queued
/// before it.
proof fn lemma_next_message<P>(
    handlers: Seq<HandlerEntry<P>>,
    j: int,
    k: int,
    handler: u64,
    method: EntityId,
    message: InputMethodMessage,
)
    requires
        0 <= j < handlers.len(),
        0 <= k < handlers[j].handler.queued().len(),
    ensures
        queued_so_far(handlers, j, k + 1, handler, method, message) == (queued_so_far(
            handlers,
            j,
            k,
            handler,
            method,
            message,
        ) || (handlers[j].id@ == handler && handlers[j].handler.queued()[k] == (method, message))),
{
    if queued_so_far(handlers, j, k + 1, handler, method, message) {
        let (a, b) = choose|a: int, b: int|
            0 <= a < handlers.len() && 0 <= b < handlers[a].handler.queued().len() && (a < j || (a
                == j && b < k + 1)) && handlers[a].id@ == handler
                && #[trigger] handlers[a].handler.queued()[b] == (method, message);
        if !(a == j && b == k) {
            assert(a < j || (a == j && b < k));
        }
    }
    if queued_so_far(handlers, j, k, handler, method, message) {
        let (a, b) = choose|a: int, b: int|
            0 <= a < handlers.len() && 0 <= b < handlers[a].handler.queued().len() && (a < j || (a
                == j && b < k)) && handlers[a].id@ == handler
                && #[trigger] handlers[a].handler.queued()[b] == (method, message);
        assert(a < j || (a == j && b < k + 1));
    }
    if handlers[j].id@ == handler && handlers[j].handler.queued()[k] == (method, message) {
        assert(j < j || (j == j && k < k + 1));
    }
}

/// What one message of `handler` does to a method that it is about. A
/// request puts the handler among those that ask for the method. A release
/// frees the method if this handler holds it, and does nothing else.
pub open spec fn applied(
    before: MethodEntry,
    after: MethodEntry,
    handler: EntityId,
    message: InputMethodMessage,
) -> bool {
    &&& after.id == before.id
    &&& after.active == before.active
    &&& after.method.order() == before.method.order()
    &&& after.method.last_owner() == before.method.last_owner()
    &&& match message {
        InputMethodMessage::RequestCapture => {
            &&& after.method.owner() == before.method.owner()
            &&& after.requests.ids() == before.requests.ids().insert(handler@)
        },
        InputMethodMessage::Release => {
            &&& after.method.owner() == if before.method.owner() == Some(handler) {
                None
            } else {
                before.method.owner()
            }
            &&& after.requests.ids() == before.requests.ids()
        },
    }
}

/// Hands one message of `handler` about `method` to the methods of the
/// registry.
fn apply_message(
    methods: &mut Vec<MethodEntry>,
    method: EntityId,
    handler: EntityId,
    message: InputMethodMessage,
)
    ensures
        final(methods).len() == old(methods).len(),
        forall|i: int|
            0 <= i < old(methods).len() ==> {
                let before = old(methods)[i];
                let after = #[trigger] final(methods)[i];
                if before.active && before.id == method {
                    applied(before, after, handler, message)
                } else {
                    after == before
                }
            },
{
    let mut i: usize = 0;
    while i < methods.len()
        invariant
            methods.len() == old(methods).len(),
            i <= methods.len(),
            forall|k: int|
                0 <= k < i ==> {
                    let before = old(methods)[k];
                    let after = #[trigger] methods[k];
                    if before.active && before.id == method {
                        applied(before, after, handler, message)
                    } else {
                        after == before
                    }
                },
            forall|k: int| i <= k < methods.len() ==> #[trigger] methods[k] == old(methods)[k],
        decreases methods.len() - i,
    {
        let entry = &mut methods[i];
        if entry.active && entry.id == method {
            match message {
                InputMethodMessage::RequestCapture => {
                    entry.requests.insert(handler);
                },
                InputMethodMessage::Release => {
                    let held = match entry.method.captured_by() {
                        Some(owner) => owner == handler,
                        None => false,
                    };
                    if held {
                        entry.method.release();
                    }
                },
            }
        }
        i += 1;
    }
}

/// Forgets who asked for the active methods before this message step.
fn forget_requests(methods: &mut Vec<MethodEntry>)
    ensures
        final(methods).len() == old(methods).len(),
        forall|i: int|
            0 <= i < old(methods).len() ==> {
                let before = old(methods)[i];
                let after = #[trigger] final(methods)[i];
                if before.active {
                    &&& after.id == before.id
                    &&& after.active
                    &&& after.method == before.method
                    &&& after.requests.ids() == Set::<u64>::empty()
                } else {
                    after == before
                }
            },
{
    let mut i: usize = 0;
    while i < methods.len()
        invariant
            methods.len() == old(methods).len(),
            i <= methods.len(),
            forall|k: int|
                0 <= k < i ==> {
                    let before = old(methods)[k];
                    let after = #[trigger] methods[k];
                    if before.active {
                        &&& after.id == before.id
                        &&& after.active
                        &&& after.method == before.method
                        &&& after.requests.ids() == Set::<u64>::empty()
                    } else {
                        after == before
                    }
                },
            forall|k: int| i <= k < methods.len() ==> #[trigger] methods[k] == old(methods)[k],
        decreases methods.len() - i,
    {
        let entry = &mut methods[i];
        if entry.active {
            entry.requests = InputMethodCaptureRequests::new();
        }
        i += 1;
    }
}

/// The message step of a tick. The queue of every handler is emptied. Each
/// active method is then asked for by the handlers that had a request for it
/// in their queue, and by no others; and it is free if the handler that held
/// it had a release of it in its queue. A release of a handler that does not
/// hold the method does nothing. A message about a method that is inactive
/// or not in the registry is dropped.
pub fn transfer_input_method_events<P>(
    handlers: &mut Vec<HandlerEntry<P>>,
    methods: &mut Vec<MethodEntry>,
)
    ensures
        final(handlers).len() == old(handlers).len(),
        forall|j: int|
            0 <= j < old(handlers).len() ==> {
                &&& (#[trigger] final(handlers)[j]).id == old(handlers)[j].id
                &&& final(handlers)[j].handler.queued() == Seq::<
                    (EntityId, InputMethodMessage),
                >::empty()
                &&& final(handlers)[j].handler.events() == old(handlers)[j].handler.events()
                &&& final(handlers)[j].handler.field() == old(handlers)[j].handler.field()
            },
        final(methods).len() == old(methods).len(),
        forall|i: int|
            0 <= i < old(methods).len() ==> transferred(
                old(methods)[i],
                #[trigger] final(methods)[i],
                old(handlers)@,
            ),
{
    forget_requests(methods);
    proof {
        assert forall|i: int| 0 <= i < methods.len() implies transferred_so_far(
            old(methods)[i],
            #[trigger] methods[i],
            old(handlers)@,
            0,
            0,
        ) by {
            lemma_nothing_so_far(old(methods)[i].method.owner(), old(handlers)@, old(methods)[i].id);
        }
    }
    let mut j: usize = 0;
    while j < handlers.len()
        invariant
            handlers.len() == old(handlers).len(),
            methods.len() == old(methods).len(),
            j <= handlers.len(),
            forall|k: int|
                0 <= k < j ==> {
                    &&& (#[trigger] handlers[k]).id == old(handlers)[k].id
                    &&& handlers[k].handler.queued() == Seq::<
                        (EntityId, InputMethodMessage),
                    >::empty()
                    &&& handlers[k].handler.events() == old(handlers)[k].handler.events()
                    &&& handlers[k].handler.field() == old(handlers)[k].handler.field()
                },
            forall|k: int| j <= k < handlers.len() ==> #[trigger] handlers[k] == old(handlers)[k],
            forall|i: int|
                0 <= i < methods.len() ==> transferred_so_far(
                    old(methods)[i],
                    #[trigger] methods[i],
                    old(handlers)@,
                    j as int,
                    0,
                ),
        decreases handlers.len() - j,
    {
        let entry = &mut handlers[j];
        let handler = entry.id;
        let queue = entry.handler.take_messages();
        let mut k: usize = 0;
        while k < queue.len()
            invariant
                methods.len() == old(methods).len(),
                j < old(handlers).len(),
                k <= queue.len(),
                handler == old(handlers)[j as int].id,
                queue@ == old(handlers)[j as int].handler.queued(),
                forall|i: int|
                    0 <= i < methods.len() ==> transferred_so_far(
                        old(methods)[i],
                        #[trigger] methods[i],
                        old(handlers)@,
                        j as int,
                        k as int,
                    ),
            decreases queue.len() - k,
        {
            let (method, message) = queue[k];
            let ghost earlier = methods@;
            apply_message(methods, method, handler, message);
            proof {
                assert forall|i: int| 0 <= i < methods.len() implies transferred_so_far(
                    old(methods)[i],
                    #[trigger] methods[i],
                    old(handlers)@,
                    j as int,
                    k + 1,
                ) by {
                    lemma_message_applied(
                        old(methods)[i],
                        earlier[i],
                        methods[i],
                        old(handlers)@,
                        j as int,
                        k as int,
                    );
                }
            }
            k += 1;
        }
        proof {
            assert forall|i: int| 0 <= i < methods.len() implies transferred_so_far(
                old(methods)[i],
                #[trigger] methods[i],
                old(handlers)@,
                j + 1,
                0,
            ) by {
                lemma_next_handler(
                    old(methods)[i].method.owner(),
                    old(handlers)@,
                    j as int,
                    old(methods)[i].id,
                );
            }
        }
        j += 1;
    }
    proof {
        assert forall|i: int| 0 <= i < methods.len() implies transferred(
            old(methods)[i],
            #[trigger] methods[i],
            old(handlers)@,
        ) by {
            lemma_all_so_far(old(methods)[i].method.owner(), old(handlers)@, old(methods)[i].id);
        }
    }
}

/// A method that is where the messages before the message at `k` of the
/// handler at `j` leave it is, with that message applied, where the messages
/// up to it leave it.
proof fn lemma_message_applied<P>(
    before: MethodEntry,
    earlier: MethodEntry,
    after: MethodEntry,
    handlers: Seq<HandlerEntry<P>>,
    j: int,
    k: int,
)
    requires
        0 <= j < handlers.len(),
        0 <= k < handlers[j].handler.queued().len(),
        transferred_so_far(before, earlier, handlers, j, k),
        if earlier.active && earlier.id == handlers[j].handler.queued()[k].0 {
            applied(earlier, after, handlers[j].id, handlers[j].handler.queued()[k].1)
        } else {
            after == earlier
        },
    ensures
        transferred_so_far(before, after, handlers, j, k + 1),
{
    if before.active {
        let method = before.id;
        let handler = handlers[j].id;
        assert forall|bits: u64| #[trigger]
            requesters_so_far(handlers, j, k + 1, method).contains(bits)
                == after.requests.ids().contains(bits) by {
            lemma_next_message(handlers, j, k, bits, method, InputMethodMessage::RequestCapture);
        }
        assert(after.requests.ids() =~= requesters_so_far(handlers, j, k + 1, method));
        if before.method.owner() is Some {
            let owner = before.method.owner()->0;
            lemma_next_message(handlers, j, k, owner@, method, InputMethodMessage::Release);
            lemma_entity_id_by_bits(owner, handler);
        }
    }
}

/// A free method goes to one handler and no other: whatever two runs of
/// the capture step give it to, on the same order, requests and handlers,
/// is the same.
pub proof fn lemma_grant_unique(
    order: Seq<EntityId>,
    requests: Set<u64>,
    live: Set<u64>,
    first: Option<EntityId>,
    second: Option<EntityId>,
)
    requires
        grants(order, requests, live, first),
        grants(order, requests, live, second),
    ensures
        first == second,
{
    if first is Some && second is Some {
        let a = choose|k: int| #[trigger]
            is_first_choice(order, requests, live, k) && order[k] == first->0;
        let b = choose|k: int| #[trigger]
            is_first_choice(order, requests, live, k) && order[k] == second->0;
        assert(a == b);
    }
}

/// Arbitration is decided by what goes into it: two runs of it on the same
/// method, with the same handlers and the same setting, give the method to
/// the same handler.
pub proof fn lemma_arbitration_deterministic(
    before: MethodEntry,
    live: Set<u64>,
    hysteresis: bool,
    first: MethodEntry,
    second: MethodEntry,
)
    requires
        arbitrated(before, first, live, hysteresis),
        arbitrated(before, second, live, hysteresis),
    ensures
        first.method.owner() == second.method.owner(),
        first.method.order() == second.method.order(),
        first.method.last_owner() == second.method.last_owner(),
{
    if before.active {
        lemma_grant_unique(
            first.method.order(),
            before.requests.ids(),
            live,
            first.method.owner(),
            second.method.owner(),
        );
    }
}

/// After the arbitration of a tick, an active method is held by nobody or
/// by one handler, and that handler is one of the handlers that there are,
/// has asked for the method and is one of its candidates.
pub proof fn lemma_owner_is_live(
    before: MethodEntry,
    after: MethodEntry,
    live: Set<u64>,
    hysteresis: bool,
)
    requires
        before.active,
        arbitrated(before, after, live, hysteresis),
    ensures
        after.method.owner() is Some ==> {
            &&& live.contains(after.method.owner()->0@)
            &&& before.requests.ids().contains(after.method.owner()->0@)
            &&& after.method.order().contains(after.method.owner()->0)
        },
{
}

/// The message step gives a method to nobody: afterwards it is held by
/// whoever held it before, or by nobody; and it is still held unless a
/// handler of the identity of its owner is in the registry.
pub proof fn lemma_messages_only_release<P>(
    owner: Option<EntityId>,
    handlers: Seq<HandlerEntry<P>>,
    method: EntityId,
)
    ensures
        owner_after(owner, handlers, method) == owner || owner_after(owner, handlers, method)
            is None,
        owner is Some && !handler_ids(handlers).contains(owner->0@) ==> owner_after(
            owner,
            handlers,
            method,
        ) == owner,
{
}

/// Nobody asks for a method unless a request for it is in a queue: where
/// no handler has one, the message step leaves the method with no
/// requests, whoever asked for it before.
pub proof fn lemma_requests_do_not_last<P>(handlers: Seq<HandlerEntry<P>>, method: EntityId)
    requires
        forall|j: int, k: int|
            0 <= j < handlers.len() && 0 <= k < handlers[j].handler.queued().len()
                ==> #[trigger] handlers[j].handler.queued()[k] != (
                method,
                InputMethodMessage::RequestCapture,
            ),
    ensures
        requesters(handlers, method) == Set::<u64>::empty(),
{
    assert(requesters(handlers, method) =~= Set::<u64>::empty());
}

/// With hysteresis, a handler that held a method when the tick began, that
/// still asks for it and is still there, gets it again, whoever else asks
/// and however near.
pub proof fn lemma_hysteresis_keeps_owner(before: MethodEntry, after: MethodEntry, live: Set<u64>)
    requires
        before.active,
        before.method.owner() is Some,
        may_capture(before.method.owner()->0, before.requests.ids(), live),
        arbitrated(before, after, live, true),
    ensures
        after.method.owner() == before.method.owner(),
{
    let order = after.method.order();
    assert(is_first_choice(order, before.requests.ids(), live, 0));
    lemma_grant_unique(
        order,
        before.requests.ids(),
        live,
        after.method.owner(),
        before.method.owner(),
    );
}

/// Without hysteresis, the first candidate that may take a method gets it,
/// whoever held it when the tick began.
pub proof fn lemma_first_choice_wins(
    before: MethodEntry,
    after: MethodEntry,
    live: Set<u64>,
    k: int,
)
    requires
        before.active,
        is_first_choice(before.method.order(), before.requests.ids(), live, k),
        arbitrated(before, after, live, false),
    ensures
        after.method.owner() == Some(before.method.order()[k]),
{
    lemma_grant_unique(
        before.method.order(),
        before.requests.ids(),
        live,
        after.method.owner(),
        Some(before.method.order()[k]),
    );
}

} // verus!
